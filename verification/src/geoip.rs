//! Where source addresses are: what is known of an address, and what to ask for.
use crate::clock::{after, instant_after};
use crate::net::{self, ip_text, normalize_ip, unmapped, IpAddr};
use crate::protocol::{copy_location, GeoLocation};
use crate::registry::Registry;
use crate::text;
use vstd::prelude::*;

verus! {

/// For how many seconds a location is remembered.
pub const DEFAULT_CACHE_TTL: u64 = 86400;

/// For how many seconds it is remembered that a location could not be had.
pub const NEGATIVE_CACHE_TTL: u64 = 600;

/// A remembered answer.
#[derive(Debug, Clone)]
pub struct CachedLocation {
    pub location: Option<GeoLocation>,
    pub expires_at: u128,
}

/// The answer of a location service.
#[derive(Debug, Clone)]
pub struct GeoIpResponse {
    pub country_name: Option<String>,
    pub country_code: Option<String>,
}

/// A field of an answer that goes by two names: absent, or a text or nothing.
pub open spec fn either(a: Option<Option<String>>, b: Option<Option<String>>) -> Option<
    Option<String>,
> {
    match (a, b) {
        (Some(v), None) => Some(v),
        (None, Some(v)) => Some(v),
        (None, None) => Some(None),
        (Some(_), Some(_)) => None,
    }
}

/// A field of an answer that goes by two names. Nothing where it stands there under both.
fn one_of(a: Option<Option<String>>, b: Option<Option<String>>) -> (r: Option<Option<String>>)
    ensures
        r == either(a, b),
{
    match a {
        Some(v) => match b {
            Some(_) => None,
            None => Some(v),
        },
        None => match b {
            Some(v) => Some(v),
            None => Some(None),
        },
    }
}

impl GeoIpResponse {
    /// The answer that the fields of a record make: the name of the country as `country_name` or
    /// `country`, its code as `country_code` or `countryCode`. Nothing where a field stands there
    /// under both names.
    pub fn from_fields(
        country_name: Option<Option<String>>,
        country: Option<Option<String>>,
        country_code: Option<Option<String>>,
        country_code_alias: Option<Option<String>>,
    ) -> (r: Option<GeoIpResponse>)
        ensures
            match (either(country_name, country), either(country_code, country_code_alias)) {
                (Some(name), Some(code)) => r == Some(
                    GeoIpResponse { country_name: name, country_code: code },
                ),
                _ => r is None,
            },
    {
        let name = one_of(country_name, country);
        let code = one_of(country_code, country_code_alias);
        match name {
            Some(country_name) => match code {
                Some(country_code) => Some(GeoIpResponse { country_name, country_code }),
                None => None,
            },
            None => None,
        }
    }
}

/// What there is to do about an address.
#[derive(Debug, Clone, PartialEq, Eq)]
pub enum Lookup {
    /// The answer is at hand.
    Known(Option<GeoLocation>),
    /// The service is to be asked under this URL.
    Fetch(String),
}

/// What there is to do about an address.
#[verifier::ext_equal]
pub enum LookupView {
    Known(Option<GeoLocation>),
    Fetch(Seq<char>),
}

impl View for Lookup {
    type V = LookupView;

    open spec fn view(&self) -> LookupView {
        match self {
            Lookup::Known(l) => LookupView::Known(*l),
            Lookup::Fetch(url) => LookupView::Fetch(url@),
        }
    }
}

/// A location service and the answers it gave.
pub struct GeoIpResolver {
    pub endpoint: String,
    pub enabled: bool,
    pub cache: Registry<u128, CachedLocation>,
}

/// A location service and the answers it gave.
#[verifier::ext_equal]
pub struct GeoView {
    pub endpoint: Seq<char>,
    pub enabled: bool,
    pub cache: Map<u128, CachedLocation>,
}

/// The number under which an address is remembered: an IPv4 address goes by the IPv6 address that
/// maps to it.
pub open spec fn ip_key(ip: IpAddr) -> u128 {
    match ip {
        IpAddr::V4(v) => (0xffff_0000_0000 + v) as u128,
        IpAddr::V6(v) => v,
    }
}

/// Two addresses go by one number only where they are one address.
pub proof fn law_ip_key(a: IpAddr, b: IpAddr)
    ensures
        ip_key(a) == ip_key(b) <==> unmapped(a) == unmapped(b),
{
}

fn key_of(ip: IpAddr) -> (r: u128)
    ensures
        r == ip_key(ip),
{
    match ip {
        IpAddr::V4(v) => 0xffff_0000_0000 + v as u128,
        IpAddr::V6(v) => v,
    }
}

/// Whether an address can be one of the public Internet.
pub open spec fn public_candidate(ip: IpAddr) -> bool {
    match ip {
        IpAddr::V4(v) => {
            let a = v / 0x100_0000;
            let b = v / 0x1_0000 % 0x100;
            !(a == 0 || a == 10 || a == 127 || (a == 169 && b == 254) || (a == 172 && 16 <= b <= 31)
                || (a == 192 && b == 168) || a >= 224)
        },
        IpAddr::V6(v) => {
            let first = v / 0x1_0000_0000_0000_0000_0000_0000_0000;
            !(v == 1 || v == 0 || 0xfc00 <= first <= 0xfdff || 0xfe80 <= first <= 0xfebf || first
                >= 0xff00)
        },
    }
}

/// Whether an address can be one of the public Internet.
pub fn is_public_candidate(ip: IpAddr) -> (r: bool)
    ensures
        r == public_candidate(ip),
{
    match ip {
        IpAddr::V4(v) => {
            let a: u32 = v / 0x100_0000;
            let b: u32 = v / 0x1_0000 % 0x100;
            !(a == 0 || a == 10 || a == 127 || (a == 169 && b == 254) || (a == 172 && 16 <= b && b
                <= 31) || (a == 192 && b == 168) || a >= 224)
        },
        IpAddr::V6(v) => {
            let first: u128 = v / 0x1_0000_0000_0000_0000_0000_0000_0000;
            !(v == 1 || v == 0 || (0xfc00 <= first && first <= 0xfdff) || (0xfe80 <= first && first
                <= 0xfebf) || first >= 0xff00)
        },
    }
}

/// The URL that asks about an address: the address in place of each `{ip}`, or behind a slash.
pub open spec fn endpoint_text(endpoint: Seq<char>, ip: IpAddr) -> Seq<char> {
    if text::holds(endpoint, "{ip}"@) {
        text::replaced(endpoint, "{ip}"@, ip_text(ip))
    } else {
        text::trim_end_char(endpoint, '/') + "/"@ + ip_text(ip)
    }
}

/// The URL that asks about an address.
pub fn endpoint_for(endpoint: &str, ip: IpAddr) -> (r: String)
    ensures
        r@ == endpoint_text(endpoint@, ip),
{
    let ip = net::ip_string(ip);
    if text::contains(endpoint, "{ip}") {
        proof {
            reveal_strlit("{ip}");
        }
        text::replace(endpoint, "{ip}", ip.as_str())
    } else {
        let mut out: String = text::trim_end_matches(endpoint, '/').to_owned();
        out.append("/");
        out.append(ip.as_str());
        out
    }
}

/// Whether a text is a country code: two capital letters.
pub open spec fn country_code_ok(code: Seq<char>) -> bool {
    code.len() == 2 && 'A' <= code[0] <= 'Z' && 'A' <= code[1] <= 'Z'
}

/// The country code and name that an answer gives, where it gives both in good form.
pub open spec fn location_of(response: GeoIpResponse) -> Option<(Seq<char>, Seq<char>)> {
    match (response.country_code, response.country_name) {
        (Some(code), Some(name)) => {
            let code = text::upper(text::trimmed(code@));
            let name = text::trimmed(name@);
            if country_code_ok(code) && name.len() > 0 {
                Some((code, name))
            } else {
                None
            }
        },
        _ => None,
    }
}

/// The country code and name of a location.
pub open spec fn location_view(l: Option<GeoLocation>) -> Option<(Seq<char>, Seq<char>)> {
    match l {
        Some(l) => Some((l.country_code@, l.country_name@)),
        None => None,
    }
}

/// The location that an answer gives.
pub fn parse_location(response: GeoIpResponse) -> (r: Option<GeoLocation>)
    ensures
        location_view(r) == location_of(response),
{
    let code = match response.country_code {
        Some(s) => s,
        None => {
            return None;
        },
    };
    let name = match response.country_name {
        Some(s) => s,
        None => {
            return None;
        },
    };
    let country_code = text::to_upper(text::trim(code.as_str()));
    let country_name = text::trim(name.as_str()).to_owned();
    let chars = text::chars_of(country_code.as_str());
    if chars.len() != 2 || !('A' <= chars[0] && chars[0] <= 'Z' && 'A' <= chars[1] && chars[1]
        <= 'Z') || country_name.as_str().unicode_len() == 0 {
        return None;
    }
    Some(GeoLocation { country_code, country_name })
}

impl GeoIpResolver {
    pub open spec fn wf(self) -> bool {
        self.cache.wf()
    }

    pub open spec fn view(&self) -> GeoView {
        GeoView { endpoint: self.endpoint@, enabled: self.enabled, cache: self.cache@ }
    }

    /// A service that was not asked yet. The endpoint `off` turns it off.
    pub fn new(endpoint: String) -> (r: Self)
        ensures
            r.wf(),
            r@ == (GeoView {
                endpoint: endpoint@,
                enabled: text::lower(text::trimmed(endpoint@)) != "off"@,
                cache: Map::empty(),
            }),
    {
        let enabled: bool = !text::same(
            text::to_lower(text::trim(endpoint.as_str())).as_str(),
            "off",
        );
        GeoIpResolver { endpoint, enabled, cache: Registry::new() }
    }

    /// What there is to do about an address.
    pub fn lookup(&mut self, ip: IpAddr, now: u128) -> (r: Lookup)
        requires
            old(self).wf(),
        ensures
            final(self).wf(),
            (final(self)@, r@) == geo_lookup(old(self)@, ip, now),
    {
        if !self.enabled {
            return Lookup::Known(None);
        }
        let ip = normalize_ip(ip);
        if !is_public_candidate(ip) {
            return Lookup::Known(None);
        }
        let key: u128 = key_of(ip);
        if let Some(cached) = self.cache.get(&key) {
            if cached.expires_at > now {
                return Lookup::Known(copy_location(&cached.location));
            }
        }
        let ghost before = self.cache@;
        self.cache.remove(&key);
        assert(self.cache@ =~= before.remove(key));
        Lookup::Fetch(endpoint_for(self.endpoint.as_str(), ip))
    }

    /// Remembers the answer of the service about an address: a location for a day, that there was
    /// none for ten minutes. An answer is absent where the service failed or was not understood.
    pub fn finish(&mut self, ip: IpAddr, response: Option<GeoIpResponse>, now: u128) -> (r: Option<
        GeoLocation,
    >)
        requires
            old(self).wf(),
            instant_after(now, DEFAULT_CACHE_TTL) <= u128::MAX,
        ensures
            final(self).wf(),
            final(self)@ == geo_finish(old(self)@, ip, r, now),
            location_view(r) == (match response {
                Some(response) => location_of(response),
                None => None,
            }),
    {
        let location = match response {
            Some(response) => parse_location(response),
            None => None,
        };
        let ttl: u64 = if location.is_some() {
            DEFAULT_CACHE_TTL
        } else {
            NEGATIVE_CACHE_TTL
        };
        let key: u128 = key_of(normalize_ip(ip));
        self.cache.insert(
            key,
            CachedLocation { location: copy_location(&location), expires_at: after(now, ttl) },
        );
        location
    }
}

/// What `GeoIpResolver::lookup` leaves and answers.
pub open spec fn geo_lookup(g: GeoView, ip: IpAddr, now: u128) -> (GeoView, LookupView) {
    let key = ip_key(unmapped(ip));
    if !g.enabled || !public_candidate(unmapped(ip)) {
        (g, LookupView::Known(None))
    } else if g.cache.contains_key(key) && g.cache[key].expires_at > now {
        (g, LookupView::Known(g.cache[key].location))
    } else {
        (
            GeoView { cache: g.cache.remove(key), ..g },
            LookupView::Fetch(endpoint_text(g.endpoint, unmapped(ip))),
        )
    }
}

/// The seconds for which an answer is remembered.
pub open spec fn cache_ttl(location: Option<GeoLocation>) -> u64 {
    if location is Some {
        DEFAULT_CACHE_TTL
    } else {
        NEGATIVE_CACHE_TTL
    }
}

/// What `GeoIpResolver::finish` leaves.
pub open spec fn geo_finish(
    g: GeoView,
    ip: IpAddr,
    location: Option<GeoLocation>,
    now: u128,
) -> GeoView {
    GeoView {
        cache: g.cache.insert(
            ip_key(unmapped(ip)),
            CachedLocation {
                location,
                expires_at: instant_after(now, cache_ttl(location)) as u128,
            },
        ),
        ..g
    }
}

/// No service is ever asked about an address that cannot be public, in whatever form it comes.
pub proof fn law_private_addresses_stay_inside(g: GeoView, ip: IpAddr, now: u128)
    requires
        !public_candidate(unmapped(ip)),
    ensures
        geo_lookup(g, ip, now) == (g, LookupView::Known(None)),
{
}

/// What the service answered is what a lookup of the same address gives until it expires, and
/// what is known of every other address stays.
pub proof fn law_answers_are_remembered(
    g: GeoView,
    ip: IpAddr,
    other: IpAddr,
    location: Option<GeoLocation>,
    now: u128,
    later: u128,
)
    requires
        g.enabled,
        public_candidate(unmapped(ip)),
        later < instant_after(now, cache_ttl(location)) <= u128::MAX,
    ensures
        geo_lookup(geo_finish(g, ip, location, now), ip, later).1 == LookupView::Known(location),
        unmapped(other) != unmapped(ip) ==> geo_lookup(
            geo_finish(g, ip, location, now),
            other,
            later,
        ).1 == geo_lookup(g, other, later).1,
{
    law_ip_key(unmapped(ip), unmapped(other));
    net::law_unmapped(ip, 0);
    net::law_unmapped(other, 0);
}

/// The two forms of an IPv4 address are looked up alike.
pub proof fn law_mapped_addresses_are_one(g: GeoView, v4: u32, now: u128)
    ensures
        geo_lookup(g, IpAddr::V6((0xffff_0000_0000 + v4) as u128), now) == geo_lookup(
            g,
            IpAddr::V4(v4),
            now,
        ),
{
    net::law_unmapped(IpAddr::V4(v4), v4);
}

/// The addresses of which the location is asked for: of IPv4 all but 0.0.0.0/8, 10.0.0.0/8,
/// 127.0.0.0/8, 169.254.0.0/16, 172.16.0.0/12, 192.168.0.0/16 and those from 224.0.0.0 on; of IPv6
/// all but `::`, `::1`, `fc00::/7`, `fe80::/10` and `ff00::/8`.
pub proof fn law_public_addresses(v4: u32, v6: u128)
    ensures
        public_candidate(IpAddr::V4(v4)) <==> !(v4 <= 0x00ff_ffff || 0x0a00_0000 <= v4
            <= 0x0aff_ffff || 0x7f00_0000 <= v4 <= 0x7fff_ffff || 0xa9fe_0000 <= v4 <= 0xa9fe_ffff
            || 0xac10_0000 <= v4 <= 0xac1f_ffff || 0xc0a8_0000 <= v4 <= 0xc0a8_ffff || v4
            >= 0xe000_0000),
        public_candidate(IpAddr::V6(v6)) <==> !(v6 == 0 || v6 == 1 || (
        0xfc00_0000_0000_0000_0000_0000_0000_0000 <= v6
            <= 0xfdff_ffff_ffff_ffff_ffff_ffff_ffff_ffff) || (
        0xfe80_0000_0000_0000_0000_0000_0000_0000 <= v6
            <= 0xfebf_ffff_ffff_ffff_ffff_ffff_ffff_ffff) || v6
            >= 0xff00_0000_0000_0000_0000_0000_0000_0000),
{
}

/// An answer gives a location where it names a country and its code of two letters, without white
/// space around them; the code is in upper case. Nothing else does.
pub proof fn law_locations(response: GeoIpResponse)
    ensures
        location_of(response) matches Some((code, name)) ==> {
            &&& response.country_code is Some && response.country_name is Some
            &&& code.len() == 2 && 'A' <= code[0] <= 'Z' && 'A' <= code[1] <= 'Z'
            &&& code == text::upper(text::trimmed(response.country_code->0@))
            &&& name == text::trimmed(response.country_name->0@) && name.len() > 0
        },
        location_of(response) is None ==> response.country_code is None
            || response.country_name is None || text::trimmed(
            response.country_name->0@,
        ).len() == 0 || !country_code_ok(text::upper(text::trimmed(response.country_code->0@))),
{
}

/// A code is two letters from `A` to `Z`.
pub proof fn law_country_codes(a: char, b: char, c: Seq<char>)
    ensures
        country_code_ok(seq![a, b]) <==> 'A' <= a && a <= 'Z' && 'A' <= b && b <= 'Z',
        c.len() != 2 ==> !country_code_ok(c),
{
}

/// A service is asked for an address that is public and not remembered, at the place that it names or
/// behind its path; what is remembered is told while it lasts: a day for a location, ten minutes where
/// there is none.
pub proof fn law_services_are_asked(g: GeoView, ip: IpAddr, now: u128, location: Option<GeoLocation>)
    ensures
        ({
            let key = ip_key(unmapped(ip));
            let (h, r) = geo_lookup(g, ip, now);
            let asks = g.enabled && public_candidate(unmapped(ip)) && !(g.cache.contains_key(key)
                && now < g.cache[key].expires_at);
            &&& r is Fetch <==> asks
            &&& r is Fetch ==> r == LookupView::Fetch(endpoint_text(g.endpoint, unmapped(ip)))
            &&& !g.enabled ==> r == LookupView::Known(None) && h == g
            &&& !asks && g.enabled && public_candidate(unmapped(ip)) ==> r == LookupView::Known(
                g.cache[key].location,
            ) && h == g
        }),
        location is Some ==> cache_ttl(location) == 24 * 60 * 60,
        location is None ==> cache_ttl(location) == 10 * 60,
{
}

/// The address stands where the service marks its place, or else behind a slash.
pub proof fn law_addresses_stand_in_the_url(base: Seq<char>, rest: Seq<char>, ip: IpAddr)
    requires
        base.len() > 0,
        base.last() != '/',
    ensures
        !text::holds(base, "{ip}"@) ==> endpoint_text(base, ip) == base + "/"@ + ip_text(ip),
        !text::holds(base.push('/'), "{ip}"@) ==> endpoint_text(base.push('/'), ip) == base + "/"@
            + ip_text(ip),
        endpoint_text("{ip}"@ + rest, ip) == ip_text(ip) + text::replaced(
            rest,
            "{ip}"@,
            ip_text(ip),
        ),
{
    reveal_strlit("{ip}");
    text::law_trailing_characters(base, '/');
    text::law_replacing(rest, "{ip}"@, ip_text(ip));
}

} // verus!
