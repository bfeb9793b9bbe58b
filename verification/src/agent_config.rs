//! The settings of an agent.
use crate::net;
use crate::protocol::{opt_text, TransportMode};
use crate::text;
use crate::tunnels::local_machine;
use vstd::prelude::*;
use vstd::utf8::encode_utf8;

verus! {

/// The name under which an agent keeps its secrets.
pub const KEYCHAIN_SERVICE: &'static str = "dev.tunnelbridge.desktop";

/// The settings of an agent.
#[derive(Debug, Clone, PartialEq, Eq)]
pub struct AgentConfig {
    pub server_url: String,
    pub device_name: String,
    pub installation_id: u128,
    pub transport_mode: TransportMode,
    pub quic_port: u16,
    pub kcp_port: u16,
}

impl AgentConfig {
    /// Settings with the same contents.
    pub fn copied(&self) -> (r: AgentConfig)
        ensures
            r == *self,
    {
        AgentConfig {
            server_url: self.server_url.clone(),
            device_name: self.device_name.clone(),
            installation_id: self.installation_id,
            transport_mode: self.transport_mode,
            quic_port: self.quic_port,
            kcp_port: self.kcp_port,
        }
    }

    /// The settings that a stored record holds. A record from before there were several carriers
    /// has no mode and no ports.
    pub fn from_stored(
        server_url: String,
        device_name: String,
        installation_id: u128,
        transport_mode: Option<TransportMode>,
        quic_port: Option<u16>,
        kcp_port: Option<u16>,
    ) -> (r: AgentConfig)
        ensures
            r == (AgentConfig {
                server_url,
                device_name,
                installation_id,
                transport_mode: transport_mode.unwrap_or(TransportMode::Auto),
                quic_port: quic_port.unwrap_or(443),
                kcp_port: kcp_port.unwrap_or(4000),
            }),
    {
        AgentConfig {
            server_url,
            device_name,
            installation_id,
            transport_mode: transport_mode.unwrap_or(TransportMode::Auto),
            quic_port: quic_port.unwrap_or(default_quic_port()),
            kcp_port: kcp_port.unwrap_or(default_kcp_port()),
        }
    }
}

/// The port of QUIC carriers where none is stored.
pub fn default_quic_port() -> (r: u16)
    ensures
        r == 443,
{
    443
}

/// The port of KCP carriers where none is stored.
pub fn default_kcp_port() -> (r: u16)
    ensures
        r == 4000,
{
    4000
}

/// The parts of a URL: its scheme, its host, its port where that is not the usual one of the scheme,
/// and the whole URL.
#[derive(Debug, Clone, PartialEq, Eq)]
pub struct UrlParts {
    pub scheme: String,
    pub host: Option<String>,
    pub port: Option<u16>,
    pub text: String,
}

/// What a URL consists of.
#[verifier::ext_equal]
pub struct UrlView {
    pub scheme: Seq<char>,
    pub host: Option<Seq<char>>,
    pub port: Option<u16>,
    pub text: Seq<char>,
}

impl View for UrlParts {
    type V = UrlView;

    open spec fn view(&self) -> UrlView {
        UrlView {
            scheme: self.scheme@,
            host: opt_text(self.host),
            port: self.port,
            text: self.text@,
        }
    }
}

/// The scheme, the host, the port and the whole of the URL that a text names, or what is wrong with
/// the text.
pub uninterp spec fn url_parts(text: Seq<char>) -> Result<
    (Seq<char>, Option<Seq<char>>, Option<u16>, Seq<char>),
    Seq<char>,
>;

/// The URL that a text names, with another path, query and fragment.
pub uninterp spec fn url_rewritten(
    text: Seq<char>,
    path: Seq<char>,
    query: Option<Seq<char>>,
    fragment: Option<Seq<char>>,
) -> Option<Seq<char>>;

/// The parts of the URL that a text names, or what is wrong with the text.
pub open spec fn url_view(text: Seq<char>) -> Result<UrlView, Seq<char>> {
    match url_parts(text) {
        Ok((scheme, host, port, text)) => Ok(UrlView { scheme, host, port, text }),
        Err(e) => Err(e),
    }
}

/// A text that may be absent.
pub open spec fn opt_str(s: Option<&str>) -> Option<Seq<char>> {
    match s {
        Some(s) => Some(s@),
        None => None,
    }
}

/// Whether these are the parts.
pub open spec fn is_url(r: Result<UrlParts, String>, spec: Result<UrlView, Seq<char>>) -> bool {
    match spec {
        Ok(url) => r matches Ok(parts) && parts@ == url,
        Err(e) => r matches Err(t) && t@ == e,
    }
}

/// `url::Url::parse`, and of the URL `scheme`, `host_str`, `port` and `as_str`: the named parts, or
/// the text of the error.
#[verifier::external_body]
pub(crate) fn read_url(text: &str) -> (r: Result<UrlParts, String>)
    ensures
        is_url(r, url_view(text@)),
{
    match url::Url::parse(text) {
        Ok(url) => Ok(
            UrlParts {
                scheme: url.scheme().to_owned(),
                host: url.host_str().map(|host| host.to_owned()),
                port: url.port(),
                text: url.as_str().to_owned(),
            },
        ),
        Err(error) => Err(error.to_string()),
    }
}

/// The characters in which a URL names who asks and whom: visible ASCII, and none of those that end
/// the part.
pub open spec fn is_authority(s: Seq<char>) -> bool {
    &&& s.len() > 0
    &&& forall|i: int|
        0 <= i < s.len() ==> '!' <= #[trigger] s[i] <= '~' && s[i] != '/' && s[i] != '?' && s[i]
            != '#'
}

/// How a URL writes its port.
pub open spec fn port_text(port: Option<u16>) -> Seq<char> {
    match port {
        Some(port) => seq![':'] + text::decimal(port as nat),
        None => Seq::empty(),
    }
}

/// Whether a text is a URL of these parts without path, query and fragment, up to a last slash.
pub open spec fn is_bare(
    url: Seq<char>,
    scheme: Seq<char>,
    host: Option<Seq<char>>,
    port: Option<u16>,
) -> bool {
    exists|authority: Seq<char>|
        {
            &&& is_authority(authority)
            &&& host matches Some(host) && text::has_suffix(authority, host + port_text(port))
            &&& #[trigger] (scheme + "://"@ + authority) == url
        }
}

/// Whether a scheme is one of the Web.
pub open spec fn web_scheme(scheme: Seq<char>) -> bool {
    scheme == "https"@ || scheme == "http"@
}

/// Where the last part of a URL begins: its fragment, or else its query; its end where it has
/// neither. That is counted in bytes.
pub open spec fn last_mark(url: Seq<char>) -> nat {
    if text::first_at(url, '#') < url.len() {
        encode_utf8(text::before(url, '#')).len()
    } else {
        encode_utf8(text::before(url, '?')).len()
    }
}

/// Whether the parts of a URL can begin so many bytes later: they lie within four gigabytes.
pub open spec fn has_room(url: Seq<char>, more: nat) -> bool {
    last_mark(url) + more <= u32::MAX
}

/// How many bytes a path may add to a URL: three for each of its own, and a slash.
pub open spec fn path_growth(path: Seq<char>) -> nat {
    if path.len() == 0 {
        0
    } else {
        3 * encode_utf8(path).len() + 1
    }
}

/// How many bytes a query or a fragment may add to a URL: three for each of its own, and its mark.
pub open spec fn part_growth(part: Option<Seq<char>>) -> nat {
    match part {
        Some(part) => 3 * encode_utf8(part).len() + 1,
        None => 0,
    }
}

/// `url::Url::parse`, then `set_path`, `set_query` and `set_fragment`, and of the URL `as_str`: the
/// URL that the text names with the path, the query and the fragment put in place of its own, where
/// the text is a URL.
///
/// Of HTTP and HTTPS URLs more is said, where the path is empty and there is neither query nor
/// fragment. What comes out is the scheme, the host and the port behind `//` and before a slash.
/// Without the slash it reads as a URL of the same parts, and as the same URL when it is emptied
/// again. It is no longer than what was there before its query and its fragment.
///
/// The setters fail where a part of the URL would begin past four gigabytes, which is ruled out.
#[verifier::external_body]
pub(crate) fn rewrite_url(
    text: &str,
    path: &str,
    query: Option<&str>,
    fragment: Option<&str>,
) -> (r: Option<String>)
    requires
        url_view(text@) matches Ok(url) ==> has_room(
            url.text,
            path_growth(path@) + part_growth(opt_str(query)) + part_growth(opt_str(fragment)),
        ),
    ensures
        opt_text(r) == url_rewritten(text@, path@, opt_str(query), opt_str(fragment)),
        r is Some <==> url_parts(text@) is Ok,
        r matches Some(url) ==> path@ == ""@ ==> query is None ==> fragment is None ==> (
        url_view(text@) matches Ok(parts) && (web_scheme(parts.scheme) ==> {
            &&& url@.len() > 0 && url@.last() == '/'
            &&& is_bare(url@.drop_last(), parts.scheme, parts.host, parts.port)
            &&& url_view(url@.drop_last()) == Ok::<UrlView, Seq<char>>(
                UrlView { text: url@, ..parts },
            )
            &&& url_rewritten(url@.drop_last(), ""@, None, None) == Some(url@)
            &&& has_room(url@, 0)
        })),
{
    let mut url = url::Url::parse(text).ok()?;
    url.set_path(path);
    url.set_query(query);
    url.set_fragment(fragment);
    Some(url.as_str().to_owned())
}

/// Whether a host is this machine itself.
pub fn is_loopback_host(host: &str) -> (r: bool)
    ensures
        r == local_machine(host@),
{
    text::same(host, "localhost") || match net::parse_ip(host) {
        Some(ip) => ip.is_loopback(),
        None => false,
    }
}

/// What keeps a URL from being the address of a relay.
pub open spec fn url_fault(parts: Result<UrlView, Seq<char>>) -> Option<Seq<char>> {
    match parts {
        Err(_) => Some("服务器地址格式无效"@),
        Ok(url) => if url.scheme != "https"@ && !(url.scheme == "http"@ && (url.host matches Some(
            host,
        ) && local_machine(host))) {
            Some("服务器必须使用 HTTPS；仅本机开发地址允许 HTTP"@)
        } else if url.host is None {
            Some("服务器地址缺少主机名"@)
        } else {
            None
        },
    }
}

/// The address of a relay that the parts of a URL give, with the URL that is left without path,
/// query and fragment; or what is wrong with it.
pub open spec fn server_in(parts: Result<UrlView, Seq<char>>, bare: Option<Seq<char>>) -> Result<
    Seq<char>,
    Seq<char>,
> {
    match (url_fault(parts), bare) {
        (Some(reason), _) => Err(reason),
        (None, Some(bare)) => Ok(text::trim_end_char(bare, '/')),
        (None, None) => Err("服务器地址格式无效"@),
    }
}

/// The address of a relay that a text gives: the URL that it names, with an empty path and without
/// query and fragment, up to its last slashes.
pub open spec fn server_of(value: Seq<char>) -> Result<Seq<char>, Seq<char>> {
    server_in(
        url_view(text::trimmed(value)),
        url_rewritten(text::trimmed(value), ""@, None, None),
    )
}

/// Whether a result is the one that is asked for.
pub open spec fn is_text(r: Result<String, String>, spec: Result<Seq<char>, Seq<char>>) -> bool {
    match spec {
        Ok(s) => r matches Ok(t) && t@ == s,
        Err(e) => r matches Err(t) && t@ == e,
    }
}

/// The parts, by their views.
pub open spec fn parts_view(parts: Result<UrlParts, String>) -> Result<UrlView, Seq<char>> {
    match parts {
        Ok(parts) => Ok(parts@),
        Err(e) => Err(e@),
    }
}

/// What keeps a URL from being the address of a relay.
pub fn check_url(parts: &Result<UrlParts, String>) -> (r: Option<String>)
    ensures
        opt_text(r) == url_fault(parts_view(*parts)),
{
    let url = match parts {
        Ok(url) => url,
        Err(_) => {
            return Some("服务器地址格式无效".to_owned());
        },
    };
    let local: bool = match &url.host {
        Some(host) => is_loopback_host(host.as_str()),
        None => false,
    };
    if !text::same(url.scheme.as_str(), "https") && !(text::same(url.scheme.as_str(), "http")
        && local) {
        return Some("服务器必须使用 HTTPS；仅本机开发地址允许 HTTP".to_owned());
    }
    if url.host.is_none() {
        return Some("服务器地址缺少主机名".to_owned());
    }
    None
}

/// The address of a relay that the parts of a URL give, with the URL that is left without path,
/// query and fragment.
pub fn server_address(parts: Result<UrlParts, String>, bare: Option<String>) -> (r: Result<
    String,
    String,
>)
    ensures
        is_text(r, server_in(parts_view(parts), opt_text(bare))),
{
    match (check_url(&parts), bare) {
        (Some(reason), _) => Err(reason),
        (None, Some(bare)) => Ok(text::trim_end_matches(bare.as_str(), '/').to_owned()),
        (None, None) => Err("服务器地址格式无效".to_owned()),
    }
}

/// Whether the parts of a URL can begin so many bytes later.
pub fn url_fits(url: &str, more: u128) -> (r: bool)
    ensures
        r == has_room(url@, more as nat),
{
    let whole: usize = url.unicode_len();
    let mark: usize = if text::position(url, '#') < whole {
        text::take_before(url, '#').as_bytes().len()
    } else {
        text::take_before(url, '?').as_bytes().len()
    };
    mark as u128 <= 0xffff_ffff && more <= 0xffff_ffff - mark as u128
}

/// Whether an address of a relay is as it is kept: it names the host and the port of the URL that
/// was given, over HTTPS, or over HTTP to this machine itself, and neither path, query nor fragment;
/// and it can be brought into form again, and is its own address.
pub open spec fn kept_address(address: Seq<char>, given: UrlView) -> bool {
    &&& given.scheme == "https"@ || (given.scheme == "http"@ && (given.host matches Some(host)
        && local_machine(host)))
    &&& is_bare(address, given.scheme, given.host, given.port)
    &&& address.last() != '/'
    &&& url_view(address) matches Ok(url) && url.scheme == given.scheme && url.host == given.host
        && url.port == given.port
    &&& server_fits(address)
    &&& server_of(address) == Ok::<Seq<char>, Seq<char>>(address)
}

/// Whether the address of a relay can be brought into form: where it is one, its parts lie within
/// four gigabytes.
pub open spec fn server_fits(value: Seq<char>) -> bool {
    let parts = url_view(text::trimmed(value));
    url_fault(parts) is None ==> has_room(parts->Ok_0.text, 0)
}

/// Whether a result is the address of a relay as it is kept, or what is wrong with it.
pub open spec fn is_server(r: Result<String, String>, value: Seq<char>) -> bool {
    &&& is_text(r, server_of(value))
    &&& r matches Ok(address) ==> (url_view(text::trimmed(value)) matches Ok(given)
        && kept_address(address@, given))
}

/// The address of a relay as it is kept: HTTPS, or HTTP to this machine itself; without path, query
/// and fragment. An address that is kept is kept as it stands.
pub fn normalize_server_url(value: &str) -> (r: Result<String, String>)
    requires
        server_fits(value@),
    ensures
        is_server(r, value@),
{
    proof {
        reveal_strlit("");
    }
    let given = text::trim(value);
    let parts = read_url(given);
    if check_url(&parts).is_some() {
        return server_address(parts, None);
    }
    let bare = rewrite_url(given, "", None, None);
    proof {
        lemma_bare(bare->0@, parts->Ok_0@);
    }
    server_address(parts, bare)
}

/// The address of a relay as it is kept; nothing where the parts of its URL go past four gigabytes.
pub fn normalize_within_bounds(value: &str) -> (r: Option<Result<String, String>>)
    ensures
        r is Some <==> server_fits(value@),
        r matches Some(address) ==> is_server(address, value@),
{
    let parts = read_url(text::trim(value));
    let fault = check_url(&parts);
    let fits: bool = match &parts {
        Ok(url) => fault.is_some() || url_fits(url.text.as_str(), 0),
        Err(_) => true,
    };
    if fits {
        Some(normalize_server_url(value))
    } else {
        None
    }
}

/// What is left of an emptied URL without its slash is an address as it is kept.
proof fn lemma_bare(url: Seq<char>, given: UrlView)
    requires
        url.len() > 0,
        url.last() == '/',
        web_scheme(given.scheme),
        is_bare(url.drop_last(), given.scheme, given.host, given.port),
        url_view(url.drop_last()) == Ok::<UrlView, Seq<char>>(UrlView { text: url, ..given }),
        url_rewritten(url.drop_last(), ""@, None, None) == Some(url),
        has_room(url, 0),
    ensures
        text::trim_end_char(url, '/') == url.drop_last(),
        given.scheme == "https"@ || (given.host matches Some(host) && local_machine(host))
            ==> kept_address(url.drop_last(), given),
{
    let address = url.drop_last();
    let authority = choose|authority: Seq<char>|
        {
            &&& is_authority(authority)
            &&& given.host matches Some(host) && text::has_suffix(
                authority,
                host + port_text(given.port),
            )
            &&& #[trigger] (given.scheme + "://"@ + authority) == address
        };
    reveal_strlit("https");
    reveal_strlit("http");
    reveal_strlit("://");
    assert(address.last() == authority.last());
    assert(authority.last() == authority[authority.len() - 1]);
    assert(address[0] == 'h');
    assert(text::trim_start(address) == address);
    assert(text::trim_end(address) == address);
    reveal_with_fuel(text::trim_end_char, 3);
}

/// An address that is kept can be brought into form again, and comes out as it went in.
pub proof fn law_kept_addresses_stay(
    value: Seq<char>,
    first: Result<String, String>,
    second: Result<String, String>,
)
    requires
        is_server(first, value),
        first is Ok,
        is_server(second, first->Ok_0@),
    ensures
        server_fits(first->Ok_0@),
        second matches Ok(again) && again@ == first->Ok_0@,
{
}

/// Outside of this machine a relay is reached over HTTPS alone: the address that is kept says so.
pub proof fn law_relays_use_https(address: Seq<char>, given: UrlView)
    requires
        kept_address(address, given),
        !(given.host matches Some(host) && local_machine(host)),
    ensures
        text::has_prefix(address, "https://"@),
{
    reveal_strlit("https");
    reveal_strlit("://");
    reveal_strlit("https://");
    assert(address.take(8) =~= "https://"@);
}

/// The address that is kept has neither path, query nor fragment: past the two slashes of its
/// scheme no character stands that would begin one.
pub proof fn law_addresses_are_bare(address: Seq<char>, given: UrlView)
    requires
        kept_address(address, given),
    ensures
        forall|i: int|
            given.scheme.len() + 3 <= i < address.len() ==> #[trigger] address[i] != '/'
                && address[i] != '?' && address[i] != '#',
{
    reveal_strlit("://");
    let authority = choose|authority: Seq<char>|
        {
            &&& is_authority(authority)
            &&& given.host matches Some(host) && text::has_suffix(
                authority,
                host + port_text(given.port),
            )
            &&& #[trigger] (given.scheme + "://"@ + authority) == address
        };
    assert forall|i: int| given.scheme.len() + 3 <= i < address.len() implies #[trigger] address[i]
        != '/' && address[i] != '?' && address[i] != '#' by {
        assert(address[i] == authority[i - given.scheme.len() - 3]);
    }
}

/// The account under which the token of an installation is kept.
pub fn token_account(installation_id: u128) -> (r: String)
    ensures
        r@ == crate::ids::id_text(installation_id),
{
    crate::ids::write_id(installation_id)
}

/// The account under which the digest of the relay's certificate is kept.
pub fn fingerprint_account(installation_id: u128) -> (r: String)
    ensures
        r@ == crate::ids::id_text(installation_id) + ":transport-fingerprint"@,
{
    text::join(crate::ids::write_id(installation_id).as_str(), ":transport-fingerprint")
}

/// The account under which the relay's certificate is kept.
pub fn certificate_account(installation_id: u128) -> (r: String)
    ensures
        r@ == crate::ids::id_text(installation_id) + ":transport-certificate"@,
{
    text::join(crate::ids::write_id(installation_id).as_str(), ":transport-certificate")
}

/// The accounts of an installation: of its token, of the digest and of the certificate.
pub open spec fn accounts(id: u128) -> Seq<Seq<char>> {
    let base = crate::ids::id_text(id);
    seq![base, base + ":transport-fingerprint"@, base + ":transport-certificate"@]
}

/// Secrets are kept apart: the three accounts of an installation differ, and no two installations
/// have an account in common.
pub proof fn law_accounts_differ(a: u128, b: u128, i: int, j: int)
    requires
        0 <= i < 3,
        0 <= j < 3,
        accounts(a)[i] == accounts(b)[j],
    ensures
        a == b,
        i == j,
{
    reveal_strlit(":transport-fingerprint");
    reveal_strlit(":transport-certificate");
    let (x, y) = (accounts(a)[i], accounts(b)[j]);
    assert(x.take(36) =~= crate::ids::id_text(a));
    assert(y.take(36) =~= crate::ids::id_text(b));
    crate::ids::law_id_texts_differ(a, b);
    if i != j {
        let (f, c) = (accounts(a)[1], accounts(a)[2]);
        assert(f[47] == ":transport-fingerprint"@[11]);
        assert(c[47] == ":transport-certificate"@[11]);
        assert(accounts(a)[0].len() == 36);
        assert(f.len() == 58);
        assert(c.len() == 58);
    }
}

/// Only HTTPS addresses, and HTTP addresses of this machine, are those of a relay; what keeps an address
/// from being one is told.
pub proof fn law_unfit_addresses_are_told(url: UrlView, error: Seq<char>, bare: Seq<char>)
    ensures
        url_fault(Err(error)) == Some("服务器地址格式无效"@),
        url.scheme == "https"@ && url.host is Some ==> url_fault(Ok(url)) is None,
        url.scheme == "https"@ && url.host is None ==> url_fault(Ok(url)) == Some(
            "服务器地址缺少主机名"@,
        ),
        url.scheme == "http"@ ==> (url.host matches Some(host) ==> (url_fault(Ok(url)) is None
            <==> local_machine(host))),
        url.scheme != "https"@ && url.scheme != "http"@ ==> url_fault(Ok(url)) == Some(
            "服务器必须使用 HTTPS；仅本机开发地址允许 HTTP"@,
        ),
        url_fault(Ok(url)) matches Some(why) ==> server_in(Ok(url), Some(bare)) == Err::<
            Seq<char>,
            Seq<char>,
        >(why),
        url_fault(Ok(url)) is None ==> server_in(Ok(url), Some(bare)) == Ok::<Seq<char>, Seq<char>>(
            text::trim_end_char(bare, '/'),
        ),
        server_in(Err(error), Some(bare)) is Err,
        url_fault(Ok(url)) is None ==> server_in(Ok(url), None) == Err::<Seq<char>, Seq<char>>(
            "服务器地址格式无效"@,
        ),
{
    reveal_strlit("http");
    reveal_strlit("https");
    assert("http"@.len() != "https"@.len());
}

} // verus!
