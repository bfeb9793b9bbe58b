//! Tunnels: who may use them, their rules, and how they change.
use crate::config::Config;
use crate::error::{bad, bad_request, clash, fault, AppError};
use crate::ids::new_id;
use crate::net::{self, all_valid, any_contains, any_covers, normalize_ip, unmapped, IpAddr};
use crate::protocol::{
    opt_text, AccessMode, CreateTunnelRequest, LocalScheme, Timestamp, Tunnel, TunnelKind,
    TunnelStatus, TunnelView, UpdateTunnelRequest,
};
use crate::rows::{
    get, gives_back, row_fault, row_place, shows, tunnel_of, tunnel_row, written_over, TunnelRow,
};
use crate::text;
use vstd::prelude::*;
use vstd::utf8::encode_utf8;

verus! {

// Who may use a tunnel.
/// Whether a tunnel may be used from an address.
pub open spec fn admits(t: TunnelView, ip: IpAddr) -> bool {
    t.access_mode == AccessMode::Public || any_covers(t.allowed_cidrs, unmapped(ip))
}

/// Whether a tunnel may be used from an address.
pub fn source_allowed(tunnel: &Tunnel, address: IpAddr) -> (r: bool)
    requires
        all_valid(tunnel.allowed_cidrs@),
    ensures
        r == admits(tunnel@, address),
{
    let address = normalize_ip(address);
    match tunnel.access_mode {
        AccessMode::Public => true,
        AccessMode::Allowlist => any_contains(&tunnel.allowed_cidrs, address),
    }
}

/// An IPv4 address is admitted alike in its own form and mapped into IPv6.
pub proof fn law_mapped_sources_are_admitted_alike(t: TunnelView, v4: u32)
    ensures
        admits(t, IpAddr::V6((0xffff_0000_0000 + v4) as u128)) == admits(t, IpAddr::V4(v4)),
{
    net::law_unmapped(IpAddr::V4(v4), v4);
}

/// A public tunnel admits every source; one with an empty list admits none.
pub proof fn law_public_and_empty_lists(t: TunnelView, ip: IpAddr)
    ensures
        t.access_mode == AccessMode::Public ==> admits(t, ip),
        t.access_mode == AccessMode::Allowlist && t.allowed_cidrs.len() == 0 ==> !admits(t, ip),
{
}

// The names in the table.
pub open spec fn access_text(mode: AccessMode) -> Seq<char> {
    match mode {
        AccessMode::Allowlist => "allowlist"@,
        AccessMode::Public => "public"@,
    }
}

pub open spec fn kind_text(kind: TunnelKind) -> Seq<char> {
    match kind {
        TunnelKind::Tcp => "tcp"@,
        TunnelKind::Udp => "udp"@,
        TunnelKind::Web => "web"@,
    }
}

pub open spec fn scheme_text(scheme: LocalScheme) -> Seq<char> {
    match scheme {
        LocalScheme::Tcp => "tcp"@,
        LocalScheme::Udp => "udp"@,
        LocalScheme::Http => "http"@,
        LocalScheme::Https => "https"@,
    }
}

/// The mode, the kind and the scheme that a text names.
pub open spec fn access_value(s: Seq<char>) -> Option<AccessMode> {
    if s == "allowlist"@ {
        Some(AccessMode::Allowlist)
    } else if s == "public"@ {
        Some(AccessMode::Public)
    } else {
        None
    }
}

pub open spec fn kind_value(s: Seq<char>) -> Option<TunnelKind> {
    if s == "tcp"@ {
        Some(TunnelKind::Tcp)
    } else if s == "udp"@ {
        Some(TunnelKind::Udp)
    } else if s == "web"@ {
        Some(TunnelKind::Web)
    } else {
        None
    }
}

pub open spec fn scheme_value(s: Seq<char>) -> Option<LocalScheme> {
    if s == "tcp"@ {
        Some(LocalScheme::Tcp)
    } else if s == "udp"@ {
        Some(LocalScheme::Udp)
    } else if s == "http"@ {
        Some(LocalScheme::Http)
    } else if s == "https"@ {
        Some(LocalScheme::Https)
    } else {
        None
    }
}

pub fn access_mode_str(mode: AccessMode) -> (r: &'static str)
    ensures
        r@ == access_text(mode),
{
    match mode {
        AccessMode::Allowlist => "allowlist",
        AccessMode::Public => "public",
    }
}

pub fn kind_str(kind: TunnelKind) -> (r: &'static str)
    ensures
        r@ == kind_text(kind),
{
    match kind {
        TunnelKind::Tcp => "tcp",
        TunnelKind::Udp => "udp",
        TunnelKind::Web => "web",
    }
}

pub fn scheme_str(scheme: LocalScheme) -> (r: &'static str)
    ensures
        r@ == scheme_text(scheme),
{
    match scheme {
        LocalScheme::Tcp => "tcp",
        LocalScheme::Udp => "udp",
        LocalScheme::Http => "http",
        LocalScheme::Https => "https",
    }
}

/// The mode that a stored text names.
pub fn parse_access(value: &str) -> (r: Result<AccessMode, AppError>)
    ensures
        match access_value(value@) {
            Some(mode) => r == Ok::<AccessMode, AppError>(mode),
            None => r matches Err(e) && fault(e, "invalid access mode in database"@),
        },
{
    if text::same(value, "allowlist") {
        Ok(AccessMode::Allowlist)
    } else if text::same(value, "public") {
        Ok(AccessMode::Public)
    } else {
        Err(AppError::Internal("invalid access mode in database".to_owned()))
    }
}

/// The kind that a stored text names.
pub fn parse_kind(value: &str) -> (r: Result<TunnelKind, AppError>)
    ensures
        match kind_value(value@) {
            Some(kind) => r == Ok::<TunnelKind, AppError>(kind),
            None => r matches Err(e) && fault(e, "invalid tunnel kind"@),
        },
{
    if text::same(value, "tcp") {
        Ok(TunnelKind::Tcp)
    } else if text::same(value, "udp") {
        Ok(TunnelKind::Udp)
    } else if text::same(value, "web") {
        Ok(TunnelKind::Web)
    } else {
        Err(AppError::Internal("invalid tunnel kind".to_owned()))
    }
}

/// The scheme that a stored text names.
pub fn parse_scheme(value: &str) -> (r: Result<LocalScheme, AppError>)
    ensures
        match scheme_value(value@) {
            Some(scheme) => r == Ok::<LocalScheme, AppError>(scheme),
            None => r matches Err(e) && fault(e, "invalid local scheme"@),
        },
{
    if text::same(value, "tcp") {
        Ok(LocalScheme::Tcp)
    } else if text::same(value, "udp") {
        Ok(LocalScheme::Udp)
    } else if text::same(value, "http") {
        Ok(LocalScheme::Http)
    } else if text::same(value, "https") {
        Ok(LocalScheme::Https)
    } else {
        Err(AppError::Internal("invalid local scheme".to_owned()))
    }
}

/// What is stored of a mode, a kind or a scheme names it.
pub proof fn law_stored_names(mode: AccessMode, kind: TunnelKind, scheme: LocalScheme)
    ensures
        access_value(access_text(mode)) == Some(mode),
        kind_value(kind_text(kind)) == Some(kind),
        scheme_value(scheme_text(scheme)) == Some(scheme),
{
    reveal_strlit("allowlist");
    reveal_strlit("public");
    reveal_strlit("tcp");
    reveal_strlit("udp");
    reveal_strlit("web");
    reveal_strlit("http");
    reveal_strlit("https");
    assert("allowlist"@.len() != "public"@.len());
    assert("tcp"@[0] != "udp"@[0]);
    assert("tcp"@[0] != "web"@[0]);
    assert("udp"@[0] != "web"@[0]);
    assert("tcp"@.len() != "http"@.len());
    assert("udp"@.len() != "http"@.len());
    assert("tcp"@.len() != "https"@.len());
    assert("udp"@.len() != "https"@.len());
    assert("http"@.len() != "https"@.len());
}

// The rules.
/// Whether a target of a scheme suits a tunnel of a kind.
pub open spec fn kind_scheme_ok(kind: TunnelKind, scheme: LocalScheme) -> bool {
    match kind {
        TunnelKind::Tcp => scheme == LocalScheme::Tcp,
        TunnelKind::Udp => scheme == LocalScheme::Udp,
        TunnelKind::Web => scheme == LocalScheme::Http || scheme == LocalScheme::Https,
    }
}

/// Whether a text holds white space.
pub open spec fn has_white(s: Seq<char>) -> bool {
    exists|i: int| 0 <= i < s.len() && text::is_white(#[trigger] s[i])
}

/// Whether a host is this machine itself.
pub open spec fn local_machine(host: Seq<char>) -> bool {
    host == "localhost"@ || (net::ip_value(host) matches Some(ip) && ip.loopback())
}

/// What is wrong with the host of a target.
pub open spec fn host_fault(host: Seq<char>, allow_lan: bool) -> Option<Seq<char>> {
    let h = text::trimmed(host);
    if h.len() == 0 || encode_utf8(h).len() > 253 || has_white(h) {
        Some("invalid local host"@)
    } else if !local_machine(h) && !allow_lan {
        Some("non-loopback targets require allow_lan_target confirmation"@)
    } else {
        None
    }
}

/// What is wrong with a public port.
pub open spec fn port_fault(config: Config, port: u16) -> Option<Seq<char>> {
    if config.port_start <= port <= config.port_end {
        None
    } else {
        Some(
            "remote port must be within "@ + text::decimal(config.port_start as nat) + "..="@
                + text::decimal(config.port_end as nat),
        )
    }
}

/// Whether a character may stand in a label.
pub open spec fn label_char(c: char) -> bool {
    ('a' <= c <= 'z') || ('0' <= c <= '9') || c == '-'
}

/// Whether a text is a DNS label: up to 63 letters, digits and hyphens, with no hyphen at an end.
pub open spec fn label_ok(s: Seq<char>) -> bool {
    &&& 1 <= s.len() <= 63
    &&& s[0] != '-'
    &&& s.last() != '-'
    &&& forall|i: int| 0 <= i < s.len() ==> label_char(#[trigger] s[i])
}

/// A host name without white space round it and dots behind it, in lower case.
pub open spec fn canonical_host(value: Seq<char>) -> Seq<char> {
    text::lower(text::trim_end_char(text::trimmed(value), '.'))
}

/// The label that a host name under a domain starts with, or the whole name.
pub open spec fn slug_of(host: Seq<char>, base: Seq<char>) -> Seq<char> {
    if text::has_suffix(host, "."@ + base) {
        host.take(host.len() - base.len() - 1)
    } else {
        host
    }
}

/// The full host name that a name stands for, where it is a label or a label under the domain.
pub open spec fn hostname_of(base: Seq<char>, value: Seq<char>) -> Option<Seq<char>> {
    let slug = slug_of(canonical_host(value), base);
    if label_ok(slug) {
        Some(slug + "."@ + base)
    } else {
        None
    }
}

/// Checks a target's scheme.
pub fn validate_kind_scheme(kind: TunnelKind, scheme: LocalScheme) -> (r: Result<(), AppError>)
    ensures
        r is Ok <==> kind_scheme_ok(kind, scheme),
        r matches Err(e) ==> bad(e, "local scheme is incompatible with tunnel kind"@),
{
    let valid: bool = match kind {
        TunnelKind::Tcp => scheme == LocalScheme::Tcp,
        TunnelKind::Udp => scheme == LocalScheme::Udp,
        TunnelKind::Web => scheme == LocalScheme::Http || scheme == LocalScheme::Https,
    };
    if valid {
        Ok(())
    } else {
        Err(bad_request("local scheme is incompatible with tunnel kind"))
    }
}

/// Whether a text holds white space.
fn holds_white(s: &str) -> (r: bool)
    ensures
        r == has_white(s@),
{
    let chars = text::chars_of(s);
    let mut i: usize = 0;
    while i < chars.len()
        invariant
            i <= chars@.len(),
            chars@ == s@,
            forall|k: int| 0 <= k < i ==> !text::is_white(#[trigger] s@[k]),
        decreases chars@.len() - i,
    {
        if text::white(chars[i]) {
            assert(text::is_white(s@[i as int]));
            return true;
        }
        i += 1;
    }
    false
}

/// Checks the host of a target.
pub fn validate_local_host(host: &str, allow_lan: bool) -> (r: Result<(), AppError>)
    ensures
        r is Ok <==> host_fault(host@, allow_lan) is None,
        r matches Err(e) ==> bad(e, host_fault(host@, allow_lan)->0),
{
    let host = text::trim(host);
    if host.unicode_len() == 0 || host.as_bytes().len() > 253 || holds_white(host) {
        return Err(bad_request("invalid local host"));
    }
    let is_loopback: bool = text::same(host, "localhost") || match net::parse_ip(host) {
        Some(ip) => ip.is_loopback(),
        None => false,
    };
    if !is_loopback && !allow_lan {
        return Err(bad_request("non-loopback targets require allow_lan_target confirmation"));
    }
    Ok(())
}

/// Checks a public port.
pub fn validate_remote_port(config: &Config, port: u16) -> (r: Result<(), AppError>)
    ensures
        r is Ok <==> port_fault(*config, port) is None,
        r matches Err(e) ==> bad(e, port_fault(*config, port)->0),
{
    if config.port_start <= port && port <= config.port_end {
        Ok(())
    } else {
        let mut message: String = "remote port must be within ".to_owned();
        message.append(text::decimal_text(config.port_start as u64).as_str());
        message.append("..=");
        message.append(text::decimal_text(config.port_end as u64).as_str());
        Err(AppError::BadRequest(message))
    }
}

/// Whether a text is a DNS label.
fn is_label(s: &str) -> (r: bool)
    ensures
        r == label_ok(s@),
{
    let chars = text::chars_of(s);
    let n: usize = chars.len();
    if n == 0 || n > 63 || chars[0] == '-' || chars[n - 1] == '-' {
        return false;
    }
    let mut i: usize = 0;
    while i < n
        invariant
            i <= n,
            n == chars@.len(),
            chars@ == s@,
            forall|k: int| 0 <= k < i ==> label_char(#[trigger] s@[k]),
        decreases n - i,
    {
        let c: char = chars[i];
        if !(('a' <= c && c <= 'z') || ('0' <= c && c <= '9') || c == '-') {
            assert(!label_char(s@[i as int]));
            return false;
        }
        i += 1;
    }
    true
}

/// The full host name that a name stands for.
pub fn normalize_hostname(config: &Config, value: &str) -> (r: Result<String, AppError>)
    ensures
        match hostname_of(config.web_base_domain@, value@) {
            Some(host) => r matches Ok(h) && h@ == host,
            None => r matches Err(e) && bad(
                e,
                "hostname must be a DNS label containing letters, digits, or hyphens"@,
            ),
        },
{
    let host = text::to_lower(text::trim_end_matches(text::trim(value), '.'));
    let domain = text::join(".", config.web_base_domain.as_str());
    proof {
        reveal_strlit(".");
    }
    let slug = match text::strip_suffix(host.as_str(), domain.as_str()) {
        Some(slug) => slug,
        None => host.as_str(),
    };
    assert(slug@ == slug_of(canonical_host(value@), config.web_base_domain@));
    if !is_label(slug) {
        return Err(
            bad_request("hostname must be a DNS label containing letters, digits, or hyphens"),
        );
    }
    let mut out: String = slug.to_owned();
    out.append(".");
    out.append(config.web_base_domain.as_str());
    Ok(out)
}

proof fn lemma_trim_is_idle(s: Seq<char>)
    requires
        s.len() > 0,
        !text::is_white(s[0]),
        !text::is_white(s.last()),
    ensures
        text::trimmed(s) == s,
{
}

/// A host name that was normalised stands for itself, under every domain that is in lower case and
/// does not end in a dot or white space.
pub proof fn law_hostnames_are_normal(base: Seq<char>, value: Seq<char>)
    requires
        base.len() > 0,
        text::lower(base) == base,
        base.last() != '.',
        !text::is_white(base.last()),
        hostname_of(base, value) is Some,
    ensures
        hostname_of(base, hostname_of(base, value)->0) == hostname_of(base, value),
{
    let slug = slug_of(canonical_host(value), base);
    let host = slug + "."@ + base;
    reveal_strlit(".");
    assert(host[0] == slug[0]);
    assert(label_char(slug[0]));
    assert(host.last() == base.last());
    lemma_trim_is_idle(host);
    assert(text::trim_end_char(host, '.') == host);
    assert(text::lower(host) =~= host) by {
        assert forall|i: int| 0 <= i < host.len() implies text::ascii_lower(host[i])
            == host[i] by {
            if i < slug.len() {
                assert(host[i] == slug[i]);
                assert(label_char(slug[i]));
            } else if i > slug.len() {
                let j = i - slug.len() - 1;
                assert(host[i] == base[j]);
                assert(text::lower(base)[j] == text::ascii_lower(base[j]));
            }
        }
    }
    assert(canonical_host(host) == host);
    let domain = "."@ + base;
    assert(host.skip(host.len() - domain.len()) =~= domain);
    assert(host.take(host.len() - base.len() - 1) =~= slug);
}

/// A normalised host name is one label under the domain.
pub proof fn law_hostnames_lie_under_the_domain(base: Seq<char>, value: Seq<char>)
    requires
        hostname_of(base, value) is Some,
    ensures
        text::has_suffix(hostname_of(base, value)->0, "."@ + base),
        label_ok(
            hostname_of(base, value)->0.take(
                hostname_of(base, value)->0.len() - base.len() - 1,
            ),
        ),
{
    let slug = slug_of(canonical_host(value), base);
    let host = slug + "."@ + base;
    reveal_strlit(".");
    let domain = "."@ + base;
    assert(host.skip(host.len() - domain.len()) =~= domain);
    assert(host.take(host.len() - base.len() - 1) =~= slug);
}

/// What is wrong with a tunnel.
pub open spec fn tunnel_fault(t: TunnelView) -> Option<Seq<char>> {
    if t.name.len() == 0 || t.name.len() > 80 {
        Some("name must contain 1 to 80 characters"@)
    } else if t.access_mode == AccessMode::Allowlist && t.allowed_cidrs.len() == 0 {
        Some("allowlist mode requires at least one CIDR"@)
    } else if !kind_scheme_ok(t.kind, t.local_scheme) {
        Some("local scheme is incompatible with tunnel kind"@)
    } else if t.kind != TunnelKind::Web && t.remote_port is None {
        Some("port tunnel requires remote_port"@)
    } else if t.kind == TunnelKind::Web && t.hostname is None {
        Some("web tunnel requires hostname"@)
    } else {
        None
    }
}

/// Checks a tunnel.
pub fn validate_tunnel(tunnel: &Tunnel) -> (r: Result<(), AppError>)
    ensures
        r is Ok <==> tunnel_fault(tunnel@) is None,
        r matches Err(e) ==> bad(e, tunnel_fault(tunnel@)->0),
{
    let count: usize = tunnel.name.as_str().unicode_len();
    if count == 0 || count > 80 {
        return Err(bad_request("name must contain 1 to 80 characters"));
    }
    if tunnel.access_mode == AccessMode::Allowlist && tunnel.allowed_cidrs.len() == 0 {
        return Err(bad_request("allowlist mode requires at least one CIDR"));
    }
    validate_kind_scheme(tunnel.kind, tunnel.local_scheme)?;
    match tunnel.kind {
        TunnelKind::Web => if tunnel.hostname.is_none() {
            return Err(bad_request("web tunnel requires hostname"));
        },
        _ => if tunnel.remote_port.is_none() {
            return Err(bad_request("port tunnel requires remote_port"));
        },
    }
    Ok(())
}

/// The name that a request for a web tunnel asks for.
pub open spec fn asked_name(request: CreateTunnelRequest) -> Seq<char> {
    match request.hostname {
        Some(h) => h@,
        None => request.name@,
    }
}

/// What is wrong with a request for a tunnel.
pub open spec fn create_fault(config: Config, request: CreateTunnelRequest) -> Option<Seq<char>> {
    if text::trimmed(request.name@).len() == 0 || request.name@.len() > 80 {
        Some("name must contain 1 to 80 characters"@)
    } else if request.local_port == 0 {
        Some("local port cannot be zero"@)
    } else if host_fault(request.local_host@, request.allow_lan_target) is Some {
        host_fault(request.local_host@, request.allow_lan_target)
    } else if request.remote_port is Some && port_fault(config, request.remote_port->0) is Some {
        port_fault(config, request.remote_port->0)
    } else if !kind_scheme_ok(request.kind, request.local_scheme) {
        Some("local scheme is incompatible with tunnel kind"@)
    } else if request.kind == TunnelKind::Web && hostname_of(
        config.web_base_domain@,
        asked_name(request),
    ) is None {
        Some("hostname must be a DNS label containing letters, digits, or hyphens"@)
    } else if request.kind != TunnelKind::Web && request.hostname is Some {
        Some("only web tunnels may specify a hostname"@)
    } else if request.access_mode == AccessMode::Allowlist && request.allowed_cidrs@.len() == 0 {
        Some("allowlist mode requires at least one CIDR"@)
    } else {
        None
    }
}

/// The name that a request for a web tunnel asks for.
fn asked<'a>(request: &'a CreateTunnelRequest) -> (r: &'a str)
    ensures
        r@ == asked_name(*request),
{
    match &request.hostname {
        Some(h) => h.as_str(),
        None => request.name.as_str(),
    }
}

/// Checks a request for a tunnel.
pub fn validate_create(config: &Config, request: &CreateTunnelRequest) -> (r: Result<(), AppError>)
    ensures
        r is Ok <==> create_fault(*config, *request) is None,
        r matches Err(e) ==> bad(e, create_fault(*config, *request)->0),
{
    if text::trim(request.name.as_str()).unicode_len() == 0 || request.name.as_str().unicode_len()
        > 80 {
        return Err(bad_request("name must contain 1 to 80 characters"));
    }
    if request.local_port == 0 {
        return Err(bad_request("local port cannot be zero"));
    }
    validate_local_host(request.local_host.as_str(), request.allow_lan_target)?;
    if let Some(port) = request.remote_port {
        validate_remote_port(config, port)?;
    }
    validate_kind_scheme(request.kind, request.local_scheme)?;
    if request.kind == TunnelKind::Web {
        match normalize_hostname(config, asked(request)) {
            Ok(_) => {},
            Err(e) => {
                return Err(e);
            },
        }
    } else if request.hostname.is_some() {
        return Err(bad_request("only web tunnels may specify a hostname"));
    }
    if request.access_mode == AccessMode::Allowlist && request.allowed_cidrs.len() == 0 {
        return Err(bad_request("allowlist mode requires at least one CIDR"));
    }
    Ok(())
}

// Public ports.
/// Whether a stored tunnel of a kind has a public port.
pub open spec fn port_used(rows: Seq<TunnelRow>, kind: TunnelKind, port: u16) -> bool {
    exists|i: int|
        0 <= i < rows.len() && (#[trigger] rows[i]).kind@ == kind_text(kind)
            && rows[i].remote_port is Some && (rows[i].remote_port->0) as u16 == port
}

/// Whether a port is the least of the range that no stored tunnel of a kind has.
pub open spec fn least_free(
    config: Config,
    rows: Seq<TunnelRow>,
    kind: TunnelKind,
    port: u16,
) -> bool {
    &&& config.port_start <= port <= config.port_end
    &&& !port_used(rows, kind, port)
    &&& forall|q: u16| config.port_start <= q < port ==> #[trigger] port_used(rows, kind, q)
}

/// Whether stored tunnels of a kind have all ports of the range.
pub open spec fn exhausted(config: Config, rows: Seq<TunnelRow>, kind: TunnelKind) -> bool {
    forall|q: u16|
        config.port_start <= q <= config.port_end ==> #[trigger] port_used(rows, kind, q)
}

/// The least port of the range that no stored tunnel of a kind has.
pub fn allocate_port(config: &Config, rows: &Vec<TunnelRow>, kind: TunnelKind) -> (r: Result<
    u16,
    AppError,
>)
    ensures
        r is Err <==> exhausted(*config, rows@, kind),
        r matches Ok(port) ==> least_free(*config, rows@, kind, port),
        r matches Err(e) ==> clash(e, "public port pool is exhausted"@),
{
    let mut used: Vec<bool> = Vec::new();
    let mut k: usize = 0;
    while k < 65536
        invariant
            k <= 65536,
            used@.len() == k,
            forall|q: int| 0 <= q < k ==> !#[trigger] used@[q],
        decreases 65536 - k,
    {
        used.push(false);
        k += 1;
    }
    let name = kind_str(kind);
    let mut i: usize = 0;
    assert forall|q: u16| !port_used(rows@.take(0), kind, q) by {}
    while i < rows.len()
        invariant
            i <= rows@.len(),
            used@.len() == 65536,
            name@ == kind_text(kind),
            forall|q: u16|
                used@[q as int] <==> #[trigger] port_used(rows@.take(i as int), kind, q),
        decreases rows@.len() - i,
    {
        let ghost before = used@;
        let ghost row = rows@[i as int];
        let matching: bool = text::same(rows[i].kind.as_str(), name);
        if matching {
            if let Some(port) = rows[i].remote_port {
                let port: u16 = port as u16;
                used.set(port as usize, true);
            }
        }
        assert forall|q: u16|
            used@[q as int] <==> #[trigger] port_used(rows@.take(i + 1), kind, q) by {
            let (a, b) = (rows@.take(i as int), rows@.take(i + 1));
            if port_used(a, kind, q) {
                let j = choose|j: int|
                    0 <= j < a.len() && (#[trigger] a[j]).kind@ == kind_text(kind)
                        && a[j].remote_port is Some && (a[j].remote_port->0) as u16 == q;
                assert(b[j] == a[j]);
            }
            if port_used(b, kind, q) {
                let j = choose|j: int|
                    0 <= j < b.len() && (#[trigger] b[j]).kind@ == kind_text(kind)
                        && b[j].remote_port is Some && (b[j].remote_port->0) as u16 == q;
                if j < i {
                    assert(a[j] == b[j]);
                }
            }
            assert(b[i as int] == row);
        }
        i += 1;
    }
    assert(rows@.take(i as int) =~= rows@);
    let mut port: u32 = config.port_start as u32;
    while port <= config.port_end as u32
        invariant
            used@.len() == 65536,
            config.port_start <= port <= 65536,
            forall|q: u16| used@[q as int] <==> #[trigger] port_used(rows@, kind, q),
            forall|q: u16| config.port_start <= q < port ==> #[trigger] port_used(rows@, kind, q),
        decreases 65536 - port,
    {
        if !used[port as usize] {
            assert(!port_used(rows@, kind, port as u16));
            return Ok(port as u16);
        }
        assert(port_used(rows@, kind, port as u16));
        port += 1;
    }
    Err(AppError::Conflict("public port pool is exhausted".to_owned()))
}

// New tunnels.
/// The public port of a new tunnel: none for a web tunnel, else the one that is asked for, else the
/// least free one. Nothing where the range has no free port.
pub open spec fn new_port(
    config: Config,
    rows: Seq<TunnelRow>,
    request: CreateTunnelRequest,
    port: Option<u16>,
) -> bool {
    match (request.kind, request.remote_port) {
        (TunnelKind::Web, _) => port is None,
        (_, Some(p)) => port == Some(p),
        (kind, None) => port matches Some(p) && least_free(config, rows, kind, p),
    }
}

/// Whether a new tunnel needs a port that the range does not have.
pub open spec fn lacks_port(
    config: Config,
    rows: Seq<TunnelRow>,
    request: CreateTunnelRequest,
) -> bool {
    request.kind != TunnelKind::Web && request.remote_port is None && exhausted(
        config,
        rows,
        request.kind,
    )
}

/// The tunnel that a request asks for.
pub open spec fn new_tunnel(
    config: Config,
    agent_id: u128,
    request: CreateTunnelRequest,
    id: u128,
    port: Option<u16>,
    now: Timestamp,
) -> TunnelView {
    TunnelView {
        id,
        agent_id,
        name: text::trimmed(request.name@),
        local_host: text::trimmed(request.local_host@),
        local_port: request.local_port,
        kind: request.kind,
        local_scheme: request.local_scheme,
        remote_port: port,
        hostname: if request.kind == TunnelKind::Web {
            hostname_of(config.web_base_domain@, asked_name(request))
        } else {
            None
        },
        access_mode: request.access_mode,
        allowed_cidrs: request.allowed_cidrs@,
        enabled: request.enabled,
        status: TunnelStatus::Stopped,
        created_at: now,
        updated_at: now,
    }
}

/// What `create` answers, given the identifier of the new tunnel.
pub open spec fn created(
    r: Result<(Tunnel, TunnelRow), AppError>,
    config: Config,
    rows: Seq<TunnelRow>,
    agent_id: u128,
    request: CreateTunnelRequest,
    now: Timestamp,
) -> bool {
    match create_fault(config, request) {
        Some(reason) => r matches Err(e) && bad(e, reason),
        None => if lacks_port(config, rows, request) {
            r matches Err(e) && clash(e, "public port pool is exhausted"@)
        } else {
            &&& r matches Ok((t, row))
            &&& new_port(config, rows, request, t.remote_port)
            &&& t@ == new_tunnel(config, agent_id, request, t.id, t.remote_port, now)
            &&& all_valid(t.allowed_cidrs@)
            &&& shows(row, t@)
            &&& now.four_digit_year() ==> gives_back(row, t@)
        },
    }
}

/// Makes the tunnel that a request asks for, under a given identifier, and its row.
pub fn create_as(
    config: &Config,
    rows: &Vec<TunnelRow>,
    agent_id: u128,
    request: CreateTunnelRequest,
    id: u128,
    now: Timestamp,
) -> (r: Result<(Tunnel, TunnelRow), AppError>)
    requires
        all_valid(request.allowed_cidrs@),
        now.valid(),
    ensures
        created(r, *config, rows@, agent_id, request, now),
        r matches Ok((t, _)) ==> t.id == id,
{
    match validate_create(config, &request) {
        Ok(_) => {},
        Err(e) => {
            return Err(e);
        },
    }
    let remote_port: Option<u16> = match request.kind {
        TunnelKind::Web => None,
        _ => match request.remote_port {
            Some(port) => Some(port),
            None => match allocate_port(config, rows, request.kind) {
                Ok(port) => Some(port),
                Err(e) => {
                    return Err(e);
                },
            },
        },
    };
    let hostname: Option<String> = match request.kind {
        TunnelKind::Web => match normalize_hostname(config, asked(&request)) {
            Ok(host) => Some(host),
            Err(e) => {
                return Err(e);
            },
        },
        _ => None,
    };
    let tunnel = Tunnel {
        id,
        agent_id,
        name: text::trim(request.name.as_str()).to_owned(),
        local_host: text::trim(request.local_host.as_str()).to_owned(),
        local_port: request.local_port,
        kind: request.kind,
        local_scheme: request.local_scheme,
        remote_port,
        hostname,
        access_mode: request.access_mode,
        allowed_cidrs: request.allowed_cidrs,
        enabled: request.enabled,
        status: TunnelStatus::Stopped,
        created_at: now,
        updated_at: now,
    };
    let row = tunnel_row(&tunnel);
    Ok((tunnel, row))
}

/// Makes the tunnel that a request asks for, under a new random identifier, and its row.
pub fn create(
    config: &Config,
    rows: &Vec<TunnelRow>,
    agent_id: u128,
    request: CreateTunnelRequest,
    now: Timestamp,
) -> (r: Result<(Tunnel, TunnelRow), AppError>)
    requires
        all_valid(request.allowed_cidrs@),
        now.valid(),
    ensures
        created(r, *config, rows@, agent_id, request, now),
{
    create_as(config, rows, agent_id, request, new_id(), now)
}

/// What became of a write to the tunnel table.
#[derive(Debug, Clone, PartialEq, Eq)]
pub enum Stored {
    Done,
    /// Another tunnel has the same public endpoint.
    Duplicate,
    Failed(String),
}

/// The answer to a request for a new tunnel, once its row was written.
pub fn create_stored(tunnel: Tunnel, outcome: Stored) -> (r: Result<Tunnel, AppError>)
    ensures
        match outcome {
            Stored::Done => r == Ok::<Tunnel, AppError>(tunnel),
            Stored::Duplicate => r matches Err(e) && clash(
                e,
                "public endpoint is already allocated"@,
            ),
            Stored::Failed(reason) => r == Err::<Tunnel, AppError>(AppError::Internal(reason)),
        },
{
    match outcome {
        Stored::Done => Ok(tunnel),
        Stored::Duplicate => Err(
            AppError::Conflict("public endpoint is already allocated".to_owned()),
        ),
        Stored::Failed(reason) => Err(AppError::Internal(reason)),
    }
}

// Changes to tunnels.
/// What is wrong with a request to change a tunnel.
pub open spec fn change_fault(
    config: Config,
    t: TunnelView,
    request: UpdateTunnelRequest,
) -> Option<Seq<char>> {
    if request.local_host is Some && host_fault(
        request.local_host->0@,
        request.allow_lan_target,
    ) is Some {
        host_fault(request.local_host->0@, request.allow_lan_target)
    } else if request.local_port == Some(0u16) {
        Some("local port cannot be zero"@)
    } else if request.remote_port is Some && t.kind == TunnelKind::Web {
        Some("web tunnels do not use a remote port"@)
    } else if request.remote_port is Some && port_fault(config, request.remote_port->0) is Some {
        port_fault(config, request.remote_port->0)
    } else if request.kind is Some && request.kind->0 != t.kind {
        Some("tunnel kind cannot be changed after creation"@)
    } else if request.hostname is Some && t.kind != TunnelKind::Web {
        Some("only web tunnels have hostnames"@)
    } else if request.hostname is Some && hostname_of(
        config.web_base_domain@,
        request.hostname->0@,
    ) is None {
        Some("hostname must be a DNS label containing letters, digits, or hyphens"@)
    } else {
        None
    }
}

/// A value with a change, where there is one.
pub open spec fn changed<T>(value: T, change: Option<T>) -> T {
    match change {
        Some(v) => v,
        None => value,
    }
}

/// A tunnel as a request changes it.
pub open spec fn changed_tunnel(
    config: Config,
    t: TunnelView,
    request: UpdateTunnelRequest,
    now: Timestamp,
) -> TunnelView {
    TunnelView {
        name: match request.name {
            Some(name) => text::trimmed(name@),
            None => t.name,
        },
        local_host: match request.local_host {
            Some(host) => text::trimmed(host@),
            None => t.local_host,
        },
        local_port: changed(t.local_port, request.local_port),
        remote_port: match request.remote_port {
            Some(port) => Some(port),
            None => t.remote_port,
        },
        local_scheme: changed(t.local_scheme, request.local_scheme),
        hostname: match request.hostname {
            Some(host) => hostname_of(config.web_base_domain@, host@),
            None => t.hostname,
        },
        access_mode: changed(t.access_mode, request.access_mode),
        allowed_cidrs: match request.allowed_cidrs {
            Some(list) => list@,
            None => t.allowed_cidrs,
        },
        enabled: changed(t.enabled, request.enabled),
        updated_at: now,
        ..t
    }
}

/// Whether somebody else owns a tunnel.
pub open spec fn foreign(owner: Option<u128>, t: TunnelView) -> bool {
    owner matches Some(id) && id != t.agent_id
}

/// What `update` answers.
pub open spec fn updated(
    r: Result<(Tunnel, TunnelRow), AppError>,
    config: Config,
    rows: Seq<TunnelRow>,
    id: u128,
    owner: Option<u128>,
    request: UpdateTunnelRequest,
    now: Timestamp,
) -> bool {
    let place = row_place(rows, id) as int;
    if place >= rows.len() {
        r == Err::<(Tunnel, TunnelRow), AppError>(AppError::NotFound)
    } else if row_fault(rows[place]) is Some {
        r matches Err(e) && fault(e, row_fault(rows[place])->0)
    } else {
        let t = tunnel_of(rows[place]);
        let changed = changed_tunnel(config, t, request, now);
        if foreign(owner, t) {
            r == Err::<(Tunnel, TunnelRow), AppError>(AppError::NotFound)
        } else if change_fault(config, t, request) is Some {
            r matches Err(e) && bad(e, change_fault(config, t, request)->0)
        } else if tunnel_fault(changed) is Some {
            r matches Err(e) && bad(e, tunnel_fault(changed)->0)
        } else {
            &&& r matches Ok((u, row))
            &&& u@ == changed
            &&& u.id == id
            &&& all_valid(u.allowed_cidrs@)
            &&& shows(row, changed)
            &&& now.four_digit_year() ==> gives_back(written_over(rows[place], row), changed)
        }
    }
}

/// Checks a request to change a tunnel.
fn check_change(config: &Config, tunnel: &Tunnel, request: &UpdateTunnelRequest) -> (r: Result<
    (),
    AppError,
>)
    ensures
        r is Ok <==> change_fault(*config, tunnel@, *request) is None,
        r matches Err(e) ==> bad(e, change_fault(*config, tunnel@, *request)->0),
{
    if let Some(host) = &request.local_host {
        validate_local_host(host.as_str(), request.allow_lan_target)?;
    }
    if let Some(port) = request.local_port {
        if port == 0 {
            return Err(bad_request("local port cannot be zero"));
        }
    }
    if let Some(port) = request.remote_port {
        if tunnel.kind == TunnelKind::Web {
            return Err(bad_request("web tunnels do not use a remote port"));
        }
        validate_remote_port(config, port)?;
    }
    if let Some(kind) = request.kind {
        if kind != tunnel.kind {
            return Err(bad_request("tunnel kind cannot be changed after creation"));
        }
    }
    if let Some(hostname) = &request.hostname {
        if tunnel.kind != TunnelKind::Web {
            return Err(bad_request("only web tunnels have hostnames"));
        }
        match normalize_hostname(config, hostname.as_str()) {
            Ok(_) => {},
            Err(e) => {
                return Err(e);
            },
        }
    }
    Ok(())
}

/// Changes a tunnel as a faultless request asks.
fn apply_change(
    config: &Config,
    tunnel: Tunnel,
    request: UpdateTunnelRequest,
    now: Timestamp,
) -> (r: Result<Tunnel, AppError>)
    requires
        change_fault(*config, tunnel@, request) is None,
    ensures
        r matches Ok(t) && t@ == changed_tunnel(*config, tunnel@, request, now),
{
    let hostname: Option<String> = match &request.hostname {
        Some(hostname) => Some(normalize_hostname(config, hostname.as_str())?),
        None => tunnel.hostname,
    };
    Ok(
        Tunnel {
            id: tunnel.id,
            agent_id: tunnel.agent_id,
            name: match &request.name {
                Some(name) => text::trim(name.as_str()).to_owned(),
                None => tunnel.name,
            },
            local_host: match &request.local_host {
                Some(host) => text::trim(host.as_str()).to_owned(),
                None => tunnel.local_host,
            },
            local_port: match request.local_port {
                Some(port) => port,
                None => tunnel.local_port,
            },
            kind: tunnel.kind,
            local_scheme: match request.local_scheme {
                Some(scheme) => scheme,
                None => tunnel.local_scheme,
            },
            remote_port: match request.remote_port {
                Some(port) => Some(port),
                None => tunnel.remote_port,
            },
            hostname,
            access_mode: match request.access_mode {
                Some(mode) => mode,
                None => tunnel.access_mode,
            },
            allowed_cidrs: match request.allowed_cidrs {
                Some(cidrs) => cidrs,
                None => tunnel.allowed_cidrs,
            },
            enabled: match request.enabled {
                Some(enabled) => enabled,
                None => tunnel.enabled,
            },
            status: tunnel.status,
            created_at: tunnel.created_at,
            updated_at: now,
        },
    )
}

/// Changes a tunnel as a request asks; hands back the tunnel and its new row. An owner changes only
/// tunnels of its own.
pub fn update(
    config: &Config,
    rows: &Vec<TunnelRow>,
    id: u128,
    owner: Option<u128>,
    request: UpdateTunnelRequest,
    now: Timestamp,
) -> (r: Result<(Tunnel, TunnelRow), AppError>)
    requires
        request.allowed_cidrs matches Some(list) ==> all_valid(list@),
        now.valid(),
    ensures
        updated(r, *config, rows@, id, owner, request, now),
{
    let tunnel = match get(rows, id) {
        Ok(tunnel) => tunnel,
        Err(e) => {
            return Err(e);
        },
    };
    if let Some(owner) = owner {
        if owner != tunnel.agent_id {
            return Err(AppError::NotFound);
        }
    }
    match check_change(config, &tunnel, &request) {
        Ok(_) => {},
        Err(e) => {
            return Err(e);
        },
    }
    let changed = match apply_change(config, tunnel, request, now) {
        Ok(tunnel) => tunnel,
        Err(e) => {
            return Err(e);
        },
    };
    match validate_tunnel(&changed) {
        Ok(_) => {},
        Err(e) => {
            return Err(e);
        },
    }
    let row = tunnel_row(&changed);
    Ok((changed, row))
}

/// The answer to a request to change a tunnel, once its row was written.
pub fn update_stored(tunnel: Tunnel, outcome: Stored) -> (r: Result<Tunnel, AppError>)
    ensures
        match outcome {
            Stored::Done => r == Ok::<Tunnel, AppError>(tunnel),
            Stored::Duplicate => r matches Err(e) && clash(e, "remote port is already allocated"@),
            Stored::Failed(reason) => r == Err::<Tunnel, AppError>(AppError::Internal(reason)),
        },
{
    match outcome {
        Stored::Done => Ok(tunnel),
        Stored::Duplicate => Err(AppError::Conflict("remote port is already allocated".to_owned())),
        Stored::Failed(reason) => Err(AppError::Internal(reason)),
    }
}

/// Whether a tunnel may be deleted. An owner deletes only tunnels of its own.
pub fn delete(rows: &Vec<TunnelRow>, id: u128, owner: Option<u128>) -> (r: Result<(), AppError>)
    ensures
        ({
            let place = row_place(rows@, id) as int;
            if place >= rows@.len() {
                r == Err::<(), AppError>(AppError::NotFound)
            } else if row_fault(rows@[place]) is Some {
                r matches Err(e) && fault(e, row_fault(rows@[place])->0)
            } else if foreign(owner, tunnel_of(rows@[place])) {
                r == Err::<(), AppError>(AppError::NotFound)
            } else {
                r is Ok
            }
        }),
        deletes(r, rows@, id, owner),
{
    let tunnel = match get(rows, id) {
        Ok(tunnel) => tunnel,
        Err(e) => {
            return Err(e);
        },
    };
    if let Some(owner) = owner {
        if owner != tunnel.agent_id {
            return Err(AppError::NotFound);
        }
    }
    Ok(())
}

/// A new tunnel meets the rules for tunnels.
pub proof fn law_new_tunnels_are_sound(
    config: Config,
    rows: Seq<TunnelRow>,
    agent_id: u128,
    request: CreateTunnelRequest,
    id: u128,
    port: Option<u16>,
    now: Timestamp,
)
    requires
        create_fault(config, request) is None,
        new_port(config, rows, request, port),
    ensures
        tunnel_fault(new_tunnel(config, agent_id, request, id, port, now)) is None,
        port matches Some(p) ==> config.port_start <= p <= config.port_end,
        port is Some <==> request.kind != TunnelKind::Web,
{
    text::lemma_trimmed_len(request.name@);
}

/// A new tunnel that is open to a list of sources lists at least one block.
pub proof fn law_allowlists_are_not_empty(config: Config, request: CreateTunnelRequest)
    requires
        create_fault(config, request) is None,
        request.access_mode == AccessMode::Allowlist,
    ensures
        request.allowed_cidrs@.len() > 0,
{
}

/// Without consent to targets on the local network, a new tunnel and a changed target lead to this
/// machine itself.
pub proof fn law_targets_stay_local(
    config: Config,
    request: CreateTunnelRequest,
    t: TunnelView,
    change: UpdateTunnelRequest,
)
    ensures
        create_fault(config, request) is None && !request.allow_lan_target ==> local_machine(
            text::trimmed(request.local_host@),
        ),
        change_fault(config, t, change) is None && !change.allow_lan_target
            && change.local_host is Some ==> local_machine(
            text::trimmed(change.local_host->0@),
        ),
{
}

/// A change keeps what a tunnel is: its identifier, its agent, its kind and its beginning.
pub proof fn law_changes_keep_identity(
    config: Config,
    t: TunnelView,
    request: UpdateTunnelRequest,
    now: Timestamp,
)
    ensures
        changed_tunnel(config, t, request, now).id == t.id,
        changed_tunnel(config, t, request, now).agent_id == t.agent_id,
        changed_tunnel(config, t, request, now).kind == t.kind,
        changed_tunnel(config, t, request, now).created_at == t.created_at,
{
}

/// A request that asks for nothing changes the time of the last change alone.
pub proof fn law_empty_change(
    config: Config,
    t: TunnelView,
    request: UpdateTunnelRequest,
    now: Timestamp,
)
    requires
        request.name is None,
        request.local_host is None,
        request.local_port is None,
        request.kind is None,
        request.local_scheme is None,
        request.remote_port is None,
        request.hostname is None,
        request.access_mode is None,
        request.allowed_cidrs is None,
        request.enabled is None,
    ensures
        change_fault(config, t, request) is None,
        changed_tunnel(config, t, request, now) == (TunnelView { updated_at: now, ..t }),
{
}

/// A web tunnel never gets a public port by a change, and no other tunnel a host name.
pub proof fn law_changes_keep_endpoints_apart(
    config: Config,
    t: TunnelView,
    request: UpdateTunnelRequest,
    now: Timestamp,
)
    requires
        change_fault(config, t, request) is None,
    ensures
        t.kind == TunnelKind::Web ==> changed_tunnel(config, t, request, now).remote_port
            == t.remote_port,
        t.kind != TunnelKind::Web ==> changed_tunnel(config, t, request, now).hostname
            == t.hostname,
{
}

/// A port that `allocate_port` hands out is free, and the next request for one of the same kind
/// gets another, once the first is stored.
pub proof fn law_ports_are_not_handed_out_twice(
    config: Config,
    rows: Seq<TunnelRow>,
    kind: TunnelKind,
    row: TunnelRow,
    first: u16,
    second: u16,
)
    requires
        least_free(config, rows, kind, first),
        row.kind@ == kind_text(kind),
        row.remote_port == Some(first as i64),
        least_free(config, rows.push(row), kind, second),
    ensures
        first < second,
{
    let all = rows.push(row);
    assert(all[rows.len() as int] == row);
    assert(first as i64 as u16 == first);
    assert(port_used(all, kind, first));
    if second < first {
        assert(port_used(rows, kind, second));
        let j = choose|j: int|
            0 <= j < rows.len() && (#[trigger] rows[j]).kind@ == kind_text(kind)
                && rows[j].remote_port is Some && (rows[j].remote_port->0) as u16 == second;
        assert(all[j] == rows[j]);
        assert(port_used(all, kind, second));
    }
}

/// Every block of the list lets its addresses in, wherever it stands, and nothing else does; a block
/// more turns nobody away. An IPv4 source counts in its own form and mapped into IPv6.
pub proof fn law_every_block_lets_in(t: TunnelView, v4: u32, v6: u128, i: int, c: net::Cidr)
    requires
        t.access_mode == AccessMode::Allowlist,
    ensures
        0 <= i < t.allowed_cidrs.len() && t.allowed_cidrs[i].covers(IpAddr::V4(v4)) ==> admits(
            t,
            IpAddr::V4(v4),
        ) && admits(t, IpAddr::V6((0xffff_0000_0000 + v4) as u128)),
        0 <= i < t.allowed_cidrs.len() && t.allowed_cidrs[i].covers(IpAddr::V6(v6)) && (v6
            < 0xffff_0000_0000 || v6 > 0xffff_ffff_ffff) ==> admits(t, IpAddr::V6(v6)),
        admits(t, IpAddr::V4(v4)) ==> exists|k: int|
            0 <= k < t.allowed_cidrs.len() && (#[trigger] t.allowed_cidrs[k]).covers(
                IpAddr::V4(v4),
            ),
        admits(t, IpAddr::V6(v6)) && (v6 < 0xffff_0000_0000 || v6 > 0xffff_ffff_ffff)
            ==> exists|k: int|
            0 <= k < t.allowed_cidrs.len() && (#[trigger] t.allowed_cidrs[k]).covers(
                IpAddr::V6(v6),
            ),
        forall|ip: IpAddr| #[trigger]
            admits(t, ip) ==> admits(
                TunnelView { allowed_cidrs: t.allowed_cidrs.push(c), ..t },
                ip,
            ) && admits(TunnelView { allowed_cidrs: seq![c] + t.allowed_cidrs, ..t }, ip),
{
    net::law_unmapped(IpAddr::V4(v4), v4);
    assert forall|ip: IpAddr| #[trigger] admits(t, ip) implies admits(
        TunnelView { allowed_cidrs: t.allowed_cidrs.push(c), ..t },
        ip,
    ) && admits(TunnelView { allowed_cidrs: seq![c] + t.allowed_cidrs, ..t }, ip) by {
        let u = unmapped(ip);
        let k = choose|k: int|
            0 <= k < t.allowed_cidrs.len() && (#[trigger] t.allowed_cidrs[k]).covers(u);
        assert(t.allowed_cidrs.push(c)[k].covers(u));
        assert((seq![c] + t.allowed_cidrs)[k + 1].covers(u));
    }
}

/// The kinds of tunnels and the schemes of their targets that go together: TCP with TCP, UDP with
/// UDP, and the Web with HTTP and HTTPS.
pub proof fn law_kinds_and_schemes(kind: TunnelKind, scheme: LocalScheme)
    ensures
        kind_scheme_ok(kind, scheme) <==> (kind == TunnelKind::Tcp && scheme == LocalScheme::Tcp)
            || (kind == TunnelKind::Udp && scheme == LocalScheme::Udp) || (kind == TunnelKind::Web
            && (scheme == LocalScheme::Http || scheme == LocalScheme::Https)),
{
}

/// This machine itself goes by `localhost` and by its addresses; no other address is taken for it.
pub proof fn law_names_of_this_machine(ip: IpAddr)
    ensures
        local_machine("localhost"@),
        local_machine(net::ip_text(ip)) <==> ip.loopback(),
{
    crate::readback::law_addresses_are_read_back(ip);
    crate::readback::law_address_characters(ip);
    reveal_strlit("localhost");
    assert("localhost"@[0] == 'l');
    assert(net::is_hex(net::ip_text(ip)[0]) || net::ip_text(ip)[0] == '.' || net::ip_text(ip)[0]
        == ':');
}

/// A target is taken where its host is not blank, not too long and holds no white space inside, and
/// where it is this machine itself or the user consents to others; and only there.
pub proof fn law_targets(host: Seq<char>, allow_lan: bool)
    ensures
        host_fault(host, allow_lan) is None <==> {
            let h = text::trimmed(host);
            &&& h.len() > 0
            &&& encode_utf8(h).len() <= 253
            &&& forall|i: int| 0 <= i < h.len() ==> !text::is_white(#[trigger] h[i])
            &&& allow_lan || h == "localhost"@ || (net::ip_value(h) matches Some(ip)
                && ip.loopback())
        },
{
}

/// A public port is taken where it lies in the range of the relay, the ends of which belong to it.
pub proof fn law_ports_of_the_range(config: Config, port: u16)
    ensures
        port_fault(config, port) is None <==> config.port_start <= port && port <= config.port_end,
{
}

/// A label of lower-case letters, digits and hyphens inside names the host under the domain, whatever
/// the case in which it is asked for; so does the full name. No other text names a host.
pub proof fn law_labels_name_hosts(base: Seq<char>, label: Seq<char>, asked_for: Seq<char>)
    requires
        1 <= label.len() <= 63,
        label[0] != '-',
        label.last() != '-',
        forall|i: int|
            0 <= i < label.len() ==> ('a' <= #[trigger] label[i] <= 'z') || ('0' <= label[i] <= '9')
                || label[i] == '-',
        asked_for.len() == label.len(),
        forall|i: int| #![trigger asked_for[i]]
            0 <= i < label.len() ==> asked_for[i] == label[i] || asked_for[i] == text::ascii_upper(
                label[i],
            ),
    ensures
        hostname_of(base, asked_for) == Some(label + seq!['.'] + base),
{
    reveal_strlit(".");
    assert forall|i: int| 0 <= i < label.len() implies !text::is_white(#[trigger] asked_for[i])
        && asked_for[i] != '.' && text::ascii_lower(asked_for[i]) == label[i] by {
        assert(label[i] == label[i]);
    }
    assert(asked_for.last() == asked_for[asked_for.len() - 1]);
    lemma_trim_is_idle(asked_for);
    assert(text::trim_end_char(asked_for, '.') == asked_for);
    assert(text::lower(asked_for) =~= label);
    let domain = "."@ + base;
    if text::has_suffix(label, domain) {
        let k = label.len() - domain.len();
        assert(label.skip(k)[0] == domain[0]);
        assert(label[k] == '.');
    }
    assert forall|i: int| 0 <= i < label.len() implies label_char(#[trigger] label[i]) by {}
    assert(label + "."@ + base =~= label + seq!['.'] + base);
}

/// A tunnel is what its request asks for: what is taken over stands in the tunnel and in its row as
/// it stands in the request, the name and the host without white space around them. It belongs to
/// the agent, starts out stopped, and was made and last changed now. It has the public port that was
/// asked for, or a free one of the range, unless it is a web tunnel.
pub proof fn law_new_tunnels_are_as_asked_for(
    config: Config,
    rows: Seq<TunnelRow>,
    agent_id: u128,
    request: CreateTunnelRequest,
    now: Timestamp,
    t: Tunnel,
    row: TunnelRow,
)
    requires
        created(
            Ok::<(Tunnel, TunnelRow), AppError>((t, row)),
            config,
            rows,
            agent_id,
            request,
            now,
        ),
    ensures
        t.agent_id == agent_id,
        t.name@ == text::trimmed(request.name@),
        t.local_host@ == text::trimmed(request.local_host@),
        t.local_port == request.local_port,
        t.kind == request.kind,
        t.local_scheme == request.local_scheme,
        t.access_mode == request.access_mode,
        t.allowed_cidrs@ == request.allowed_cidrs@,
        t.enabled == request.enabled,
        t.status == TunnelStatus::Stopped,
        t.created_at == now,
        t.updated_at == now,
        request.kind == TunnelKind::Web ==> t.remote_port is None && t.hostname is Some
            && hostname_of(
            config.web_base_domain@,
            if request.hostname is Some {
                request.hostname->0@
            } else {
                request.name@
            },
        ) == Some(t.hostname->0@),
        request.kind != TunnelKind::Web ==> t.hostname is None && t.remote_port is Some,
        request.kind != TunnelKind::Web && request.remote_port is Some ==> t.remote_port
            == request.remote_port,
        request.kind != TunnelKind::Web ==> config.port_start <= t.remote_port->0
            <= config.port_end,
        row.name@ == t.name@,
        row.local_host@ == t.local_host@,
        row.local_port == request.local_port,
        row.enabled == request.enabled,
        t.remote_port is None ==> row.remote_port is None,
        t.remote_port matches Some(p) ==> row.remote_port == Some(p as i64),
        opt_text(row.hostname) == opt_text(t.hostname),
        request.kind == TunnelKind::Tcp ==> row.kind@ == "tcp"@ && row.local_scheme@ == "tcp"@,
        request.kind == TunnelKind::Udp ==> row.kind@ == "udp"@ && row.local_scheme@ == "udp"@,
        request.kind == TunnelKind::Web ==> row.kind@ == "web"@ && (row.local_scheme@ == "http"@
            || row.local_scheme@ == "https"@),
        request.access_mode == AccessMode::Public ==> row.access_mode@ == "public"@,
        request.access_mode == AccessMode::Allowlist ==> row.access_mode@ == "allowlist"@,
        row.id@ == crate::ids::id_text(t.id),
        row.agent_id@ == crate::ids::id_text(agent_id),
{
    assert(t@.name == t.name@);
    assert(t@.hostname == opt_text(t.hostname));
}

/// A request for a tunnel is granted where it keeps the rules, each of them for itself, and only
/// there; unless the relay has to pick a port and has none left.
pub proof fn law_requests_that_keep_the_rules_are_granted(
    r: Result<(Tunnel, TunnelRow), AppError>,
    config: Config,
    rows: Seq<TunnelRow>,
    agent_id: u128,
    request: CreateTunnelRequest,
    now: Timestamp,
)
    requires
        created(r, config, rows, agent_id, request, now),
    ensures
        r is Ok <==> {
            &&& text::trimmed(request.name@).len() > 0 && request.name@.len() <= 80
            &&& request.local_port != 0
            &&& host_fault(request.local_host@, request.allow_lan_target) is None
            &&& request.remote_port matches Some(p) ==> config.port_start <= p <= config.port_end
            &&& kind_scheme_ok(request.kind, request.local_scheme)
            &&& request.kind == TunnelKind::Web ==> hostname_of(
                config.web_base_domain@,
                if request.hostname is Some {
                    request.hostname->0@
                } else {
                    request.name@
                },
            ) is Some
            &&& request.kind != TunnelKind::Web ==> request.hostname is None
            &&& request.access_mode == AccessMode::Allowlist ==> request.allowed_cidrs@.len() > 0
            &&& request.kind != TunnelKind::Web && request.remote_port is None ==> exists|q: u16|
                config.port_start <= q <= config.port_end && !#[trigger] port_used(
                    rows,
                    request.kind,
                    q,
                )
        },
        r matches Err(e) ==> e is BadRequest || e is Conflict,
{
}

/// A port that is picked lies in the range, no stored tunnel of the kind has it, and each smaller port
/// of the range is taken by one.
pub proof fn law_picked_ports(
    config: Config,
    rows: Seq<TunnelRow>,
    kind: TunnelKind,
    port: u16,
    i: int,
    q: u16,
)
    requires
        least_free(config, rows, kind, port),
        0 <= i < rows.len(),
    ensures
        config.port_start <= port <= config.port_end,
        kind == TunnelKind::Tcp && rows[i].kind@ == "tcp"@ ==> rows[i].remote_port != Some(
            port as i64,
        ),
        kind == TunnelKind::Udp && rows[i].kind@ == "udp"@ ==> rows[i].remote_port != Some(
            port as i64,
        ),
        config.port_start <= q < port ==> exists|k: int|
            0 <= k < rows.len() && (#[trigger] rows[k]).remote_port is Some && (
            rows[k].remote_port->0) as u16 == q && rows[k].kind@ == kind_text(kind),
{
    if rows[i].kind@ == kind_text(kind) && rows[i].remote_port == Some(port as i64) {
        assert((rows[i].remote_port->0) as u16 == port);
        assert(port_used(rows, kind, port));
    }
    if config.port_start <= q < port {
        assert(port_used(rows, kind, q));
    }
}

/// Each part of a tunnel becomes what a change names for it, and stays where the change names nothing.
pub proof fn law_each_part_is_changed_by_itself(
    config: Config,
    t: TunnelView,
    request: UpdateTunnelRequest,
    now: Timestamp,
)
    ensures
        ({
            let u = changed_tunnel(config, t, request, now);
            &&& request.allowed_cidrs matches Some(list) ==> u.allowed_cidrs == list@
            &&& request.allowed_cidrs is None ==> u.allowed_cidrs == t.allowed_cidrs
            &&& request.access_mode matches Some(mode) ==> u.access_mode == mode
            &&& request.access_mode is None ==> u.access_mode == t.access_mode
            &&& request.enabled matches Some(enabled) ==> u.enabled == enabled
            &&& request.enabled is None ==> u.enabled == t.enabled
            &&& request.local_port matches Some(port) ==> u.local_port == port
            &&& request.local_port is None ==> u.local_port == t.local_port
            &&& request.local_scheme matches Some(scheme) ==> u.local_scheme == scheme
            &&& request.local_scheme is None ==> u.local_scheme == t.local_scheme
            &&& request.remote_port matches Some(port) ==> u.remote_port == Some(port)
            &&& request.remote_port is None ==> u.remote_port == t.remote_port
            &&& request.name is None ==> u.name == t.name
            &&& request.local_host is None ==> u.local_host == t.local_host
            &&& request.hostname is None ==> u.hostname == t.hostname
            &&& u.id == t.id && u.agent_id == t.agent_id && u.kind == t.kind
            &&& u.created_at == t.created_at && u.updated_at == now && u.status == t.status
        }),
{
}

/// Where a change succeeds, what the request names is taken over, in the tunnel and in its row, and
/// what it does not name stays; the tunnel was last changed now.
pub proof fn law_changes_take_over_what_they_name(
    config: Config,
    rows: Seq<TunnelRow>,
    id: u128,
    owner: Option<u128>,
    request: UpdateTunnelRequest,
    now: Timestamp,
    u: Tunnel,
    row: TunnelRow,
)
    requires
        updated(
            Ok::<(Tunnel, TunnelRow), AppError>((u, row)),
            config,
            rows,
            id,
            owner,
            request,
            now,
        ),
    ensures
        ({
            let t = tunnel_of(rows[row_place(rows, id) as int]);
            &&& u.id == id && u.agent_id == t.agent_id && u.kind == t.kind
            &&& u.created_at == t.created_at && u.status == t.status
            &&& u.updated_at == now
            &&& request.name matches Some(name) ==> u.name@ == text::trimmed(name@)
            &&& request.name is None ==> u.name@ == t.name
            &&& request.local_host matches Some(host) ==> u.local_host@ == text::trimmed(host@)
            &&& request.local_host is None ==> u.local_host@ == t.local_host
            &&& request.local_port matches Some(port) ==> u.local_port == port
            &&& request.local_port is None ==> u.local_port == t.local_port
            &&& request.local_scheme matches Some(scheme) ==> u.local_scheme == scheme
            &&& request.local_scheme is None ==> u.local_scheme == t.local_scheme
            &&& request.remote_port matches Some(port) ==> u.remote_port == Some(port)
            &&& request.remote_port is None ==> u.remote_port == t.remote_port
            &&& request.hostname matches Some(host) ==> opt_text(u.hostname) == hostname_of(
                config.web_base_domain@,
                host@,
            ) && u.hostname is Some
            &&& request.hostname is None ==> opt_text(u.hostname) == t.hostname
            &&& request.access_mode matches Some(mode) ==> u.access_mode == mode
            &&& request.access_mode is None ==> u.access_mode == t.access_mode
            &&& request.allowed_cidrs matches Some(list) ==> u.allowed_cidrs@ == list@
            &&& request.allowed_cidrs is None ==> u.allowed_cidrs@ == t.allowed_cidrs
            &&& request.enabled matches Some(enabled) ==> u.enabled == enabled
            &&& request.enabled is None ==> u.enabled == t.enabled
        }),
        row.name@ == u.name@,
        row.local_host@ == u.local_host@,
        row.local_port == u.local_port,
        row.enabled == u.enabled,
        u.remote_port matches Some(p) ==> row.remote_port == Some(p as i64),
        opt_text(row.hostname) == opt_text(u.hostname),
        u.access_mode == AccessMode::Public ==> row.access_mode@ == "public"@,
        u.access_mode == AccessMode::Allowlist ==> row.access_mode@ == "allowlist"@,
        u.local_scheme == LocalScheme::Http ==> row.local_scheme@ == "http"@,
        u.local_scheme == LocalScheme::Https ==> row.local_scheme@ == "https"@,
{
    let t = tunnel_of(rows[row_place(rows, id) as int]);
    assert(u@.name == u.name@);
    assert(u@.hostname == opt_text(u.hostname));
    assert(u@.status == u.status && u@.kind == u.kind);
}

/// A change is granted where the tunnel is there, can be read and belongs to whoever asks, and where
/// the request and what comes of it keep the rules; and only there. To an owner a tunnel of another
/// agent is not there.
pub proof fn law_changes_that_keep_the_rules_are_granted(
    r: Result<(Tunnel, TunnelRow), AppError>,
    config: Config,
    rows: Seq<TunnelRow>,
    id: u128,
    owner: Option<u128>,
    request: UpdateTunnelRequest,
    now: Timestamp,
)
    requires
        updated(r, config, rows, id, owner, request, now),
    ensures
        ({
            let place = row_place(rows, id) as int;
            let t = tunnel_of(rows[place]);
            let there = place < rows.len() && row_fault(rows[place]) is None;
            let own = owner is None || owner == Some(t.agent_id);
            &&& r is Ok ==> there && own
            &&& there && !own ==> r == Err::<(Tunnel, TunnelRow), AppError>(AppError::NotFound)
            &&& place >= rows.len() ==> r == Err::<(Tunnel, TunnelRow), AppError>(
                AppError::NotFound,
            )
            &&& there && own ==> (r is Ok <==> {
                let name = match request.name {
                    Some(name) => text::trimmed(name@),
                    None => t.name,
                };
                let scheme = match request.local_scheme {
                    Some(scheme) => scheme,
                    None => t.local_scheme,
                };
                let mode = match request.access_mode {
                    Some(mode) => mode,
                    None => t.access_mode,
                };
                let blocks = match request.allowed_cidrs {
                    Some(list) => list@,
                    None => t.allowed_cidrs,
                };
                &&& 1 <= name.len() <= 80
                &&& request.local_host matches Some(host) ==> host_fault(
                    host@,
                    request.allow_lan_target,
                ) is None
                &&& request.local_port != Some(0u16)
                &&& request.remote_port matches Some(p) ==> t.kind != TunnelKind::Web
                    && config.port_start <= p <= config.port_end
                &&& request.kind matches Some(kind) ==> kind == t.kind
                &&& request.hostname matches Some(host) ==> t.kind == TunnelKind::Web
                    && hostname_of(config.web_base_domain@, host@) is Some
                &&& kind_scheme_ok(t.kind, scheme)
                &&& mode == AccessMode::Allowlist ==> blocks.len() > 0
                &&& t.kind != TunnelKind::Web ==> request.remote_port is Some || t.remote_port is Some
                &&& t.kind == TunnelKind::Web ==> request.hostname is Some || t.hostname is Some
            })
        }),
{
}

/// Whether a result says that a tunnel may be deleted, or why not.
pub open spec fn deletes(
    r: Result<(), AppError>,
    rows: Seq<TunnelRow>,
    id: u128,
    owner: Option<u128>,
) -> bool {
    let place = row_place(rows, id) as int;
    if place < rows.len() && row_fault(rows[place]) is Some {
        r matches Err(e) && fault(e, row_fault(rows[place])->0)
    } else if place < rows.len() && !foreign(owner, tunnel_of(rows[place])) {
        r is Ok
    } else {
        r == Err::<(), AppError>(AppError::NotFound)
    }
}

/// The administrator deletes every tunnel that is there, an agent those of its own; a tunnel of another
/// agent is not there for it.
pub proof fn law_owners_delete_their_tunnels(
    r: Result<(), AppError>,
    rows: Seq<TunnelRow>,
    id: u128,
    owner: Option<u128>,
)
    requires
        deletes(r, rows, id, owner),
        row_place(rows, id) < rows.len() ==> row_fault(rows[row_place(rows, id) as int]) is None,
    ensures
        ({
            let place = row_place(rows, id) as int;
            &&& place >= rows.len() ==> r == Err::<(), AppError>(AppError::NotFound)
            &&& place < rows.len() && owner is None ==> r is Ok
            &&& place < rows.len() && owner is Some ==> (r is Ok <==> owner->0 == tunnel_of(
                rows[place],
            ).agent_id)
            &&& r matches Err(e) ==> e == AppError::NotFound
        }),
{
}

/// A request that breaks a rule is told which: a name that is empty or longer than eighty characters, a
/// target without a port, a target that is no host or not on this machine, a public port outside the
/// range, a scheme that does not go with the kind, a host name that is no label or not for a web tunnel,
/// or an empty list of admitted blocks, in this order.
pub proof fn law_broken_rules_are_told(config: Config, request: CreateTunnelRequest)
    ensures
        ({
            let e = create_fault(config, request);
            let named = 1 <= text::trimmed(request.name@).len() && request.name@.len() <= 80;
            let host = host_fault(request.local_host@, request.allow_lan_target);
            let placed = request.remote_port matches Some(p) ==> config.port_start <= p
                <= config.port_end;
            let front = named && request.local_port != 0 && host is None && placed;
            let fits = kind_scheme_ok(request.kind, request.local_scheme);
            let label = hostname_of(config.web_base_domain@, asked_name(request));
            &&& !named ==> e == Some("name must contain 1 to 80 characters"@)
            &&& named && request.local_port == 0 ==> e == Some("local port cannot be zero"@)
            &&& named && request.local_port != 0 && host is Some ==> e == host
            &&& named && request.local_port != 0 && host is None && !placed ==> e == Some(
                "remote port must be within "@ + text::decimal(config.port_start as nat) + "..="@
                    + text::decimal(config.port_end as nat),
            )
            &&& front && !fits ==> e == Some("local scheme is incompatible with tunnel kind"@)
            &&& front && fits && request.kind == TunnelKind::Web && label is None ==> e == Some(
                "hostname must be a DNS label containing letters, digits, or hyphens"@,
            )
            &&& front && fits && request.kind != TunnelKind::Web && request.hostname is Some ==> e
                == Some("only web tunnels may specify a hostname"@)
        }),
        text::trimmed(request.local_host@).len() == 0 ==> host_fault(
            request.local_host@,
            request.allow_lan_target,
        ) == Some("invalid local host"@),
        host_fault(request.local_host@, true) is None && host_fault(request.local_host@, false)
            is Some ==> host_fault(request.local_host@, false) == Some(
            "non-loopback targets require allow_lan_target confirmation"@,
        ),
{
}

/// A change that breaks a rule is told which, and so is one that would leave a tunnel that breaks one.
pub proof fn law_broken_rules_of_changes_are_told(
    config: Config,
    t: TunnelView,
    request: UpdateTunnelRequest,
    u: TunnelView,
)
    ensures
        ({
            let e = change_fault(config, t, request);
            let reached = request.local_host matches Some(h) ==> host_fault(
                h@,
                request.allow_lan_target,
            ) is None;
            let sent = reached && request.local_port != Some(0u16);
            let placed = sent && (request.remote_port matches Some(p) ==> t.kind != TunnelKind::Web
                && config.port_start <= p <= config.port_end);
            let kept = placed && (request.kind is None || request.kind == Some(t.kind));
            &&& request.local_host matches Some(h) ==> host_fault(h@, request.allow_lan_target)
                is Some ==> e == host_fault(h@, request.allow_lan_target)
            &&& reached && request.local_port == Some(0u16) ==> e == Some(
                "local port cannot be zero"@,
            )
            &&& sent && request.remote_port is Some && t.kind == TunnelKind::Web ==> e == Some(
                "web tunnels do not use a remote port"@,
            )
            &&& placed && !kept ==> e == Some("tunnel kind cannot be changed after creation"@)
            &&& kept && request.hostname is Some && t.kind != TunnelKind::Web ==> e == Some(
                "only web tunnels have hostnames"@,
            )
            &&& kept && t.kind == TunnelKind::Web ==> (request.hostname matches Some(h) ==> (
            hostname_of(config.web_base_domain@, h@) is None ==> e == Some(
                "hostname must be a DNS label containing letters, digits, or hyphens"@,
            )))
        }),
        ({
            let e = tunnel_fault(u);
            let named = 1 <= u.name.len() <= 80;
            let listed = named && (u.access_mode == AccessMode::Public || u.allowed_cidrs.len()
                > 0);
            let fits = listed && kind_scheme_ok(u.kind, u.local_scheme);
            &&& !named ==> e == Some("name must contain 1 to 80 characters"@)
            &&& named && !listed ==> e == Some("allowlist mode requires at least one CIDR"@)
            &&& listed && !fits ==> e == Some("local scheme is incompatible with tunnel kind"@)
            &&& fits && u.kind == TunnelKind::Web && u.hostname is None ==> e == Some(
                "web tunnel requires hostname"@,
            )
            &&& fits && u.kind != TunnelKind::Web && u.remote_port is None ==> e == Some(
                "port tunnel requires remote_port"@,
            )
            &&& fits && u.kind == TunnelKind::Web && u.hostname is Some ==> e is None
            &&& fits && u.kind != TunnelKind::Web && u.remote_port is Some ==> e is None
        }),
{
}

/// Where every port of the range is in use, a request without a port of its own is told so.
pub proof fn law_no_port_is_left(
    r: Result<(Tunnel, TunnelRow), AppError>,
    config: Config,
    rows: Seq<TunnelRow>,
    agent_id: u128,
    request: CreateTunnelRequest,
    now: Timestamp,
)
    requires
        created(r, config, rows, agent_id, request, now),
        create_fault(config, request) is None,
        lacks_port(config, rows, request),
    ensures
        r matches Err(e) && e.status() == 409 && e.reply_message()
            == "public port pool is exhausted"@,
{
}

/// A port is in use for a kind where a row of that kind has it: the row that is added counts for its own
/// kind and its own port, and for nothing else.
pub proof fn law_used_ports(rows: Seq<TunnelRow>, row: TunnelRow, kind: TunnelKind, port: u16)
    ensures
        !port_used(Seq::empty(), kind, port),
        row.kind@ == kind_text(kind) && row.remote_port == Some(port as i64) ==> port_used(
            rows.push(row),
            kind,
            port,
        ),
        row.kind@ != kind_text(kind) || row.remote_port is None ==> port_used(
            rows.push(row),
            kind,
            port,
        ) == port_used(rows, kind, port),
        port_used(rows, kind, port) ==> port_used(rows.push(row), kind, port),
{
    let all = rows.push(row);
    let n = rows.len() as int;
    assert(all[n] == row);
    assert((port as i64) as u16 == port);
    assert forall|i: int| 0 <= i < n implies all[i] == #[trigger] rows[i] by {}
    assert forall|i: int| 0 <= i < n implies #[trigger] all[i] == rows[i] by {}
}

} // verus!
