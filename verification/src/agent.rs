//! The agent: how it finds and keeps a carrier, and what it does with what comes over it.
use crate::agent_config::{
    has_room, is_text, parts_view, path_growth, read_url, url_fits, url_view, AgentConfig, UrlParts,
    UrlView,
};
use crate::protocol::{
    opt_text, ActiveTransport, AgentControlMessage, CarrierCapabilities, DirectCarrierAuth,
    GeoLocation, LocalScheme, Timestamp, TransportMode, Tunnel, TunnelKind, TunnelView,
    PROTOCOL_VERSION,
};
use crate::registry::Registry;
use crate::runtime::{
    line_says, logged, status_symbol, AgentStatus, RuntimeState, RuntimeView, Tray,
};
use crate::secrets::{
    base64_chars, base64_error, decode_standard_base64, law_standard_base64_is_injective,
    lemma_sextet, sextet, sextet_char, standard_base64,
};
use crate::state::InboundCarrierFrame;
use crate::text;
use crate::transport_identity::{
    certificate_fingerprint, fingerprint_text, identifies, TransportIdentity,
};
use crate::wire::{
    decode_carrier_frame, encode_carrier_frame, frame_bytes, frame_value, CARRIER_FRAME_DATAGRAM,
};
use vstd::arithmetic::power2::{lemma_pow2_strictly_increases, lemma_pow2_unfold, pow2};
use vstd::prelude::*;
use vstd::utf8::encode_utf8;

verus! {

// Reconnecting.
/// The number of an attempt after another; it does not grow past eight.
pub open spec fn next_attempt(attempt: u32) -> u32 {
    if attempt + 1 < 8 {
        (attempt + 1) as u32
    } else {
        8
    }
}

/// The seconds to wait after an attempt: a power of two, up to a minute.
pub open spec fn base_seconds(attempt: u32) -> nat {
    if pow2(attempt as nat) < 60 {
        pow2(attempt as nat)
    } else {
        60
    }
}

/// The milliseconds to wait after an attempt.
pub open spec fn delay_millis(attempt: u32, jitter: u64) -> int {
    base_seconds(attempt) * 1000 + jitter
}

/// `rand::Rng::random_range` of the thread's generator over 0 to 1000: a number in that range.
/// Which one is left to chance.
#[verifier::external_body]
pub(crate) fn random_jitter() -> (r: u64)
    ensures
        r <= 1000,
{
    rand::Rng::random_range(&mut rand::rng(), 0..=1_000_u64)
}

/// The number of the next attempt and the milliseconds to wait before it.
pub fn backoff(attempt: u32, jitter: u64) -> (r: (u32, u64))
    requires
        jitter <= 1000,
    ensures
        r.0 == next_attempt(attempt),
        r.1 == delay_millis(next_attempt(attempt), jitter),
{
    let next: u32 = if attempt < 7 {
        attempt + 1
    } else {
        8
    };
    let mut base: u64 = 1;
    let mut i: u32 = 0;
    proof {
        vstd::arithmetic::power2::lemma2_to64();
    }
    while i < next
        invariant
            i <= next <= 8,
            base == pow2(i as nat),
            base <= 256,
            i < 8 ==> base <= 128,
        decreases next - i,
    {
        proof {
            lemma_pow2_unfold((i + 1) as nat);
            vstd::arithmetic::power2::lemma2_to64();
            assert(i + 1 < 8 ==> pow2((i + 1) as nat) <= 128) by {
                if i + 1 < 7 {
                    lemma_pow2_strictly_increases((i + 1) as nat, 7);
                }
            }
        }
        base = 2 * base;
        i += 1;
    }
    let seconds: u64 = if base < 60 {
        base
    } else {
        60
    };
    (next, seconds * 1000 + jitter)
}

/// The wait is never under two seconds nor over sixty-one, and does not shrink from attempt to
/// attempt but for what is left to chance.
pub proof fn law_backoff_is_bounded(attempt: u32, jitter: u64)
    requires
        jitter <= 1000,
    ensures
        2000 <= delay_millis(next_attempt(attempt), jitter) <= 61000,
        base_seconds(next_attempt(attempt)) <= base_seconds(next_attempt(next_attempt(attempt))),
{
    let a = next_attempt(attempt);
    let b = next_attempt(a);
    vstd::arithmetic::power2::lemma2_to64();
    assert(pow2(a as nat) >= 2) by {
        if a > 1 {
            lemma_pow2_strictly_increases(1, a as nat);
        }
    }
    if a < b {
        lemma_pow2_strictly_increases(a as nat, b as nat);
    }
}

/// From the sixth attempt on the wait is a minute.
pub proof fn law_backoff_settles(attempt: u32)
    requires
        attempt >= 6,
    ensures
        base_seconds(attempt) == 60,
{
    vstd::arithmetic::power2::lemma2_to64();
    if attempt > 6 {
        lemma_pow2_strictly_increases(6, attempt as nat);
    }
}

/// Whether the state of an agent changed so, and the tray icon shows it.
pub open spec fn status_set(
    s: RuntimeView,
    t: RuntimeView,
    tray: Tray,
    status: AgentStatus,
    message: Seq<char>,
) -> bool {
    &&& t == RuntimeView { status, status_message: message, ..s }
    &&& tray.title@ == status_symbol(status)
    &&& tray.tooltip@ == "TunnelBridge — "@ + message
}

/// The settings to connect with. Without any the agent shows that it is not set up.
pub fn begin_attempt(state: &mut RuntimeState) -> (r: Result<AgentConfig, Tray>)
    requires
        old(state).wf(),
    ensures
        final(state).wf(),
        match old(state).config {
            Some(config) => r == Ok::<AgentConfig, Tray>(config) && final(state)@ == old(state)@,
            None => r matches Err(tray) && status_set(
                old(state)@,
                final(state)@,
                tray,
                AgentStatus::Unconfigured,
                "尚未连接服务器"@,
            ),
        },
{
    match &state.config {
        Some(config) => Ok(config.copied()),
        None => Err(state.set_status(AgentStatus::Unconfigured, "尚未连接服务器")),
    }
}

/// Shows that the token could not be read, and logs why.
pub fn token_failed(state: &mut RuntimeState, at: Timestamp, error: &str) -> (r: Tray)
    requires
        old(state).wf(),
    ensures
        final(state).wf(),
        final(state)@.events.len() > 0,
        line_says(final(state)@.events[0], at, "error"@, error@, None),
        status_set(
            RuntimeView {
                events: logged(old(state)@.events, final(state)@.events[0]),
                ..old(state)@
            },
            final(state)@,
            r,
            AgentStatus::Error,
            "无法读取设备令牌"@,
        ),
{
    let tray = state.set_status(AgentStatus::Error, "无法读取设备令牌");
    state.log(at, "error", error);
    tray
}

/// Shows that the agent is connecting.
pub fn connecting(state: &mut RuntimeState) -> (r: Tray)
    requires
        old(state).wf(),
    ensures
        final(state).wf(),
        status_set(
            old(state)@,
            final(state)@,
            r,
            AgentStatus::Connecting,
            "正在建立加密控制通道"@,
        ),
{
    state.set_status(AgentStatus::Connecting, "正在建立加密控制通道")
}

/// How a carrier ended.
#[derive(Debug, Clone, PartialEq, Eq)]
pub enum CarrierEnd {
    Closed,
    Failed(String),
}

/// What is logged of a carrier that ended.
pub open spec fn end_text(end: CarrierEnd) -> Seq<char> {
    match end {
        CarrierEnd::Closed => "控制通道已关闭"@,
        CarrierEnd::Failed(error) => "连接失败："@ + error@,
    }
}

/// Shows and logs that a carrier ended. Nothing where it was closed because the agent stops.
pub fn carrier_ended(state: &mut RuntimeState, at: Timestamp, end: CarrierEnd, cancelled: bool) -> (r:
    Option<Tray>)
    requires
        old(state).wf(),
    ensures
        final(state).wf(),
        if end is Closed && cancelled {
            r is None && final(state)@ == old(state)@
        } else {
            &&& r is Some
            &&& final(state)@.events.len() > 0
            &&& line_says(final(state)@.events[0], at, "warn"@, end_text(end), None)
            &&& status_set(
                RuntimeView {
                    events: logged(old(state)@.events, final(state)@.events[0]),
                    ..old(state)@
                },
                final(state)@,
                r->0,
                AgentStatus::Offline,
                "连接中断，正在重试"@,
            )
        },
        broke_off(old(state)@, final(state)@, r, at, end, cancelled),
{
    match end {
        CarrierEnd::Closed => {
            if cancelled {
                return None;
            }
            state.log(at, "warn", "控制通道已关闭");
        },
        CarrierEnd::Failed(error) => {
            let line = text::join("连接失败：", error.as_str());
            state.log(at, "warn", line.as_str());
        },
    }
    Some(state.set_status(AgentStatus::Offline, "连接中断，正在重试"))
}

// Choosing a carrier.
/// The carrier that a mode tries first.
pub open spec fn first_of(mode: TransportMode) -> ActiveTransport {
    match mode {
        TransportMode::Auto => ActiveTransport::Quic,
        TransportMode::Quic => ActiveTransport::Quic,
        TransportMode::Kcp => ActiveTransport::Kcp,
        TransportMode::Wss => ActiveTransport::Wss,
    }
}

/// The carrier that a mode tries first.
pub fn first_carrier(mode: TransportMode) -> (r: ActiveTransport)
    ensures
        r == first_of(mode),
{
    match mode {
        TransportMode::Auto => ActiveTransport::Quic,
        TransportMode::Quic => ActiveTransport::Quic,
        TransportMode::Kcp => ActiveTransport::Kcp,
        TransportMode::Wss => ActiveTransport::Wss,
    }
}

/// Why QUIC was given up.
pub open spec fn fallback_reason(error: Seq<char>) -> Seq<char> {
    "QUIC 不可用："@ + error
}

/// What to try once the first carrier of a mode has ended: WSS after QUIC where the agent is free to
/// choose and does not stop, and nothing else. Where QUIC failed that is logged and shown.
pub fn run_carrier(
    state: &mut RuntimeState,
    mode: TransportMode,
    end: &CarrierEnd,
    cancelled: bool,
    at: Timestamp,
) -> (r: Option<ActiveTransport>)
    requires
        old(state).wf(),
    ensures
        final(state).wf(),
        r == (if mode == TransportMode::Auto && !(*end is Closed && cancelled) {
            Some(ActiveTransport::Wss)
        } else {
            None
        }),
        match (mode, *end) {
            (TransportMode::Auto, CarrierEnd::Failed(error)) => {
                let t = final(state)@;
                &&& t.events.len() > 0
                &&& line_says(
                    t.events[0],
                    at,
                    "warn"@,
                    fallback_reason(error@) + "，已回退 WSS"@,
                    None,
                )
                &&& opt_text(t.transport_fallback_reason) == Some(fallback_reason(error@))
                &&& t == (RuntimeView {
                    events: logged(old(state)@.events, t.events[0]),
                    active_transport: Some(ActiveTransport::Wss),
                    transport_fallback_reason: t.transport_fallback_reason,
                    ..old(state)@
                })
            },
            _ => final(state)@ == old(state)@,
        },
{
    match mode {
        TransportMode::Auto => match end {
            CarrierEnd::Closed => if cancelled {
                None
            } else {
                Some(ActiveTransport::Wss)
            },
            CarrierEnd::Failed(error) => {
                let reason = text::join("QUIC 不可用：", error.as_str());
                let line = text::join(reason.as_str(), "，已回退 WSS");
                state.log(at, "warn", line.as_str());
                state.set_transport(ActiveTransport::Wss, Some(reason));
                Some(ActiveTransport::Wss)
            },
        },
        _ => None,
    }
}

/// The port of the relay for a carrier: the one that is kept, or the usual one where that is zero.
pub open spec fn port_for(config: AgentConfig, transport: ActiveTransport) -> u16 {
    match transport {
        ActiveTransport::Kcp => if config.kcp_port == 0 {
            4000
        } else {
            config.kcp_port
        },
        _ => if config.quic_port == 0 {
            443
        } else {
            config.quic_port
        },
    }
}

/// The port of the relay for a carrier.
pub fn carrier_port(config: &AgentConfig, transport: ActiveTransport) -> (r: u16)
    ensures
        r == port_for(*config, transport),
{
    match transport {
        ActiveTransport::Kcp => if config.kcp_port == 0 {
            4000
        } else {
            config.kcp_port
        },
        _ => if config.quic_port == 0 {
            443
        } else {
            config.quic_port
        },
    }
}

/// The host that the parts of a URL name, or what is wrong with it.
pub open spec fn host_in(parts: Result<UrlView, Seq<char>>) -> Result<Seq<char>, Seq<char>> {
    match parts {
        Err(e) => Err(e),
        Ok(url) => match url.host {
            Some(host) => Ok(host),
            None => Err("服务器地址缺少主机"@),
        },
    }
}

/// The host that the parts of a URL name.
pub fn host_of_parts(parts: Result<UrlParts, String>) -> (r: Result<String, String>)
    ensures
        is_text(r, host_in(parts_view(parts))),
{
    match parts {
        Ok(url) => match url.host {
            Some(host) => Ok(host),
            None => Err("服务器地址缺少主机".to_owned()),
        },
        Err(e) => Err(e),
    }
}

/// The host of the relay.
pub fn relay_host(config: &AgentConfig) -> (r: Result<String, String>)
    ensures
        is_text(r, host_in(url_view(config.server_url@))),
{
    host_of_parts(read_url(config.server_url.as_str()))
}

/// The URL that a text names, with another scheme and another path.
pub uninterp spec fn url_with(
    text: Seq<char>,
    scheme: Seq<char>,
    path: Seq<char>,
) -> Option<Seq<char>>;

/// How many bytes a scheme adds to a URL in place of another.
pub open spec fn scheme_growth(old_scheme: Seq<char>, scheme: Seq<char>) -> nat {
    let (a, b) = (encode_utf8(old_scheme).len(), encode_utf8(scheme).len());
    if a < b {
        (b - a) as nat
    } else {
        0
    }
}

/// `url::Url::parse`, then `set_scheme` and `set_path`: the URL that the text names with the scheme
/// and the path put in place of its own, where the text is a URL and the scheme can be set. It
/// starts with the new scheme and a colon; that is said of schemes in lower-case letters, which are
/// taken as they stand. The setters fail where a part of the URL would begin past four gigabytes,
/// which is ruled out.
#[verifier::external_body]
fn read_url_with(text: &str, scheme: &str, path: &str) -> (r: Option<String>)
    requires
        url_view(text@) matches Ok(url) ==> has_room(
            url.text,
            scheme_growth(url.scheme, scheme@) + path_growth(path@),
        ),
    ensures
        opt_text(r) == url_with(text@, scheme@, path@),
        r matches Some(url) ==> (forall|i: int|
            0 <= i < scheme@.len() ==> 'a' <= #[trigger] scheme@[i] <= 'z') ==> text::has_prefix(
            url@,
            scheme@.push(':'),
        ),
{
    let mut url = url::Url::parse(text).ok()?;
    url.set_scheme(scheme).ok()?;
    url.set_path(path);
    Some(url.as_str().to_owned())
}

/// The scheme of the WebSocket that goes with a scheme.
pub open spec fn socket_scheme(scheme: Seq<char>) -> Seq<char> {
    if scheme == "https"@ {
        "wss"@
    } else {
        "ws"@
    }
}

/// The scheme of the WebSocket that goes with a scheme.
pub fn websocket_scheme(scheme: &str) -> (r: &'static str)
    ensures
        r@ == socket_scheme(scheme@),
{
    if text::same(scheme, "https") {
        "wss"
    } else {
        "ws"
    }
}

/// Whether a result is the address of a WebSocket of the relay, or what is wrong with it.
pub open spec fn is_socket(r: Result<String, String>, server_url: Seq<char>, path: Seq<char>) -> bool {
    match url_view(server_url) {
        Err(error) => r matches Err(e) && e@ == error,
        Ok(url) => match url_with(server_url, socket_scheme(url.scheme), path) {
            Some(address) => r matches Ok(a) && a@ == address && text::has_prefix(
                a@,
                socket_scheme(url.scheme).push(':'),
            ),
            None => r matches Err(e) && e@ == "无法转换 WebSocket 地址"@,
        },
    }
}

/// Whether the address of a WebSocket has room for a path.
pub open spec fn socket_fits(server_url: Seq<char>, path: Seq<char>) -> bool {
    url_view(server_url) matches Ok(url) ==> has_room(
        url.text,
        scheme_growth(url.scheme, socket_scheme(url.scheme)) + path_growth(path),
    )
}

/// The address of a WebSocket of the relay; nothing where the parts of its URL go past four
/// gigabytes.
pub fn websocket_within_bounds(server_url: &str, path: &str) -> (r: Option<Result<String, String>>)
    ensures
        r is Some <==> socket_fits(server_url@, path@),
        r matches Some(address) ==> is_socket(address, server_url@, path@),
{
    let fits: bool = match read_url(server_url) {
        Ok(url) => {
            let scheme = websocket_scheme(url.scheme.as_str());
            let (a, b): (u128, u128) = (
                url.scheme.as_str().as_bytes().len() as u128,
                scheme.as_bytes().len() as u128,
            );
            let longer: u128 = if a < b {
                b - a
            } else {
                0
            };
            let count: u128 = path.as_bytes().len() as u128;
            let growth: u128 = if path.unicode_len() == 0 {
                0
            } else {
                3 * count + 1
            };
            url_fits(url.text.as_str(), longer + growth)
        },
        Err(_) => true,
    };
    if fits {
        Some(websocket_url(server_url, path))
    } else {
        None
    }
}

/// The address of a WebSocket of the relay.
pub fn websocket_url(server_url: &str, path: &str) -> (r: Result<String, String>)
    requires
        socket_fits(server_url@, path@),
    ensures
        is_socket(r, server_url@, path@),
{
    proof {
        reveal_strlit("ws");
        reveal_strlit("wss");
    }
    let url = match read_url(server_url) {
        Ok(url) => url,
        Err(e) => {
            return Err(e);
        },
    };
    match read_url_with(server_url, websocket_scheme(url.scheme.as_str()), path) {
        Some(address) => Ok(address),
        None => Err("无法转换 WebSocket 地址".to_owned()),
    }
}

/// What is said of a stored certificate that cannot be read.
pub open spec fn unread_text(transport: ActiveTransport, stored: Seq<char>) -> Seq<char> {
    let error = base64_error(text::trimmed(stored));
    if transport == ActiveTransport::Kcp {
        error
    } else {
        "解析固定的传输证书: "@ + error
    }
}

/// The certificate of the relay that was kept at enrolment, from its text.
pub fn stored_certificate(transport: ActiveTransport, stored: &str) -> (r: Result<Vec<u8>, String>)
    ensures
        match r {
            Ok(der) => text::trimmed(stored@) == standard_base64(der@),
            Err(e) => e@ == unread_text(transport, stored@) && forall|der: Seq<u8>|
                text::trimmed(stored@) != #[trigger] standard_base64(der),
        },
{
    match decode_standard_base64(text::trim(stored)) {
        Ok(der) => Ok(der),
        Err(e) => match transport {
            ActiveTransport::Kcp => Err(e),
            _ => Err(text::join("解析固定的传输证书: ", e.as_str())),
        },
    }
}

/// Whether the public key of a certificate has the digest that was kept at enrolment.
pub fn check_pin(der: &[u8], expected: &str) -> (r: Result<(), String>)
    ensures
        r is Ok <==> fingerprint_text(der@) == Some(expected@),
        r matches Err(e) ==> e@ == "传输证书指纹与注册记录不匹配"@,
{
    let pinned: bool = match certificate_fingerprint(der) {
        Some(actual) => text::same(actual.as_str(), expected),
        None => false,
    };
    if pinned {
        Ok(())
    } else {
        Err("传输证书指纹与注册记录不匹配".to_owned())
    }
}

/// Whether a text is the base64 form of a certificate whose public key has a digest.
pub open spec fn pins(stored: Seq<char>, expected: Seq<char>, der: Seq<u8>) -> bool {
    text::trimmed(stored) == standard_base64(der) && fingerprint_text(der) == Some(expected)
}

/// The certificate and the digest that a relay hands out at enrolment are taken back together: the
/// agent connects to that certificate and to no other.
pub proof fn law_pins_are_taken_back(identity: TransportIdentity, private_key_pem: Vec<u8>)
    requires
        identifies(
            Ok::<TransportIdentity, String>(identity),
            identity.certificate@,
            private_key_pem,
        ),
    ensures
        pins(
            standard_base64(identity.certificate@),
            identity.fingerprint@,
            identity.certificate@,
        ),
        forall|der: Seq<u8>|
            pins(standard_base64(identity.certificate@), identity.fingerprint@, der) ==> der
                == identity.certificate@,
{
    let certificate = identity.certificate@;
    lemma_base64_has_no_space(certificate);
    assert forall|der: Seq<u8>|
        pins(standard_base64(certificate), identity.fingerprint@, der) implies der
        == certificate by {
        law_standard_base64_is_injective(der, certificate);
    }
}

/// A base64 text has no white space at its ends.
proof fn lemma_base64_has_no_space(bytes: Seq<u8>)
    ensures
        text::trimmed(standard_base64(bytes)) == standard_base64(bytes),
{
    let s = standard_base64(bytes);
    let chars = base64_chars(bytes, '+', '/');
    assert forall|i: int| 0 <= i < s.len() implies !text::is_white(#[trigger] s[i]) by {
        if i < chars.len() {
            lemma_sextet(bytes, i);
            assert(s[i] == sextet_char(sextet(bytes, i), '+', '/'));
        }
    }
    if s.len() > 0 {
        assert(s.last() == s[s.len() - 1]);
    }
}

// Greeting.
/// The carriers that an agent names when it greets over one.
pub open spec fn named_transports(transport: ActiveTransport) -> Seq<ActiveTransport> {
    match transport {
        ActiveTransport::Quic => seq![ActiveTransport::Quic, ActiveTransport::Wss],
        ActiveTransport::Kcp => seq![ActiveTransport::Kcp],
        ActiveTransport::Wss => seq![ActiveTransport::Wss],
    }
}

/// Whether a message greets the relay.
pub open spec fn greets(
    message: AgentControlMessage,
    config: AgentConfig,
    transport: ActiveTransport,
) -> bool {
    message matches AgentControlMessage::Hello {
        protocol_version,
        agent_id,
        name,
        capabilities,
        config_version,
    } && protocol_version == PROTOCOL_VERSION && agent_id == config.installation_id && name
        == config.device_name && capabilities.transports@ == named_transports(transport)
        && capabilities.tunnel_kinds@ == seq![TunnelKind::Tcp, TunnelKind::Udp, TunnelKind::Web]
        && config_version == 0
}

/// The message that greets the relay over a carrier.
pub fn hello(config: &AgentConfig, transport: ActiveTransport) -> (r: AgentControlMessage)
    ensures
        greets(r, *config, transport),
{
    let mut transports: Vec<ActiveTransport> = Vec::new();
    transports.push(transport);
    if transport == ActiveTransport::Quic {
        transports.push(ActiveTransport::Wss);
    }
    assert(transports@ =~= named_transports(transport));
    let mut tunnel_kinds: Vec<TunnelKind> = Vec::new();
    tunnel_kinds.push(TunnelKind::Tcp);
    tunnel_kinds.push(TunnelKind::Udp);
    tunnel_kinds.push(TunnelKind::Web);
    assert(tunnel_kinds@ =~= seq![TunnelKind::Tcp, TunnelKind::Udp, TunnelKind::Web]);
    AgentControlMessage::Hello {
        protocol_version: PROTOCOL_VERSION,
        agent_id: config.installation_id,
        name: config.device_name.clone(),
        capabilities: CarrierCapabilities { transports, tunnel_kinds },
        config_version: 0,
    }
}

/// The first record of a QUIC or KCP carrier.
pub fn direct_greeting(config: &AgentConfig, token: &str, transport: ActiveTransport) -> (r:
    DirectCarrierAuth)
    ensures
        r.token@ == token@,
        greets(r.hello, *config, transport),
{
    DirectCarrierAuth { token: token.to_owned(), hello: hello(config, transport) }
}

/// The greeting of an agent is one that the relay takes.
pub proof fn law_agents_speak_the_version(
    message: AgentControlMessage,
    config: AgentConfig,
    transport: ActiveTransport,
)
    requires
        greets(message, config, transport),
    ensures
        crate::carrier::speaks(message),
{
}

/// What is shown and logged of a carrier that is up.
pub open spec fn online_text(transport: ActiveTransport) -> (Seq<char>, Seq<char>) {
    match transport {
        ActiveTransport::Wss => ("控制通道已连接"@, "已连接中继服务器"@),
        ActiveTransport::Quic => ("QUIC 承载已连接"@, "已通过 QUIC 连接中继服务器"@),
        ActiveTransport::Kcp => ("KCP 承载已连接"@, "已通过 KCP/TLS 连接中继服务器"@),
    }
}

/// Shows and logs that a carrier is up. Over WSS the carrier in use is shown once the relay has
/// welcomed the agent.
pub fn carrier_online(state: &mut RuntimeState, transport: ActiveTransport, at: Timestamp) -> (r:
    Tray)
    requires
        old(state).wf(),
    ensures
        final(state).wf(),
        final(state)@.events.len() > 0,
        line_says(final(state)@.events[0], at, "info"@, online_text(transport).1, None),
        status_set(
            RuntimeView {
                events: logged(old(state)@.events, final(state)@.events[0]),
                active_transport: if transport == ActiveTransport::Wss {
                    old(state)@.active_transport
                } else {
                    Some(transport)
                },
                transport_fallback_reason: if transport == ActiveTransport::Wss {
                    old(state)@.transport_fallback_reason
                } else {
                    None
                },
                ..old(state)@
            },
            final(state)@,
            r,
            AgentStatus::Online,
            online_text(transport).0,
        ),
        came_online(old(state)@, final(state)@, r, transport, at),
{
    match transport {
        ActiveTransport::Wss => {
            let tray = state.set_status(AgentStatus::Online, "控制通道已连接");
            state.log(at, "info", "已连接中继服务器");
            tray
        },
        ActiveTransport::Quic => {
            let tray = state.set_status(AgentStatus::Online, "QUIC 承载已连接");
            state.set_transport(ActiveTransport::Quic, None);
            state.log(at, "info", "已通过 QUIC 连接中继服务器");
            tray
        },
        ActiveTransport::Kcp => {
            let tray = state.set_status(AgentStatus::Online, "KCP 承载已连接");
            state.set_transport(ActiveTransport::Kcp, None);
            state.log(at, "info", "已通过 KCP/TLS 连接中继服务器");
            tray
        },
    }
}

// What comes over a carrier.
/// What comes over a carrier, or is due on it.
#[derive(Debug, Clone, PartialEq, Eq)]
pub enum AgentEvent {
    /// A control message.
    Control(AgentControlMessage),
    /// A frame of a stream.
    Frame(Vec<u8>),
    /// It is time for a sign of life.
    Heartbeat,
    /// It is time to see whether QUIC can be had again.
    Probe,
    /// The relay asks for a sign of life.
    PeerPing,
    /// The relay has closed the carrier.
    Closed,
    /// The carrier failed, or brought what cannot be read.
    Failed(String),
    /// The agent stops.
    Cancelled,
}

/// What to do about it.
#[derive(Debug, Clone, PartialEq, Eq)]
pub enum AgentAction {
    Wait,
    /// Send a message to the relay.
    Send(AgentControlMessage),
    /// Hand a frame to a stream.
    Deliver(u64, InboundCarrierFrame),
    /// Connect to the target of a tunnel.
    Open { connection_id: u128, tunnel: Tunnel, ticket: String },
    /// Open a socket to the target of a UDP tunnel.
    OpenUdp { session_id: u128, tunnel: Tunnel, ticket: String },
    /// Close the carrier where it is not closed yet; all is well.
    End { close: bool },
    /// Give the carrier up.
    Fail { close: bool, reason: String },
}

/// What is said where the relay speaks another version.
pub open spec fn version_text(transport: ActiveTransport, version: u16) -> Seq<char> {
    if transport == ActiveTransport::Wss {
        "协议版本不兼容：服务器 "@ + text::decimal(version as nat) + "，客户端 "@ + text::decimal(
            PROTOCOL_VERSION as nat,
        )
    } else {
        "协议版本不兼容"@
    }
}

/// The reason where the relay speaks another version.
fn version_reason(transport: ActiveTransport, version: u16) -> (r: String)
    ensures
        r@ == version_text(transport, version),
{
    if transport == ActiveTransport::Wss {
        let mut out: String = "协议版本不兼容：服务器 ".to_owned();
        out.append(text::decimal_text(version as u64).as_str());
        out.append("，客户端 ");
        out.append(text::decimal_text(PROTOCOL_VERSION as u64).as_str());
        out
    } else {
        "协议版本不兼容".to_owned()
    }
}

/// What is logged of a source that wants in.
pub open spec fn arrival_text(name: Seq<char>, peer: Seq<char>, udp: bool) -> Seq<char> {
    name + " 收到来自 "@ + peer + (if udp {
        " 的 UDP 会话"@
    } else {
        " 的连接"@
    })
}

/// Logs a source that wants in.
fn log_arrival(
    state: &mut RuntimeState,
    at: Timestamp,
    name: &str,
    peer: &str,
    udp: bool,
    location: Option<GeoLocation>,
)
    requires
        old(state).wf(),
    ensures
        final(state).wf(),
        final(state)@.events.len() > 0,
        line_says(
            final(state)@.events[0],
            at,
            "info"@,
            arrival_text(name@, peer@, udp),
            location,
        ),
        final(state)@ == (RuntimeView {
            events: logged(old(state)@.events, final(state)@.events[0]),
            ..old(state)@
        }),
{
    let mut line: String = name.to_owned();
    line.append(" 收到来自 ");
    line.append(peer);
    if udp {
        line.append(" 的 UDP 会话");
    } else {
        line.append(" 的连接");
    }
    state.log_with_location(at, "info", line.as_str(), location);
}

/// What a control message leaves of what the agent knows, and whether an action answers it.
pub open spec fn dispatched(
    s: RuntimeView,
    t: RuntimeView,
    action: AgentAction,
    transport: ActiveTransport,
    message: AgentControlMessage,
    at: Timestamp,
) -> bool {
    match message {
        AgentControlMessage::Welcome { protocol_version, transport: named, .. } => if protocol_version
            != PROTOCOL_VERSION {
            &&& action matches AgentAction::Fail { close, reason }
            &&& !close
            &&& reason@ == version_text(transport, protocol_version)
            &&& t == s
        } else {
            &&& action is Wait
            &&& t == RuntimeView {
                active_transport: Some(
                    match named {
                        Some(named) => named,
                        None => if transport == ActiveTransport::Wss {
                            ActiveTransport::Wss
                        } else {
                            ActiveTransport::Quic
                        },
                    },
                ),
                transport_fallback_reason: None,
                ..s
            }
        },
        AgentControlMessage::ConfigSync { tunnels } => action is Wait && t == (RuntimeView {
            tunnels: tunnels@,
            ..s
        }),
        AgentControlMessage::OpenConnection {
            connection_id,
            tunnel,
            peer_addr,
            peer_location,
            ticket,
            ..
        } => {
            &&& action == (AgentAction::Open { connection_id, tunnel, ticket })
            &&& t.events.len() > 0
            &&& line_says(
                t.events[0],
                at,
                "info"@,
                arrival_text(tunnel.name@, peer_addr@, false),
                peer_location,
            )
            &&& t == RuntimeView {
                events: logged(s.events, t.events[0]),
                metrics: if transport == ActiveTransport::Wss {
                    crate::protocol::MetricsSnapshot {
                        active_connections: s.metrics.active_connections.wrapping_add(1),
                        ..s.metrics
                    }
                } else {
                    s.metrics
                },
                ..s
            }
        },
        AgentControlMessage::OpenUdpSession {
            session_id,
            tunnel,
            peer_addr,
            peer_location,
            ticket,
            ..
        } => {
            &&& action == (AgentAction::OpenUdp { session_id, tunnel, ticket })
            &&& t.events.len() > 0
            &&& line_says(
                t.events[0],
                at,
                "info"@,
                arrival_text(tunnel.name@, peer_addr@, true),
                peer_location,
            )
            &&& t == RuntimeView { events: logged(s.events, t.events[0]), ..s }
        },
        AgentControlMessage::Error { code, message } => {
            &&& action is Wait
            &&& t.events.len() > 0
            &&& line_says(
                t.events[0],
                at,
                "error"@,
                "服务器错误 "@ + code@ + "："@ + message@,
                None,
            )
            &&& t == RuntimeView { events: logged(s.events, t.events[0]), ..s }
        },
        _ => action is Wait && t == s,
    }
}

/// Takes a control message of the relay.
pub fn dispatch_control_message(
    state: &mut RuntimeState,
    transport: ActiveTransport,
    message: AgentControlMessage,
    at: Timestamp,
) -> (r: AgentAction)
    requires
        old(state).wf(),
    ensures
        final(state).wf(),
        dispatched(old(state)@, final(state)@, r, transport, message, at),
{
    match message {
        AgentControlMessage::Welcome { protocol_version, transport: named, .. } => {
            if protocol_version != PROTOCOL_VERSION {
                return AgentAction::Fail {
                    close: false,
                    reason: version_reason(transport, protocol_version),
                };
            }
            let used: ActiveTransport = match named {
                Some(named) => named,
                None => if transport == ActiveTransport::Wss {
                    ActiveTransport::Wss
                } else {
                    ActiveTransport::Quic
                },
            };
            state.set_transport(used, None);
            AgentAction::Wait
        },
        AgentControlMessage::ConfigSync { tunnels } => {
            state.tunnels = tunnels;
            AgentAction::Wait
        },
        AgentControlMessage::OpenConnection {
            connection_id,
            tunnel,
            peer_addr,
            peer_location,
            ticket,
            ..
        } => {
            log_arrival(
                state,
                at,
                tunnel.name.as_str(),
                peer_addr.as_str(),
                false,
                peer_location,
            );
            if transport == ActiveTransport::Wss {
                state.metrics.active_connections =
                    state.metrics.active_connections.wrapping_add(1);
            }
            AgentAction::Open { connection_id, tunnel, ticket }
        },
        AgentControlMessage::OpenUdpSession {
            session_id,
            tunnel,
            peer_addr,
            peer_location,
            ticket,
            ..
        } => {
            log_arrival(
                state,
                at,
                tunnel.name.as_str(),
                peer_addr.as_str(),
                true,
                peer_location,
            );
            AgentAction::OpenUdp { session_id, tunnel, ticket }
        },
        AgentControlMessage::Error { code, message } => {
            let mut line: String = "服务器错误 ".to_owned();
            line.append(code.as_str());
            line.append("：");
            line.append(message.as_str());
            state.log(at, "error", line.as_str());
            AgentAction::Wait
        },
        _ => AgentAction::Wait,
    }
}

/// Whether two messages offer streams of one tunnel for one source, whatever their tickets.
pub open spec fn offer_alike(a: AgentControlMessage, b: AgentControlMessage) -> bool {
    match (a, b) {
        (
            AgentControlMessage::OpenConnection { tunnel, peer_addr, peer_location, .. },
            AgentControlMessage::OpenConnection {
                tunnel: other,
                peer_addr: other_addr,
                peer_location: other_location,
                ..
            },
        ) => tunnel.name@ == other.name@ && peer_addr@ == other_addr@ && peer_location
            == other_location,
        (
            AgentControlMessage::OpenUdpSession { tunnel, peer_addr, peer_location, .. },
            AgentControlMessage::OpenUdpSession {
                tunnel: other,
                peer_addr: other_addr,
                peer_location: other_location,
                ..
            },
        ) => tunnel.name@ == other.name@ && peer_addr@ == other_addr@ && peer_location
            == other_location,
        _ => false,
    }
}

/// Tickets do not get into the log: what is logged of an offer is the same whatever its ticket.
pub proof fn law_tickets_are_not_logged(
    s: RuntimeView,
    t: RuntimeView,
    u: RuntimeView,
    a: AgentAction,
    b: AgentAction,
    transport: ActiveTransport,
    message: AgentControlMessage,
    other: AgentControlMessage,
    at: Timestamp,
)
    requires
        offer_alike(message, other),
        dispatched(s, t, a, transport, message, at),
        dispatched(s, u, b, transport, other, at),
    ensures
        t.events.len() == u.events.len(),
        t.events[0].at == u.events[0].at,
        t.events[0].level@ == u.events[0].level@,
        t.events[0].message@ == u.events[0].message@,
        t.events[0].peer_location == u.events[0].peer_location,
        t.events.skip(1) == u.events.skip(1),
{
    assert(t.events.skip(1) =~= u.events.skip(1));
}

/// The streams that are open on a carrier, each with what takes its frames.
pub struct LocalStreams {
    pub streams: Registry<u128, u64>,
}

impl LocalStreams {
    pub open spec fn wf(&self) -> bool {
        self.streams.wf()
    }

    pub open spec fn view(&self) -> Map<u128, u64> {
        self.streams@
    }

    /// No streams.
    pub fn new() -> (r: Self)
        ensures
            r.wf(),
            r@ == Map::<u128, u64>::empty(),
    {
        LocalStreams { streams: Registry::new() }
    }

    /// Forgets a stream.
    pub fn remove(&mut self, id: u128)
        requires
            old(self).wf(),
        ensures
            final(self).wf(),
            final(self)@ == old(self)@.remove(id),
    {
        self.streams.remove(&id);
    }
}

/// Where a frame goes: to the stream that it names, where that is open.
pub open spec fn routed(streams: Map<u128, u64>, frame: Seq<u8>, action: AgentAction) -> bool {
    match frame_value(frame) {
        Some((kind, id, payload)) => if streams.contains_key(id) {
            action matches AgentAction::Deliver(stream, inbound) && stream == streams[id]
                && inbound.kind == kind && inbound.payload@ == payload
        } else {
            action is Wait
        },
        None => action is Wait,
    }
}

/// Where a frame goes.
pub fn route_local_frame(streams: &LocalStreams, frame: &[u8]) -> (r: AgentAction)
    requires
        streams.wf(),
    ensures
        routed(streams@, frame@, r),
{
    match decode_carrier_frame(frame) {
        Some((kind, id, payload)) => match streams.streams.get(&id) {
            Some(stream) => AgentAction::Deliver(*stream, InboundCarrierFrame { kind, payload }),
            None => AgentAction::Wait,
        },
        None => AgentAction::Wait,
    }
}

/// What an event leaves of what the agent knows, and whether an action answers it.
pub open spec fn stepped(
    s: RuntimeView,
    t: RuntimeView,
    streams: Map<u128, u64>,
    action: AgentAction,
    transport: ActiveTransport,
    mode: TransportMode,
    event: AgentEvent,
    at: Timestamp,
) -> bool {
    match event {
        AgentEvent::Control(message) => dispatched(s, t, action, transport, message, at),
        AgentEvent::Frame(frame) => routed(streams, frame@, action) && t == s,
        AgentEvent::Heartbeat => action == AgentAction::Send(
            AgentControlMessage::Ping { sent_at: at },
        ) && t == s,
        AgentEvent::Probe => {
            &&& t == s
            &&& if transport == ActiveTransport::Wss && mode == TransportMode::Auto {
                action matches AgentAction::Fail { close, reason } && close && reason@
                    == "定期重新探测 QUIC"@
            } else {
                action is Wait
            }
        },
        AgentEvent::PeerPing => action == AgentAction::Send(
            AgentControlMessage::Pong { sent_at: at },
        ) && t == s,
        AgentEvent::Closed => action == (AgentAction::End { close: false }) && t == s,
        AgentEvent::Failed(reason) => action == (AgentAction::Fail { close: false, reason }) && t
            == s,
        AgentEvent::Cancelled => action == (AgentAction::End { close: true }) && t == s,
    }
}

/// Takes what comes over a carrier, or is due on it.
pub fn agent_step(
    state: &mut RuntimeState,
    streams: &LocalStreams,
    transport: ActiveTransport,
    mode: TransportMode,
    event: AgentEvent,
    at: Timestamp,
) -> (r: AgentAction)
    requires
        old(state).wf(),
        streams.wf(),
    ensures
        final(state).wf(),
        stepped(old(state)@, final(state)@, streams@, r, transport, mode, event, at),
{
    match event {
        AgentEvent::Control(message) => dispatch_control_message(state, transport, message, at),
        AgentEvent::Frame(frame) => route_local_frame(streams, frame.as_slice()),
        AgentEvent::Heartbeat => AgentAction::Send(AgentControlMessage::Ping { sent_at: at }),
        AgentEvent::Probe => if transport == ActiveTransport::Wss && mode == TransportMode::Auto {
            AgentAction::Fail { close: true, reason: "定期重新探测 QUIC".to_owned() }
        } else {
            AgentAction::Wait
        },
        AgentEvent::PeerPing => AgentAction::Send(AgentControlMessage::Pong { sent_at: at }),
        AgentEvent::Closed => AgentAction::End { close: false },
        AgentEvent::Failed(reason) => AgentAction::Fail { close: false, reason },
        AgentEvent::Cancelled => AgentAction::End { close: true },
    }
}

/// Runs a WSS carrier for one event.
pub fn run_wss_carrier(
    state: &mut RuntimeState,
    streams: &LocalStreams,
    mode: TransportMode,
    event: AgentEvent,
    at: Timestamp,
) -> (r: AgentAction)
    requires
        old(state).wf(),
        streams.wf(),
    ensures
        final(state).wf(),
        stepped(old(state)@, final(state)@, streams@, r, ActiveTransport::Wss, mode, event, at),
{
    agent_step(state, streams, ActiveTransport::Wss, mode, event, at)
}

/// Runs a QUIC carrier for one event.
pub fn run_quic_carrier(
    state: &mut RuntimeState,
    streams: &LocalStreams,
    mode: TransportMode,
    event: AgentEvent,
    at: Timestamp,
) -> (r: AgentAction)
    requires
        old(state).wf(),
        streams.wf(),
    ensures
        final(state).wf(),
        stepped(old(state)@, final(state)@, streams@, r, ActiveTransport::Quic, mode, event, at),
{
    agent_step(state, streams, ActiveTransport::Quic, mode, event, at)
}

/// Runs a KCP carrier for one event.
pub fn run_kcp_carrier(
    state: &mut RuntimeState,
    streams: &LocalStreams,
    mode: TransportMode,
    event: AgentEvent,
    at: Timestamp,
) -> (r: AgentAction)
    requires
        old(state).wf(),
        streams.wf(),
    ensures
        final(state).wf(),
        stepped(old(state)@, final(state)@, streams@, r, ActiveTransport::Kcp, mode, event, at),
{
    agent_step(state, streams, ActiveTransport::Kcp, mode, event, at)
}

/// An offer of the relay reaches the agent as it was made: the same stream, the same tunnel and the
/// same ticket.
pub proof fn law_offers_arrive(
    s: RuntimeView,
    t: RuntimeView,
    action: AgentAction,
    transport: ActiveTransport,
    message: AgentControlMessage,
    at: Timestamp,
    flow: crate::gateway::Flow,
    id: u128,
    tunnel: TunnelView,
    peer: crate::socket::SocketAddr,
    location: Option<GeoLocation>,
    shown: Seq<char>,
    wall: Timestamp,
    ttl: u64,
)
    requires
        crate::gateway::asks(message, flow, id, tunnel, peer, location, shown, wall, ttl),
        dispatched(s, t, action, transport, message, at),
    ensures
        match action {
            AgentAction::Open { connection_id, tunnel: target, ticket } => flow
                != crate::gateway::Flow::Udp && connection_id == id && target@ == tunnel && ticket@
                == shown,
            AgentAction::OpenUdp { session_id, tunnel: target, ticket } => flow
                == crate::gateway::Flow::Udp && session_id == id && target@ == tunnel && ticket@
                == shown,
            _ => false,
        },
{
}

// Streams to local targets.
/// Whether a message acknowledges an offer.
pub open spec fn acknowledges(
    message: AgentControlMessage,
    id: u128,
    accepted: bool,
    error: Option<Seq<char>>,
    ticket: Seq<char>,
) -> bool {
    message matches AgentControlMessage::ConnectionAck {
        connection_id,
        accepted: yes,
        error: reason,
        ticket: shown,
    } && connection_id == id && yes == accepted && opt_text(reason) == error && opt_text(shown)
        == Some(ticket)
}

/// The message that declines an offer because its target could not be reached.
pub fn decline(id: u128, ticket: String, error: &str, udp: bool) -> (r: AgentControlMessage)
    ensures
        acknowledges(
            r,
            id,
            false,
            Some(
                (if udp {
                    "连接本地 UDP 目标失败："@
                } else {
                    "连接本地目标失败："@
                }) + error@,
            ),
            ticket@,
        ),
{
    let reason = if udp {
        text::join("连接本地 UDP 目标失败：", error)
    } else {
        text::join("连接本地目标失败：", error)
    };
    AgentControlMessage::ConnectionAck {
        connection_id: id,
        accepted: false,
        error: Some(reason),
        ticket: Some(ticket),
    }
}

/// Opens a stream whose target was reached; hands back the message that accepts the offer.
pub fn accept(streams: &mut LocalStreams, id: u128, stream: u64, ticket: String) -> (r:
    AgentControlMessage)
    requires
        old(streams).wf(),
    ensures
        final(streams).wf(),
        final(streams)@ == old(streams)@.insert(id, stream),
        acknowledges(r, id, true, None, ticket@),
{
    streams.streams.insert(id, stream);
    AgentControlMessage::ConnectionAck {
        connection_id: id,
        accepted: true,
        error: None,
        ticket: Some(ticket),
    }
}

/// The answer of an agent to an offer opens the stream at the relay, in time.
pub proof fn law_acceptance_opens_the_stream(
    s: crate::state::AppView,
    t: crate::state::AppView,
    id: u128,
    agent_id: u128,
    ticket: Seq<char>,
    stream: u64,
    ack: u64,
    now: u128,
    later: u128,
    message: AgentControlMessage,
    transport: ActiveTransport,
    action: crate::carrier::CarrierAction,
)
    requires
        crate::gateway::offered(s, t, id, agent_id, ticket, stream, ack, now),
        later < crate::clock::instant_after(now, s.config.ticket_ttl),
        acknowledges(message, id, true, None, ticket),
        crate::carrier::carrier_answer(
            action,
            t,
            agent_id,
            transport,
            crate::carrier::CarrierEvent::Control(message),
            later,
        ),
    ensures
        action matches crate::carrier::CarrierAction::Acknowledge(a) && a.ack == ack
            && a.result is Ok,
{
}

/// Whether the target of a tunnel is reached over TLS.
pub fn needs_tls(tunnel: &Tunnel) -> (r: bool)
    ensures
        r == (tunnel.kind == TunnelKind::Web && tunnel.local_scheme == LocalScheme::Https),
{
    tunnel.kind == TunnelKind::Web && tunnel.local_scheme == LocalScheme::Https
}

/// What a stream that ended leaves of the counters of the agent.
pub open spec fn without_stream(
    m: crate::protocol::MetricsSnapshot,
    transport: ActiveTransport,
    failed: bool,
) -> crate::protocol::MetricsSnapshot {
    if transport != ActiveTransport::Wss {
        m
    } else {
        crate::protocol::MetricsSnapshot {
            active_connections: if m.active_connections == 0 {
                0
            } else {
                (m.active_connections - 1) as u64
            },
            failed_connections: if failed {
                m.failed_connections.wrapping_add(1)
            } else {
                m.failed_connections
            },
            ..m
        }
    }
}

/// What is known once a stream has ended, in good order or with an error.
pub open spec fn stream_noted(
    s: RuntimeView,
    t: RuntimeView,
    transport: ActiveTransport,
    error: Option<Seq<char>>,
    at: Timestamp,
) -> bool {
    match error {
        None => t == (RuntimeView {
            metrics: without_stream(s.metrics, transport, false),
            ..s
        }),
        Some(error) => {
            &&& t.events.len() > 0
            &&& line_says(t.events[0], at, "error"@, "转发连接失败："@ + error, None)
            &&& t == (RuntimeView {
                metrics: without_stream(s.metrics, transport, true),
                events: logged(s.events, t.events[0]),
                ..s
            })
        },
    }
}

/// Takes note of a stream that ended.
pub fn stream_ended(
    state: &mut RuntimeState,
    transport: ActiveTransport,
    error: Option<String>,
    at: Timestamp,
)
    requires
        old(state).wf(),
    ensures
        final(state).wf(),
        stream_noted(old(state)@, final(state)@, transport, opt_text(error), at),
{
    if transport == ActiveTransport::Wss {
        if state.metrics.active_connections > 0 {
            state.metrics.active_connections = state.metrics.active_connections - 1;
        }
        if error.is_some() {
            state.metrics.failed_connections = state.metrics.failed_connections.wrapping_add(1);
        }
    }
    if let Some(error) = error {
        let line = text::join("转发连接失败：", error.as_str());
        state.log(at, "error", line.as_str());
    }
}

/// What is known once a UDP session has ended, in good order or with an error.
pub open spec fn session_noted(
    s: RuntimeView,
    t: RuntimeView,
    error: Option<Seq<char>>,
    at: Timestamp,
) -> bool {
    match error {
        None => t == s,
        Some(error) => {
            &&& t.events.len() > 0
            &&& line_says(t.events[0], at, "error"@, "UDP 转发失败："@ + error, None)
            &&& t == (RuntimeView { events: logged(s.events, t.events[0]), ..s })
        },
    }
}

/// Takes note of a UDP session that ended. One that failed is logged and its stream stays listed; one
/// that the relay closed is forgotten.
pub fn udp_ended(
    state: &mut RuntimeState,
    streams: &mut LocalStreams,
    id: u128,
    error: Option<String>,
    at: Timestamp,
)
    requires
        old(state).wf(),
        old(streams).wf(),
    ensures
        final(state).wf(),
        final(streams).wf(),
        session_noted(old(state)@, final(state)@, opt_text(error), at),
        final(streams)@ == (match error {
            None => old(streams)@.remove(id),
            Some(_) => old(streams)@,
        }),
        final(streams)@ == streams_after(old(streams)@, id, error is Some),
{
    match error {
        None => streams.remove(id),
        Some(error) => {
            let line = text::join("UDP 转发失败：", error.as_str());
            state.log(at, "error", line.as_str());
        },
    }
}

/// The frame that carries a datagram of a local target.
pub fn datagram_frame(session_id: u128, bytes: &[u8]) -> (r: Vec<u8>)
    ensures
        r@ == frame_bytes(CARRIER_FRAME_DATAGRAM, session_id, bytes@),
{
    encode_carrier_frame(CARRIER_FRAME_DATAGRAM, session_id, bytes)
}

/// Why a stream to a local target is given up where the relay resets it.
pub fn reset_reason() -> (r: String)
    ensures
        r@ == "服务端重置了逻辑流"@,
{
    "服务端重置了逻辑流".to_owned()
}

/// Why a stream to a local target is given up where nothing came for too long.
pub fn idle_reason(udp: bool) -> (r: String)
    ensures
        r@ == (if udp {
            "UDP 会话空闲超时"@
        } else {
            "连接空闲超时"@
        }),
{
    if udp {
        "UDP 会话空闲超时".to_owned()
    } else {
        "连接空闲超时".to_owned()
    }
}

/// Counts bytes that a local target sent.
pub fn count_up(state: &mut RuntimeState, count: u64)
    requires
        old(state).wf(),
    ensures
        final(state).wf(),
        final(state)@ == (RuntimeView {
            metrics: crate::protocol::MetricsSnapshot {
                bytes_up: old(state)@.metrics.bytes_up.wrapping_add(count),
                ..old(state)@.metrics
            },
            ..old(state)@
        }),
{
    state.metrics.bytes_up = state.metrics.bytes_up.wrapping_add(count);
}

/// Counts bytes that a local target was sent.
pub fn count_down(state: &mut RuntimeState, count: u64)
    requires
        old(state).wf(),
    ensures
        final(state).wf(),
        final(state)@ == (RuntimeView {
            metrics: crate::protocol::MetricsSnapshot {
                bytes_down: old(state)@.metrics.bytes_down.wrapping_add(count),
                ..old(state)@.metrics
            },
            ..old(state)@
        }),
{
    state.metrics.bytes_down = state.metrics.bytes_down.wrapping_add(count);
}

// What holds of an agent.
/// The waits double from one attempt to the next, up to a minute.
pub proof fn law_waits_double(attempt: u32, jitter: u64)
    ensures
        attempt < 8 ==> next_attempt(attempt) == attempt + 1,
        attempt >= 8 ==> next_attempt(attempt) == 8,
        base_seconds(0) == 1,
        attempt < 5 ==> base_seconds((attempt + 1) as u32) == 2 * base_seconds(attempt),
        base_seconds(6) == 60,
        delay_millis(attempt, jitter) == 1000 * base_seconds(attempt) + jitter,
{
    vstd::arithmetic::power2::lemma2_to64();
    if attempt < 5 {
        lemma_pow2_unfold((attempt + 1) as nat);
    }
}

/// Each fixed mode tries the carrier of its own name, and the free one tries QUIC.
pub proof fn law_modes_try_their_carrier(mode: TransportMode)
    ensures
        mode == TransportMode::Auto ==> first_of(mode) == ActiveTransport::Quic,
        mode == TransportMode::Quic ==> first_of(mode) == ActiveTransport::Quic,
        mode == TransportMode::Kcp ==> first_of(mode) == ActiveTransport::Kcp,
        mode == TransportMode::Wss ==> first_of(mode) == ActiveTransport::Wss,
{
}

/// A carrier goes to the port that was handed out at enrolment, each to its own; 443 for QUIC and 4000
/// for KCP where none was.
pub proof fn law_carriers_have_their_ports(config: AgentConfig)
    ensures
        config.quic_port != 0 ==> port_for(config, ActiveTransport::Quic) == config.quic_port,
        config.quic_port == 0 ==> port_for(config, ActiveTransport::Quic) == 443,
        config.kcp_port != 0 ==> port_for(config, ActiveTransport::Kcp) == config.kcp_port,
        config.kcp_port == 0 ==> port_for(config, ActiveTransport::Kcp) == 4000,
{
}

/// The WebSocket of an HTTPS relay is encrypted, that of any other is not.
pub proof fn law_sockets_are_as_safe_as_their_relay(scheme: Seq<char>)
    ensures
        socket_scheme("https"@) == "wss"@,
        scheme != "https"@ ==> socket_scheme(scheme) == "ws"@,
{
}

/// The host of the relay is the one that its URL names.
pub proof fn law_hosts_are_those_of_the_url(url: UrlView, host: Seq<char>, error: Seq<char>)
    ensures
        url.host == Some(host) ==> host_in(Ok(url)) == Ok::<Seq<char>, Seq<char>>(host),
        url.host is None ==> host_in(Ok(url)) is Err,
        host_in(Err(error)) == Err::<Seq<char>, Seq<char>>(error),
{
}

/// An agent greets with its version, its own identifier and name, the carriers that it can use beside
/// the one it greets on, and all kinds of tunnels.
pub proof fn law_agents_greet_as_themselves(
    message: AgentControlMessage,
    config: AgentConfig,
    transport: ActiveTransport,
)
    requires
        greets(message, config, transport),
    ensures
        message matches AgentControlMessage::Hello {
            protocol_version,
            agent_id,
            name,
            capabilities,
            config_version,
        } && protocol_version == 1 && agent_id == config.installation_id && name
            == config.device_name && config_version == 0 && capabilities.transports@[0] == transport
            && capabilities.transports@.len() == (if transport == ActiveTransport::Quic {
            2int
        } else {
            1
        }) && (transport == ActiveTransport::Quic ==> capabilities.transports@[1]
            == ActiveTransport::Wss) && capabilities.tunnel_kinds@.len() == 3
            && capabilities.tunnel_kinds@[0] == TunnelKind::Tcp && capabilities.tunnel_kinds@[1]
            == TunnelKind::Udp && capabilities.tunnel_kinds@[2] == TunnelKind::Web,
{
}

/// A welcome of another version ends the carrier. One of the same version tells the carrier in use.
/// The tunnels that the relay sends take the place of the known ones. An offer is taken up as it was
/// made. What the relay complains of is logged. Nothing else changes what the agent knows.
pub proof fn law_messages_of_the_relay_are_followed(
    s: RuntimeView,
    t: RuntimeView,
    action: AgentAction,
    transport: ActiveTransport,
    message: AgentControlMessage,
    at: Timestamp,
)
    requires
        dispatched(s, t, action, transport, message, at),
    ensures
        message matches AgentControlMessage::Welcome { protocol_version, transport: named, .. } ==> {
            &&& protocol_version != 1 ==> action is Fail && t == s
            &&& protocol_version == 1 ==> action is Wait && (named is Some ==> t.active_transport
                == named) && (named is None && transport == ActiveTransport::Wss
                ==> t.active_transport == Some(ActiveTransport::Wss))
                && t.transport_fallback_reason is None && t.tunnels == s.tunnels && t.events
                == s.events
        },
        message matches AgentControlMessage::ConfigSync { tunnels } ==> action is Wait && t.tunnels
            == tunnels@ && t == (RuntimeView { tunnels: t.tunnels, ..s }),
        message matches AgentControlMessage::OpenConnection { connection_id, tunnel, ticket, .. }
            ==> (action matches AgentAction::Open {
            connection_id: id,
            tunnel: target,
            ticket: shown,
        } && id == connection_id && target == tunnel && shown == ticket),
        message matches AgentControlMessage::OpenUdpSession { session_id, tunnel, ticket, .. } ==> (
        action matches AgentAction::OpenUdp { session_id: id, tunnel: target, ticket: shown } && id
            == session_id && target == tunnel && shown == ticket),
        message is OpenConnection && transport == ActiveTransport::Wss
            && s.metrics.active_connections < u64::MAX ==> t.metrics.active_connections
            == s.metrics.active_connections + 1,
        !(message is OpenConnection && transport == ActiveTransport::Wss) ==> t.metrics == s.metrics,
        message is OpenConnection || message is OpenUdpSession || message is Error
            ==> t.events.len() > 0 && t.events[0].at == at,
        message matches AgentControlMessage::OpenConnection { peer_location, .. }
            ==> t.events[0].peer_location == peer_location && t.events[0].level@ == "info"@,
        message is Error ==> action is Wait && t.events[0].level@ == "error"@,
        message is Hello || message is Ping || message is Pong || message is ConnectionAck
            || message is Traffic ==> action is Wait && t == s,
        t.config == s.config && t.status == s.status && t.status_message == s.status_message,
        !(message is ConfigSync) ==> t.tunnels == s.tunnels,
{
}

/// What an agent does on a carrier: it gives a sign of life when it is time and answers one, looks for
/// QUIC again only where it is free to choose and on a WebSocket, hands frames to the streams that
/// they name, and ends with its carrier or when it is told to.
pub proof fn law_agents_keep_their_carrier(
    s: RuntimeView,
    t: RuntimeView,
    streams: Map<u128, u64>,
    action: AgentAction,
    transport: ActiveTransport,
    mode: TransportMode,
    event: AgentEvent,
    at: Timestamp,
)
    requires
        stepped(s, t, streams, action, transport, mode, event, at),
    ensures
        event is Heartbeat ==> (action matches AgentAction::Send(
            AgentControlMessage::Ping { sent_at },
        ) && sent_at == at),
        event is PeerPing ==> (action matches AgentAction::Send(
            AgentControlMessage::Pong { sent_at },
        ) && sent_at == at),
        event is Probe ==> (action is Fail <==> transport == ActiveTransport::Wss && mode
            == TransportMode::Auto) && (action is Fail || action is Wait),
        event matches AgentEvent::Frame(frame) ==> (frame_value(frame@) matches Some(
            (kind, id, payload),
        ) ==> (streams.contains_key(id) ==> (action matches AgentAction::Deliver(stream, inbound)
            && stream == streams[id] && inbound.kind == kind && inbound.payload@ == payload)) && (
        !streams.contains_key(id) ==> action is Wait)),
        event is Closed ==> action == (AgentAction::End { close: false }),
        event is Cancelled ==> action == (AgentAction::End { close: true }),
        event matches AgentEvent::Failed(reason) ==> (action matches AgentAction::Fail {
            reason: why,
            ..
        } && why == reason),
        !(event is Control) ==> t == s,
{
}

/// An answer names the stream and carries its ticket; a refusal carries the reason.
pub proof fn law_answers_carry_the_ticket(
    message: AgentControlMessage,
    id: u128,
    yes: bool,
    error: Option<Seq<char>>,
    ticket: Seq<char>,
)
    requires
        acknowledges(message, id, yes, error, ticket),
    ensures
        message matches AgentControlMessage::ConnectionAck {
            connection_id,
            accepted,
            error: reason,
            ticket: shown,
        } && connection_id == id && accepted == yes && opt_text(reason) == error && opt_text(shown)
            == Some(ticket),
{
}

/// A connection over a WebSocket is counted out when it ends, as failed where it failed; connections
/// over other carriers are not counted here.
pub proof fn law_connections_are_counted_out(
    m: crate::protocol::MetricsSnapshot,
    transport: ActiveTransport,
    failed: bool,
)
    ensures
        transport != ActiveTransport::Wss ==> without_stream(m, transport, failed) == m,
        transport == ActiveTransport::Wss && m.active_connections > 0 ==> without_stream(
            m,
            transport,
            failed,
        ).active_connections == m.active_connections - 1,
        transport == ActiveTransport::Wss && m.active_connections == 0 ==> without_stream(
            m,
            transport,
            failed,
        ).active_connections == 0,
        transport == ActiveTransport::Wss && failed && m.failed_connections < u64::MAX
            ==> without_stream(m, transport, failed).failed_connections == m.failed_connections + 1,
        !failed ==> without_stream(m, transport, failed).failed_connections == m.failed_connections,
        without_stream(m, transport, failed).bytes_up == m.bytes_up && without_stream(
            m,
            transport,
            failed,
        ).bytes_down == m.bytes_down,
{
}

/// Setting a status shows it and says why, in the tray and to the user, and changes nothing else.
pub proof fn law_statuses_are_shown(
    s: RuntimeView,
    t: RuntimeView,
    tray: Tray,
    status: AgentStatus,
    message: Seq<char>,
)
    requires
        status_set(s, t, tray, status, message),
    ensures
        t.status == status && t.status_message == message,
        t == (RuntimeView { status: t.status, status_message: t.status_message, ..s }),
        status == AgentStatus::Online ==> tray.title@ == "🟢"@,
        status == AgentStatus::Connecting ==> tray.title@ == "🟡"@,
        status == AgentStatus::Offline || status == AgentStatus::Error ==> tray.title@ == "🔴"@,
        status == AgentStatus::Unconfigured ==> tray.title@ == "⚪"@,
        text::has_suffix(tray.tooltip@, message),
{
    let tip = tray.tooltip@;
    assert(tip.skip(tip.len() - message.len()) =~= message);
}

/// Whether an agent is known to be online over a carrier.
pub open spec fn came_online(
    s: RuntimeView,
    t: RuntimeView,
    tray: Tray,
    transport: ActiveTransport,
    at: Timestamp,
) -> bool {
    &&& t.status == AgentStatus::Online
    &&& t.status_message == online_text(transport).0
    &&& t.events.len() > 0 && line_says(t.events[0], at, "info"@, online_text(transport).1, None)
    &&& t.events == logged(s.events, t.events[0])
    &&& transport != ActiveTransport::Wss ==> t.active_transport == Some(transport)
        && t.transport_fallback_reason is None
    &&& transport == ActiveTransport::Wss ==> t.active_transport == s.active_transport
        && t.transport_fallback_reason == s.transport_fallback_reason
    &&& tray.title@ == status_symbol(AgentStatus::Online)
    &&& t.config == s.config && t.tunnels == s.tunnels && t.metrics == s.metrics
}

/// An agent whose carrier is up is online, says so in its log and in the tray, and shows a direct
/// carrier as the one in use, with no fallback any more; over a WebSocket it goes on showing why it fell
/// back.
pub proof fn law_agents_come_online(
    s: RuntimeView,
    t: RuntimeView,
    tray: Tray,
    transport: ActiveTransport,
    at: Timestamp,
)
    requires
        came_online(s, t, tray, transport, at),
    ensures
        t.status == AgentStatus::Online,
        tray.title@ == "🟢"@,
        transport == ActiveTransport::Quic ==> t.active_transport == Some(ActiveTransport::Quic)
            && t.status_message == "QUIC 承载已连接"@,
        transport == ActiveTransport::Kcp ==> t.active_transport == Some(ActiveTransport::Kcp)
            && t.status_message == "KCP 承载已连接"@,
        transport == ActiveTransport::Wss ==> t.active_transport == s.active_transport
            && t.status_message == "控制通道已连接"@,
        transport != ActiveTransport::Wss ==> t.transport_fallback_reason is None,
        t.events.len() > 0 && t.events[0].at == at && t.events[0].level@ == "info"@,
        s.events.len() > 0 ==> t.events.len() > 1 && t.events[1] == s.events[0],
        t.tunnels == s.tunnels && t.config == s.config && t.metrics == s.metrics,
{
}

/// What is said of carriers, sources and stored texts names what it is about.
pub proof fn law_lines_name_what_happened(
    error: String,
    name: Seq<char>,
    peer: Seq<char>,
    stored: Seq<char>,
)
    ensures
        end_text(CarrierEnd::Closed) == "控制通道已关闭"@,
        end_text(CarrierEnd::Failed(error)) == "连接失败："@ + error@,
        fallback_reason(error@) == "QUIC 不可用："@ + error@,
        arrival_text(name, peer, true) == name + " 收到来自 "@ + peer + " 的 UDP 会话"@,
        arrival_text(name, peer, false) == name + " 收到来自 "@ + peer + " 的连接"@,
        unread_text(ActiveTransport::Kcp, stored) == base64_error(text::trimmed(stored)),
        unread_text(ActiveTransport::Quic, stored) == "解析固定的传输证书: "@ + base64_error(
            text::trimmed(stored),
        ),
{
}

/// A URL without a host cannot be dialled, and one that cannot be read tells why; what has a host is
/// dialled there.
pub proof fn law_hosts_are_needed(parts: Result<UrlView, Seq<char>>)
    ensures
        parts matches Err(e) ==> host_in(parts) == Err::<Seq<char>, Seq<char>>(e),
        parts matches Ok(url) ==> (url.host is None ==> host_in(parts) == Err::<
            Seq<char>,
            Seq<char>,
        >("服务器地址缺少主机"@)),
        parts matches Ok(url) ==> (url.host matches Some(host) ==> host_in(parts) == Ok::<
            Seq<char>,
            Seq<char>,
        >(host)),
{
}

/// Nothing is logged of a session or a stream that ended in good order. One that failed is logged with
/// its error, in front of what was logged before; nothing else changes but the count of streams.
pub proof fn law_ends_are_noted(
    s: RuntimeView,
    t: RuntimeView,
    u: RuntimeView,
    transport: ActiveTransport,
    error: Option<Seq<char>>,
    at: Timestamp,
)
    requires
        session_noted(s, t, error, at),
        stream_noted(s, u, transport, error, at),
    ensures
        error is None ==> t == s && u.events == s.events,
        error matches Some(e) ==> {
            &&& t.events.len() > 0 && t.events[0].at == at && t.events[0].level@ == "error"@
            &&& t.events[0].message@ == "UDP 转发失败："@ + e
            &&& u.events.len() > 0 && u.events[0].at == at && u.events[0].level@ == "error"@
            &&& u.events[0].message@ == "转发连接失败："@ + e
            &&& s.events.len() > 0 ==> t.events.len() > 1 && t.events[1] == s.events[0]
                && u.events.len() > 1 && u.events[1] == s.events[0]
        },
        t.metrics == s.metrics,
        t.status == s.status && u.status == s.status,
        t.config == s.config && u.config == s.config,
        t.tunnels == s.tunnels && u.tunnels == s.tunnels,
        transport != ActiveTransport::Wss ==> u.metrics == s.metrics,
        transport == ActiveTransport::Wss && s.metrics.active_connections > 0
            ==> u.metrics.active_connections == s.metrics.active_connections - 1,
        transport == ActiveTransport::Wss && error is Some && s.metrics.failed_connections
            < u64::MAX ==> u.metrics.failed_connections == s.metrics.failed_connections + 1,
        error is None ==> u.metrics.failed_connections == s.metrics.failed_connections,
{
}

/// Whether an agent shows and logs that its carrier ended.
pub open spec fn broke_off(
    s: RuntimeView,
    t: RuntimeView,
    tray: Option<Tray>,
    at: Timestamp,
    end: CarrierEnd,
    cancelled: bool,
) -> bool {
    if end is Closed && cancelled {
        t == s && tray is None
    } else {
        &&& t.status == AgentStatus::Offline
        &&& t.status_message == "连接中断，正在重试"@
        &&& t.events.len() > 0 && line_says(t.events[0], at, "warn"@, end_text(end), None)
        &&& t.events == logged(s.events, t.events[0])
        &&& t.config == s.config && t.tunnels == s.tunnels && t.metrics == s.metrics
        &&& tray matches Some(tray) && tray.title@ == status_symbol(AgentStatus::Offline)
    }
}

/// An agent whose carrier fails is offline and says why, also while it stops; one whose carrier is closed
/// is offline too, unless it was the agent that stopped: that says nothing.
pub proof fn law_broken_carriers_are_shown(
    s: RuntimeView,
    t: RuntimeView,
    tray: Option<Tray>,
    at: Timestamp,
    end: CarrierEnd,
    cancelled: bool,
)
    requires
        broke_off(s, t, tray, at, end, cancelled),
    ensures
        end is Closed && cancelled ==> t == s && tray is None,
        end is Failed || !cancelled ==> t.status == AgentStatus::Offline && tray is Some
            && t.events.len() > 0 && t.events[0].at == at && t.events[0].level@ == "warn"@,
        end matches CarrierEnd::Failed(e) ==> t.events[0].message@ == "连接失败："@ + e@,
        end is Closed && !cancelled ==> t.events[0].message@ == "控制通道已关闭"@,
        end is Failed || !cancelled ==> t.status_message == "连接中断，正在重试"@,
        (end is Failed || !cancelled) && s.events.len() > 0 ==> t.events.len() > 1 && t.events[1]
            == s.events[0],
        t.tunnels == s.tunnels && t.config == s.config && t.metrics == s.metrics,
{
}

/// The streams once a UDP session has ended.
pub open spec fn streams_after(streams: Map<u128, u64>, id: u128, failed: bool) -> Map<u128, u64> {
    if failed {
        streams
    } else {
        streams.remove(id)
    }
}

/// A session that ended in good order is not listed any more; all others are.
pub proof fn law_ended_sessions_are_forgotten(
    streams: Map<u128, u64>,
    id: u128,
    failed: bool,
    other: u128,
)
    ensures
        !streams_after(streams, id, false).contains_key(id),
        streams_after(streams, id, true).contains_key(id) == streams.contains_key(id),
        other != id ==> streams_after(streams, id, failed).contains_key(other)
            == streams.contains_key(other),
        other != id && streams.contains_key(other) ==> streams_after(streams, id, failed)[other]
            == streams[other],
{
}

/// A relay that speaks another version is named with both versions over a WebSocket; over the other
/// carriers it is said that they differ.
pub proof fn law_versions_are_compared(version: u16)
    ensures
        version_text(ActiveTransport::Wss, version) == "协议版本不兼容：服务器 "@ + text::decimal(
            version as nat,
        ) + "，客户端 "@ + text::decimal(1),
        version_text(ActiveTransport::Quic, version) == "协议版本不兼容"@,
        version_text(ActiveTransport::Kcp, version) == "协议版本不兼容"@,
{
}

/// A state that is set is shown with its dot and its message, and nothing else changes.
pub proof fn law_states_are_shown_with_their_message(
    s: RuntimeView,
    t: RuntimeView,
    tray: Tray,
    status: AgentStatus,
    message: Seq<char>,
)
    requires
        status_set(s, t, tray, status, message),
    ensures
        t.status == status && t.status_message == message,
        tray.title@ == status_symbol(status),
        tray.tooltip@ == "TunnelBridge — "@ + message,
        t.events == s.events && t.tunnels == s.tunnels && t.config == s.config && t.metrics
            == s.metrics,
        t.active_transport == s.active_transport,
{
}

/// What is logged of a carrier that is up names the carrier.
pub proof fn law_carriers_are_logged()
    ensures
        online_text(ActiveTransport::Wss).1 == "已连接中继服务器"@,
        online_text(ActiveTransport::Quic).1 == "已通过 QUIC 连接中继服务器"@,
        online_text(ActiveTransport::Kcp).1 == "已通过 KCP/TLS 连接中继服务器"@,
{
}

/// An error that the relay reports is logged with its code, and an agent that may use any carrier leaves
/// a WebSocket from time to time to try QUIC again; one that is bound to a carrier stays.
pub proof fn law_errors_are_logged_and_quic_is_tried_again(
    s: RuntimeView,
    t: RuntimeView,
    streams: Map<u128, u64>,
    action: AgentAction,
    transport: ActiveTransport,
    mode: TransportMode,
    event: AgentEvent,
    at: Timestamp,
)
    requires
        stepped(s, t, streams, action, transport, mode, event, at),
    ensures
        event matches AgentEvent::Control(AgentControlMessage::Error { code, message })
            ==> action is Wait && t.events.len() > 0 && t.events[0].message@ == "服务器错误 "@
            + code@ + "："@ + message@ && t.events[0].level@ == "error"@,
        event is Probe && transport == ActiveTransport::Wss && mode == TransportMode::Auto ==> (
        action matches AgentAction::Fail { close, reason } && close && reason@
            == "定期重新探测 QUIC"@),
        event is Probe && (transport != ActiveTransport::Wss || mode != TransportMode::Auto)
            ==> action is Wait,
        event is Probe || event is Heartbeat || event is PeerPing ==> t == s,
{
}

/// A relay whose address cannot be read is not reached over a WebSocket, and why is told.
pub proof fn law_unreadable_relays_have_no_socket(
    r: Result<String, String>,
    server_url: Seq<char>,
    path: Seq<char>,
)
    requires
        is_socket(r, server_url, path),
    ensures
        url_view(server_url) matches Err(why) ==> (r matches Err(e) && e@ == why),
        url_view(server_url) matches Ok(url) ==> (url_with(
            server_url,
            socket_scheme(url.scheme),
            path,
        ) is None ==> (r matches Err(e) && e@ == "无法转换 WebSocket 地址"@)),
{
}

} // verus!
