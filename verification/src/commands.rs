//! What the user asks of an agent.
use crate::agent_config::{
    normalize_server_url, normalize_within_bounds, server_fits, server_of, AgentConfig,
};
use crate::api::name_ok;
use crate::ids::{id_text, new_id, write_id};
use crate::protocol::{
    AgentEnrollmentResponse, ApiError, Timestamp, TransportMode, Tunnel, TunnelView,
    UpdateTunnelRequest,
};
use crate::runtime::{line_says, logged, RuntimeState, RuntimeView};
use crate::text;
use vstd::prelude::*;
use vstd::utf8::encode_utf8;

verus! {

/// What a user enters to set an agent up, in good form.
#[derive(Debug, Clone, PartialEq, Eq)]
pub struct Enrolment {
    pub server_url: String,
    pub token: String,
    pub device_name: String,
}

/// What is wrong with what a user entered besides the address of the relay.
pub open spec fn entry_fault(token: Seq<char>, device_name: Seq<char>) -> Option<Seq<char>> {
    if encode_utf8(text::trimmed(token)).len() < 20 {
        Some("设备令牌格式无效"@)
    } else if !name_ok(text::trimmed(device_name)) {
        Some("设备名称需要包含 1 到 80 个字符"@)
    } else {
        None
    }
}

/// Checks what a user entered, given the address of the relay in good form or what is wrong with it.
pub fn check_entry(server_url: Result<String, String>, token: &str, device_name: &str) -> (r: Result<
    Enrolment,
    String,
>)
    ensures
        match server_url {
            Err(reason) => r == Err::<Enrolment, String>(reason),
            Ok(url) => match entry_fault(token@, device_name@) {
                Some(reason) => r matches Err(e) && e@ == reason,
                None => r matches Ok(e) && e.server_url == url && e.token@ == text::trimmed(token@)
                    && e.device_name@ == text::trimmed(device_name@),
            },
        },
{
    let server_url = match server_url {
        Ok(url) => url,
        Err(reason) => {
            return Err(reason);
        },
    };
    let token = text::trim(token);
    if token.as_bytes().len() < 20 {
        return Err("设备令牌格式无效".to_owned());
    }
    let name = text::trim(device_name);
    let count: usize = name.unicode_len();
    if count == 0 || count > 80 {
        return Err("设备名称需要包含 1 到 80 个字符".to_owned());
    }
    Ok(Enrolment { server_url, token: token.to_owned(), device_name: name.to_owned() })
}

/// Whether a result is what a user entered, or what is wrong with it.
pub open spec fn entered(
    r: Result<Enrolment, String>,
    server_url: Seq<char>,
    token: Seq<char>,
    device_name: Seq<char>,
) -> bool {
    match server_of(server_url) {
        Err(reason) => r matches Err(e) && e@ == reason,
        Ok(url) => match entry_fault(token, device_name) {
            Some(reason) => r matches Err(e) && e@ == reason,
            None => r matches Ok(e) && e.server_url@ == url && e.token@ == text::trimmed(token)
                && e.device_name@ == text::trimmed(device_name),
        },
    }
}

/// Checks what a user entered.
pub fn check_server(server_url: &str, token: &str, device_name: &str) -> (r: Result<
    Enrolment,
    String,
>)
    requires
        server_fits(server_url@),
    ensures
        entered(r, server_url@, token@, device_name@),
{
    check_entry(normalize_server_url(server_url), token, device_name)
}

/// Checks what a user entered; nothing where the parts of the URL go past four gigabytes.
pub fn check_within_bounds(server_url: &str, token: &str, device_name: &str) -> (r: Option<
    Result<Enrolment, String>,
>)
    ensures
        r is Some <==> server_fits(server_url@),
        r matches Some(entry) ==> entered(entry, server_url@, token@, device_name@),
{
    match normalize_within_bounds(server_url) {
        Some(_) => Some(check_server(server_url, token, device_name)),
        None => None,
    }
}

/// The settings of an agent that enrolled. It keeps its identifier and its mode where it had them.
pub open spec fn enrolled(
    previous: Option<AgentConfig>,
    entry: Enrolment,
    answer: AgentEnrollmentResponse,
    new_id: u128,
) -> AgentConfig {
    AgentConfig {
        server_url: entry.server_url,
        device_name: entry.device_name,
        installation_id: match previous {
            Some(config) => config.installation_id,
            None => new_id,
        },
        transport_mode: match previous {
            Some(config) => config.transport_mode,
            None => TransportMode::Auto,
        },
        quic_port: answer.quic_port,
        kcp_port: answer.kcp_port,
    }
}

/// The settings of an agent that enrolled, with a given identifier where it had none.
pub fn configure_as(
    state: &RuntimeState,
    entry: &Enrolment,
    answer: &AgentEnrollmentResponse,
    id: u128,
) -> (r: AgentConfig)
    ensures
        r == enrolled(state.config, *entry, *answer, id),
{
    let (installation_id, transport_mode) = match &state.config {
        Some(config) => (config.installation_id, config.transport_mode),
        None => (id, TransportMode::Auto),
    };
    AgentConfig {
        server_url: entry.server_url.clone(),
        device_name: entry.device_name.clone(),
        installation_id,
        transport_mode,
        quic_port: answer.quic_port,
        kcp_port: answer.kcp_port,
    }
}

/// The settings of an agent that enrolled, with a new random identifier where it had none.
pub fn configure_server(
    state: &RuntimeState,
    entry: &Enrolment,
    answer: &AgentEnrollmentResponse,
) -> (r: AgentConfig)
    ensures
        exists|id: u128| r == #[trigger] enrolled(state.config, *entry, *answer, id),
{
    let id = new_id();
    configure_as(state, entry, answer, id)
}

/// An agent that enrols again keeps its identifier and its mode.
pub proof fn law_enrolling_again_keeps_the_identity(
    previous: AgentConfig,
    entry: Enrolment,
    answer: AgentEnrollmentResponse,
    id: u128,
)
    ensures
        enrolled(Some(previous), entry, answer, id).installation_id == previous.installation_id,
        enrolled(Some(previous), entry, answer, id).transport_mode == previous.transport_mode,
{
}

/// Takes settings that were saved, and the tunnels that came with them.
pub fn server_configured(
    state: &mut RuntimeState,
    config: AgentConfig,
    tunnels: Vec<Tunnel>,
    at: Timestamp,
)
    requires
        old(state).wf(),
    ensures
        final(state).wf(),
        final(state)@.events.len() > 0,
        line_says(final(state)@.events[0], at, "info"@, "服务器配置已验证并保存"@, None),
        final(state)@ == (RuntimeView {
            config: Some(config),
            tunnels: tunnels@,
            events: logged(old(state)@.events, final(state)@.events[0]),
            ..old(state)@
        }),
{
    state.config = Some(config);
    state.tunnels = tunnels;
    state.log(at, "info", "服务器配置已验证并保存");
}

/// The settings to reach the relay with.
pub fn credentials(state: &RuntimeState) -> (r: Result<AgentConfig, String>)
    ensures
        match state.config {
            Some(config) => r == Ok::<AgentConfig, String>(config),
            None => r matches Err(e) && e@ == "尚未配置服务器"@,
        },
{
    match &state.config {
        Some(config) => Ok(config.copied()),
        None => Err("尚未配置服务器".to_owned()),
    }
}

/// The settings with another mode.
pub fn set_transport_mode(state: &RuntimeState, mode: TransportMode) -> (r: Result<
    AgentConfig,
    String,
>)
    ensures
        match state.config {
            Some(config) => r == Ok::<AgentConfig, String>(
                AgentConfig { transport_mode: mode, ..config },
            ),
            None => r matches Err(e) && e@ == "尚未配置服务器"@,
        },
        remoded(r, state.config, mode),
{
    match credentials(state) {
        Ok(config) => {
            let mut config = config;
            config.transport_mode = mode;
            Ok(config)
        },
        Err(e) => Err(e),
    }
}

/// The name of a mode in the log.
pub open spec fn mode_name(mode: TransportMode) -> Seq<char> {
    match mode {
        TransportMode::Auto => "Auto"@,
        TransportMode::Quic => "Quic"@,
        TransportMode::Kcp => "Kcp"@,
        TransportMode::Wss => "Wss"@,
    }
}

/// Takes settings with another mode that were saved.
pub fn mode_changed(state: &mut RuntimeState, config: AgentConfig, at: Timestamp)
    requires
        old(state).wf(),
    ensures
        final(state).wf(),
        final(state)@.events.len() > 0,
        line_says(
            final(state)@.events[0],
            at,
            "info"@,
            "承载策略已切换为 "@ + mode_name(config.transport_mode),
            None,
        ),
        final(state)@ == (RuntimeView {
            config: Some(config),
            events: logged(old(state)@.events, final(state)@.events[0]),
            ..old(state)@
        }),
{
    let name = match config.transport_mode {
        TransportMode::Auto => "Auto",
        TransportMode::Quic => "Quic",
        TransportMode::Kcp => "Kcp",
        TransportMode::Wss => "Wss",
    };
    state.config = Some(config);
    let line = text::join("承载策略已切换为 ", name);
    state.log(at, "info", line.as_str());
}

/// The path of the tunnels of an agent at the relay.
pub fn tunnels_path() -> (r: &'static str)
    ensures
        r@ == "/api/v1/agent/tunnels"@,
{
    "/api/v1/agent/tunnels"
}

/// The path of a tunnel at the relay.
pub fn tunnel_path(id: u128) -> (r: String)
    ensures
        r@ == "/api/v1/agent/tunnels/"@ + id_text(id),
{
    text::join("/api/v1/agent/tunnels/", write_id(id).as_str())
}

/// The URL of a path at the relay.
pub fn request_url(server: &str, path: &str) -> (r: String)
    ensures
        r@ == server@ + path@,
{
    text::join(server, path)
}

/// What went wrong with a request, given the status of the answer, the status as text, and the error
/// in the answer where there is one.
pub fn response_error(status: u16, status_text: &str, body: Option<ApiError>) -> (r: String)
    ensures
        r@ == (match body {
            Some(error) => error.message@,
            None => if status == 401 {
                "设备令牌无效或已撤销"@
            } else {
                "服务器返回 "@ + status_text@
            },
        }),
        complains(r@, status, status_text@, body),
{
    match body {
        Some(error) => error.message,
        None => if status == 401 {
            "设备令牌无效或已撤销".to_owned()
        } else {
            text::join("服务器返回 ", status_text)
        },
    }
}

/// Takes the tunnels that the relay knows.
pub fn refresh_tunnels(state: &mut RuntimeState, tunnels: Vec<Tunnel>)
    requires
        old(state).wf(),
    ensures
        final(state).wf(),
        final(state)@ == (RuntimeView { tunnels: tunnels@, ..old(state)@ }),
{
    state.tunnels = tunnels;
}

/// Logs a tunnel that was created.
pub fn create_tunnel(state: &mut RuntimeState, at: Timestamp)
    requires
        old(state).wf(),
    ensures
        final(state).wf(),
        final(state)@.events.len() > 0,
        line_says(final(state)@.events[0], at, "info"@, "已创建并同步新隧道"@, None),
        final(state)@ == (RuntimeView {
            events: logged(old(state)@.events, final(state)@.events[0]),
            ..old(state)@
        }),
{
    state.log(at, "info", "已创建并同步新隧道");
}

/// Logs a tunnel that was deleted.
pub fn delete_tunnel(state: &mut RuntimeState, at: Timestamp)
    requires
        old(state).wf(),
    ensures
        final(state).wf(),
        final(state)@.events.len() > 0,
        line_says(final(state)@.events[0], at, "info"@, "隧道已删除，远程端口已释放"@, None),
        final(state)@ == (RuntimeView {
            events: logged(old(state)@.events, final(state)@.events[0]),
            ..old(state)@
        }),
{
    state.log(at, "info", "隧道已删除，远程端口已释放");
}

/// The tunnels of a list that have yet to be switched.
pub open spec fn to_switch(tunnels: Seq<Tunnel>, enabled: bool) -> Seq<u128>
    decreases tunnels.len(),
{
    if tunnels.len() == 0 {
        Seq::empty()
    } else if tunnels.last().enabled != enabled {
        to_switch(tunnels.drop_last(), enabled).push(tunnels.last().id)
    } else {
        to_switch(tunnels.drop_last(), enabled)
    }
}

/// The tunnels to switch on or off, in order.
pub fn set_all_enabled(state: &RuntimeState, enabled: bool) -> (r: Vec<u128>)
    ensures
        r@ == to_switch(state.tunnels@, enabled),
{
    let mut out: Vec<u128> = Vec::new();
    let mut i: usize = 0;
    assert(state.tunnels@.take(0) =~= Seq::<Tunnel>::empty());
    while i < state.tunnels.len()
        invariant
            i <= state.tunnels@.len(),
            out@ == to_switch(state.tunnels@.take(i as int), enabled),
        decreases state.tunnels@.len() - i,
    {
        assert(state.tunnels@.take(i + 1).drop_last() =~= state.tunnels@.take(i as int));
        if state.tunnels[i].enabled != enabled {
            out.push(state.tunnels[i].id);
        }
        i += 1;
    }
    assert(state.tunnels@.take(i as int) =~= state.tunnels@);
    out
}

/// The request that switches a tunnel on or off and changes nothing else.
pub fn switch_request(enabled: bool) -> (r: UpdateTunnelRequest)
    ensures
        r.enabled == Some(enabled),
        r.name is None,
        r.local_host is None,
        r.local_port is None,
        r.kind is None,
        r.local_scheme is None,
        r.remote_port is None,
        r.hostname is None,
        r.access_mode is None,
        r.allowed_cidrs is None,
        !r.allow_lan_target,
{
    let mut request = UpdateTunnelRequest::default();
    request.enabled = Some(enabled);
    request
}

/// Switching a tunnel changes whether it is enabled and the time of the last change, and nothing
/// else.
pub proof fn law_switching_changes_enabled_alone(
    config: crate::config::Config,
    t: TunnelView,
    request: UpdateTunnelRequest,
    enabled: bool,
    now: Timestamp,
)
    requires
        request.enabled == Some(enabled),
        request.name is None,
        request.local_host is None,
        request.local_port is None,
        request.kind is None,
        request.local_scheme is None,
        request.remote_port is None,
        request.hostname is None,
        request.access_mode is None,
        request.allowed_cidrs is None,
    ensures
        crate::tunnels::change_fault(config, t, request) is None,
        crate::tunnels::changed_tunnel(config, t, request, now) == (TunnelView {
            enabled,
            updated_at: now,
            ..t
        }),
{
}

/// What is said about an update of the agent itself.
pub fn check_for_updates(version: Option<&str>) -> (r: String)
    ensures
        r@ == (match version {
            Some(version) => "UPDATE_AVAILABLE:"@ + version@,
            None => "当前已是最新版本"@,
        }),
{
    match version {
        Some(version) => text::join("UPDATE_AVAILABLE:", version),
        None => "当前已是最新版本".to_owned(),
    }
}

/// What a user enters is taken where the token has twenty bytes or more and the name 1 to 80
/// characters, both without white space around them, and the address is one of a relay; and only
/// there. It is taken as it was entered, and the address as it is kept.
pub proof fn law_entries_are_taken(
    r: Result<Enrolment, String>,
    server_url: Seq<char>,
    token: Seq<char>,
    device_name: Seq<char>,
)
    requires
        entered(r, server_url, token, device_name),
    ensures
        r is Ok <==> server_of(server_url) is Ok && encode_utf8(text::trimmed(token)).len() >= 20
            && 1 <= text::trimmed(device_name).len() <= 80,
        r matches Ok(e) ==> e.token@ == text::trimmed(token) && e.device_name@ == text::trimmed(
            device_name,
        ) && server_of(server_url) == Ok::<Seq<char>, Seq<char>>(e.server_url@),
{
}

/// The settings of an agent that enrolled are what was entered and what the relay answered; a new agent
/// is free to choose its carrier.
pub proof fn law_settings_come_from_the_enrolment(
    previous: Option<AgentConfig>,
    entry: Enrolment,
    answer: AgentEnrollmentResponse,
    id: u128,
)
    ensures
        ({
            let c = enrolled(previous, entry, answer, id);
            &&& c.server_url == entry.server_url
            &&& c.device_name == entry.device_name
            &&& c.quic_port == answer.quic_port
            &&& c.kcp_port == answer.kcp_port
            &&& previous is None ==> c.installation_id == id && c.transport_mode
                == TransportMode::Auto
        }),
{
}

/// Those tunnels are switched that are not yet as they should be, each of them, in order, and no others.
pub proof fn law_tunnels_that_differ_are_switched(list: Seq<Tunnel>, t: Tunnel, enabled: bool)
    ensures
        to_switch(Seq::empty(), enabled) == Seq::<u128>::empty(),
        t.enabled != enabled ==> to_switch(list.push(t), enabled) == to_switch(list, enabled).push(
            t.id,
        ),
        t.enabled == enabled ==> to_switch(list.push(t), enabled) == to_switch(list, enabled),
{
    assert(list.push(t).drop_last() =~= list);
}

/// A mode goes by its own name.
pub proof fn law_mode_names(mode: TransportMode)
    ensures
        mode == TransportMode::Auto ==> mode_name(mode) == "Auto"@,
        mode == TransportMode::Quic ==> mode_name(mode) == "Quic"@,
        mode == TransportMode::Kcp ==> mode_name(mode) == "Kcp"@,
        mode == TransportMode::Wss ==> mode_name(mode) == "Wss"@,
{
}

/// Whether a result is the settings with another mode.
pub open spec fn remoded(
    r: Result<AgentConfig, String>,
    config: Option<AgentConfig>,
    mode: TransportMode,
) -> bool {
    match config {
        Some(c) => r matches Ok(d) && d.transport_mode == mode && d == (AgentConfig {
            transport_mode: d.transport_mode,
            ..c
        }),
        None => r is Err,
    }
}

/// A mode that is set is the one that the next attempt goes by, and all other settings stay.
pub proof fn law_modes_are_set(
    r: Result<AgentConfig, String>,
    config: AgentConfig,
    mode: TransportMode,
)
    requires
        remoded(r, Some(config), mode),
    ensures
        r matches Ok(d) && d.transport_mode == mode && d.server_url == config.server_url
            && d.device_name == config.device_name && d.installation_id == config.installation_id
            && d.quic_port == config.quic_port && d.kcp_port == config.kcp_port,
        mode == TransportMode::Kcp ==> crate::agent::first_of(r->Ok_0.transport_mode)
            == crate::protocol::ActiveTransport::Kcp,
        mode == TransportMode::Wss ==> crate::agent::first_of(r->Ok_0.transport_mode)
            == crate::protocol::ActiveTransport::Wss,
{
}

/// Whether a text says what is wrong with an answer of the relay.
pub open spec fn complains(
    r: Seq<char>,
    status: u16,
    status_text: Seq<char>,
    body: Option<ApiError>,
) -> bool {
    match body {
        Some(error) => r == error.message@,
        None => if status == 401 {
            r == "设备令牌无效或已撤销"@
        } else {
            r == "服务器返回 "@ + status_text
        },
    }
}

/// What the relay says is wrong is told as it says it; without a word a refused token is told from other
/// failures, whose status is told.
pub proof fn law_refusals_are_told(
    r: Seq<char>,
    status: u16,
    status_text: Seq<char>,
    body: Option<ApiError>,
)
    requires
        complains(r, status, status_text, body),
    ensures
        body matches Some(error) ==> r == error.message@,
        body is None && status == 401 ==> r == "设备令牌无效或已撤销"@,
        body is None && status != 401 ==> text::has_suffix(r, status_text),
{
    if body is None && status != 401 {
        assert(r.skip(r.len() - status_text.len()) =~= status_text);
    }
}

/// A token that is too short is told of, and otherwise a name that is empty or too long.
pub proof fn law_unfit_entries_are_told(token: Seq<char>, device_name: Seq<char>)
    ensures
        encode_utf8(text::trimmed(token)).len() < 20 ==> entry_fault(token, device_name) == Some(
            "设备令牌格式无效"@,
        ),
        encode_utf8(text::trimmed(token)).len() >= 20 && !(1 <= text::trimmed(device_name).len()
            <= 80) ==> entry_fault(token, device_name) == Some("设备名称需要包含 1 到 80 个字符"@),
{
}

} // verus!
