//! The types that the relay, the agents and the console share.
use crate::net::Cidr;
use vstd::prelude::*;

verus! {

/// The version that both ends of a carrier must speak.
pub const PROTOCOL_VERSION: u16 = 1;

/// Who may use a tunnel.
#[derive(Debug, Clone, Copy, PartialEq, Eq, Structural)]
pub enum AccessMode {
    /// Sources in the tunnel's address blocks.
    Allowlist,
    /// Everyone.
    Public,
}

/// The state that the console shows for a tunnel.
#[derive(Debug, Clone, Copy, PartialEq, Eq, Structural)]
pub enum TunnelStatus {
    Stopped,
    Starting,
    Online,
    AgentOffline,
    Error,
}

/// What a tunnel publishes.
#[derive(Debug, Clone, Copy, PartialEq, Eq, Structural)]
pub enum TunnelKind {
    Tcp,
    Udp,
    Web,
}

/// What the local target speaks.
#[derive(Debug, Clone, Copy, PartialEq, Eq, Structural)]
pub enum LocalScheme {
    Tcp,
    Udp,
    Http,
    Https,
}

/// What carries the streams of an agent.
#[derive(Debug, Clone, Copy, PartialEq, Eq, Structural)]
pub enum ActiveTransport {
    Quic,
    Kcp,
    Wss,
}

/// Which carrier an agent is to use.
#[derive(Debug, Clone, Copy, PartialEq, Eq, Structural)]
pub enum TransportMode {
    /// QUIC, and WSS where QUIC is not to be had.
    Auto,
    Quic,
    Kcp,
    Wss,
}

impl Default for TransportMode {
    fn default() -> (r: Self)
        ensures
            r == TransportMode::Auto,
    {
        TransportMode::Auto
    }
}

/// A point in universal time: seconds since 1970 and nanoseconds within the second.
#[derive(Debug, Clone, Copy, PartialEq, Eq, Structural)]
pub struct Timestamp {
    pub seconds: i64,
    pub nanos: u32,
}

/// The text of an optional string.
pub open spec fn opt_text(o: Option<String>) -> Option<Seq<char>> {
    match o {
        Some(s) => Some(s@),
        None => None,
    }
}

/// Copies an optional string.
pub fn copy_opt(o: &Option<String>) -> (r: Option<String>)
    ensures
        r == *o,
{
    match o {
        Some(s) => Some(s.clone()),
        None => None,
    }
}

/// A tunnel: a public endpoint and the local target that it leads to.
#[derive(Debug, Clone, PartialEq, Eq)]
pub struct Tunnel {
    pub id: u128,
    pub agent_id: u128,
    pub name: String,
    pub local_host: String,
    pub local_port: u16,
    pub kind: TunnelKind,
    pub local_scheme: LocalScheme,
    pub remote_port: Option<u16>,
    pub hostname: Option<String>,
    pub access_mode: AccessMode,
    pub allowed_cidrs: Vec<Cidr>,
    pub enabled: bool,
    pub status: TunnelStatus,
    pub created_at: Timestamp,
    pub updated_at: Timestamp,
}

/// What a tunnel is, with texts and lists as sequences.
#[verifier::ext_equal]
pub struct TunnelView {
    pub id: u128,
    pub agent_id: u128,
    pub name: Seq<char>,
    pub local_host: Seq<char>,
    pub local_port: u16,
    pub kind: TunnelKind,
    pub local_scheme: LocalScheme,
    pub remote_port: Option<u16>,
    pub hostname: Option<Seq<char>>,
    pub access_mode: AccessMode,
    pub allowed_cidrs: Seq<Cidr>,
    pub enabled: bool,
    pub status: TunnelStatus,
    pub created_at: Timestamp,
    pub updated_at: Timestamp,
}

impl View for Tunnel {
    type V = TunnelView;

    open spec fn view(&self) -> TunnelView {
        TunnelView {
            id: self.id,
            agent_id: self.agent_id,
            name: self.name@,
            local_host: self.local_host@,
            local_port: self.local_port,
            kind: self.kind,
            local_scheme: self.local_scheme,
            remote_port: self.remote_port,
            hostname: opt_text(self.hostname),
            access_mode: self.access_mode,
            allowed_cidrs: self.allowed_cidrs@,
            enabled: self.enabled,
            status: self.status,
            created_at: self.created_at,
            updated_at: self.updated_at,
        }
    }
}

/// Copies a list of address blocks.
pub fn copy_cidrs(list: &Vec<Cidr>) -> (r: Vec<Cidr>)
    ensures
        r@ == list@,
{
    let mut out: Vec<Cidr> = Vec::new();
    let mut i: usize = 0;
    while i < list.len()
        invariant
            i <= list@.len(),
            out@ == list@.take(i as int),
        decreases list@.len() - i,
    {
        out.push(list[i]);
        assert(out@ =~= list@.take(i + 1));
        i += 1;
    }
    assert(list@.take(i as int) =~= list@);
    out
}

impl Tunnel {
    /// A tunnel with the same contents.
    pub fn copied(&self) -> (r: Tunnel)
        ensures
            r@ == self@,
    {
        Tunnel {
            id: self.id,
            agent_id: self.agent_id,
            name: self.name.clone(),
            local_host: self.local_host.clone(),
            local_port: self.local_port,
            kind: self.kind,
            local_scheme: self.local_scheme,
            remote_port: self.remote_port,
            hostname: copy_opt(&self.hostname),
            access_mode: self.access_mode,
            allowed_cidrs: copy_cidrs(&self.allowed_cidrs),
            enabled: self.enabled,
            status: self.status,
            created_at: self.created_at,
            updated_at: self.updated_at,
        }
    }
}

/// The tunnels that a list shows.
pub open spec fn tunnel_views(list: Seq<Tunnel>) -> Seq<TunnelView> {
    list.map_values(|t: Tunnel| t@)
}

/// Where a source address is.
#[derive(Debug, Clone, PartialEq, Eq)]
pub struct GeoLocation {
    pub country_code: String,
    pub country_name: String,
}

impl GeoLocation {
    /// A location with the same contents.
    pub fn copied(&self) -> (r: GeoLocation)
        ensures
            r == *self,
    {
        GeoLocation {
            country_code: self.country_code.clone(),
            country_name: self.country_name.clone(),
        }
    }
}

/// Copies an optional location.
pub fn copy_location(o: &Option<GeoLocation>) -> (r: Option<GeoLocation>)
    ensures
        r == *o,
{
    match o {
        Some(l) => Some(l.copied()),
        None => None,
    }
}

/// What an agent asks of a new tunnel.
#[derive(Debug, Clone)]
pub struct CreateTunnelRequest {
    pub name: String,
    pub local_host: String,
    pub local_port: u16,
    pub kind: TunnelKind,
    pub local_scheme: LocalScheme,
    pub remote_port: Option<u16>,
    pub hostname: Option<String>,
    pub access_mode: AccessMode,
    pub allowed_cidrs: Vec<Cidr>,
    pub enabled: bool,
    pub allow_lan_target: bool,
}

/// What is to change about a tunnel; what is absent stays.
#[derive(Debug, Clone)]
pub struct UpdateTunnelRequest {
    pub name: Option<String>,
    pub local_host: Option<String>,
    pub local_port: Option<u16>,
    pub kind: Option<TunnelKind>,
    pub local_scheme: Option<LocalScheme>,
    pub remote_port: Option<u16>,
    pub hostname: Option<String>,
    pub access_mode: Option<AccessMode>,
    pub allowed_cidrs: Option<Vec<Cidr>>,
    pub enabled: Option<bool>,
    pub allow_lan_target: bool,
}

impl Default for UpdateTunnelRequest {
    fn default() -> (r: Self)
        ensures
            r.name is None,
            r.local_host is None,
            r.local_port is None,
            r.kind is None,
            r.local_scheme is None,
            r.remote_port is None,
            r.hostname is None,
            r.access_mode is None,
            r.allowed_cidrs is None,
            r.enabled is None,
            !r.allow_lan_target,
    {
        UpdateTunnelRequest {
            name: None,
            local_host: None,
            local_port: None,
            kind: None,
            local_scheme: None,
            remote_port: None,
            hostname: None,
            access_mode: None,
            allowed_cidrs: None,
            enabled: None,
            allow_lan_target: false,
        }
    }
}

/// What an end of a carrier can do.
#[derive(Debug, Clone, PartialEq, Eq)]
pub struct CarrierCapabilities {
    pub transports: Vec<ActiveTransport>,
    pub tunnel_kinds: Vec<TunnelKind>,
}

/// A control message between the relay and an agent.
#[derive(Debug, Clone, PartialEq, Eq)]
pub enum AgentControlMessage {
    Hello {
        protocol_version: u16,
        agent_id: u128,
        name: String,
        capabilities: CarrierCapabilities,
        config_version: u64,
    },
    Welcome {
        protocol_version: u16,
        server_time: Timestamp,
        capabilities: CarrierCapabilities,
        transport: Option<ActiveTransport>,
    },
    Ping { sent_at: Timestamp },
    Pong { sent_at: Timestamp },
    ConfigSync { tunnels: Vec<Tunnel> },
    OpenConnection {
        connection_id: u128,
        tunnel: Tunnel,
        peer_addr: String,
        peer_location: Option<GeoLocation>,
        ticket: String,
        expires_at: Timestamp,
    },
    OpenUdpSession {
        session_id: u128,
        tunnel: Tunnel,
        peer_addr: String,
        peer_location: Option<GeoLocation>,
        ticket: String,
        expires_at: Timestamp,
    },
    ConnectionAck {
        connection_id: u128,
        accepted: bool,
        error: Option<String>,
        ticket: Option<String>,
    },
    Traffic { connection_id: u128, bytes_up: u64, bytes_down: u64 },
    Error { code: String, message: String },
}

/// The first record on a carrier without an HTTP handshake.
#[derive(Debug, Clone, PartialEq, Eq)]
pub struct DirectCarrierAuth {
    pub token: String,
    pub hello: AgentControlMessage,
}

/// What an agent learns when it enrols.
#[derive(Debug, Clone, PartialEq, Eq)]
pub struct AgentEnrollmentResponse {
    pub tunnels: Vec<Tunnel>,
    pub transport_fingerprint: String,
    pub transport_certificate_der: String,
    pub quic_port: u16,
    pub kcp_port: u16,
    pub capabilities: CarrierCapabilities,
}

/// The credentials of the administrator.
#[derive(Debug, Clone)]
pub struct LoginRequest {
    pub username: String,
    pub password: String,
}

/// What the administrator learns about a session.
#[derive(Debug, Clone, PartialEq, Eq)]
pub struct LoginResponse {
    pub username: String,
    pub csrf_token: String,
}

/// The name of a new device.
#[derive(Debug, Clone)]
pub struct CreateDeviceRequest {
    pub name: String,
}

/// A new device, with the token that is shown once.
#[derive(Debug, Clone, PartialEq, Eq)]
pub struct DeviceTokenResponse {
    pub id: u128,
    pub name: String,
    pub token: String,
    pub created_at: Timestamp,
}

/// A device, as the console shows it.
#[derive(Debug, Clone, PartialEq, Eq)]
pub struct Device {
    pub id: u128,
    pub name: String,
    pub online: bool,
    pub revoked: bool,
    pub last_seen_at: Option<Timestamp>,
    pub created_at: Timestamp,
}

/// A line of the audit log.
#[derive(Debug, Clone, PartialEq, Eq)]
pub struct AuditEntry {
    pub id: i64,
    pub action: String,
    pub subject: String,
    pub detail: String,
    pub created_at: Timestamp,
}

/// A connection in progress.
#[derive(Debug, Clone, PartialEq, Eq)]
pub struct ActiveConnection {
    pub id: u128,
    pub tunnel_id: u128,
    pub peer_addr: String,
    pub peer_location: Option<GeoLocation>,
    pub opened_at: Timestamp,
    pub bytes_up: u64,
    pub bytes_down: u64,
    pub tunnel_kind: TunnelKind,
    pub transport: Option<ActiveTransport>,
}

impl ActiveConnection {
    /// A connection with the same contents.
    pub fn copied(&self) -> (r: ActiveConnection)
        ensures
            r == *self,
    {
        ActiveConnection {
            id: self.id,
            tunnel_id: self.tunnel_id,
            peer_addr: self.peer_addr.clone(),
            peer_location: copy_location(&self.peer_location),
            opened_at: self.opened_at,
            bytes_up: self.bytes_up,
            bytes_down: self.bytes_down,
            tunnel_kind: self.tunnel_kind,
            transport: self.transport,
        }
    }
}

/// The counters of the relay at one moment.
#[derive(Debug, Clone, Copy, PartialEq, Eq, Structural)]
pub struct MetricsSnapshot {
    pub online_agents: u64,
    pub active_connections: u64,
    pub bytes_up: u64,
    pub bytes_down: u64,
    pub rejected_connections: u64,
    pub failed_connections: u64,
    pub carrier_sessions: u64,
    pub active_udp_sessions: u64,
    pub http_requests: u64,
    pub quic_connections: u64,
    pub kcp_connections: u64,
    pub wss_connections: u64,
}

impl MetricsSnapshot {
    /// All counters at zero.
    pub open spec fn zero() -> MetricsSnapshot {
        MetricsSnapshot {
            online_agents: 0,
            active_connections: 0,
            bytes_up: 0,
            bytes_down: 0,
            rejected_connections: 0,
            failed_connections: 0,
            carrier_sessions: 0,
            active_udp_sessions: 0,
            http_requests: 0,
            quic_connections: 0,
            kcp_connections: 0,
            wss_connections: 0,
        }
    }
}

impl Default for MetricsSnapshot {
    fn default() -> (r: Self)
        ensures
            r == MetricsSnapshot::zero(),
    {
        MetricsSnapshot {
            online_agents: 0,
            active_connections: 0,
            bytes_up: 0,
            bytes_down: 0,
            rejected_connections: 0,
            failed_connections: 0,
            carrier_sessions: 0,
            active_udp_sessions: 0,
            http_requests: 0,
            quic_connections: 0,
            kcp_connections: 0,
            wss_connections: 0,
        }
    }
}

/// An error as the API reports it.
#[derive(Debug, Clone, PartialEq, Eq)]
pub struct ApiError {
    pub code: String,
    pub message: String,
}

/// Before anything has happened, no metric shows anything.
pub proof fn law_metrics_begin_at_zero()
    ensures
        ({
            let m = MetricsSnapshot::zero();
            &&& m.online_agents == 0 && m.active_connections == 0 && m.carrier_sessions == 0
            &&& m.bytes_up == 0 && m.bytes_down == 0
            &&& m.rejected_connections == 0 && m.failed_connections == 0
            &&& m.active_udp_sessions == 0 && m.http_requests == 0
            &&& m.quic_connections == 0 && m.kcp_connections == 0 && m.wss_connections == 0
        }),
{
}

} // verus!
