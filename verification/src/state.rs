//! What the relay knows while it runs.
use crate::clock::{after, instant_after};
use crate::config::Config;
use crate::geoip::{GeoIpResolver, GeoView};
use crate::protocol::{ActiveConnection, ActiveTransport, MetricsSnapshot};
use crate::registry::Registry;
use crate::text;
use vstd::prelude::*;

verus! {

/// A session of the administrator.
#[derive(Debug, Clone, PartialEq, Eq)]
pub struct AdminSession {
    pub username: String,
    pub csrf_token: String,
    pub expires_at: u128,
}

/// The login attempts from one source since a moment.
#[derive(Debug, Clone, Copy, PartialEq, Eq, Structural)]
pub struct LoginWindow {
    pub started_at: u128,
    pub attempts: u8,
}

/// A connection that an agent has yet to acknowledge. `ack` stands for whoever waits for it.
#[derive(Debug, Clone, PartialEq, Eq)]
pub struct PendingConnection {
    pub agent_id: u128,
    pub ticket_hash: String,
    pub expires_at: u128,
    pub ack: u64,
}

/// A frame on its way to a stream.
#[derive(Debug, Clone, PartialEq, Eq)]
pub struct InboundCarrierFrame {
    pub kind: u8,
    pub payload: Vec<u8>,
}

/// A connected agent. `channel` stands for the carrier that leads to it.
#[derive(Debug, Clone, Copy, PartialEq, Eq, Structural)]
pub struct AgentPeer {
    pub session_id: u128,
    pub transport: ActiveTransport,
    pub channel: u64,
}

/// The counters of the relay. They wrap.
#[derive(Debug, Clone, Copy, PartialEq, Eq, Structural)]
pub struct Counters {
    pub bytes_up: u64,
    pub bytes_down: u64,
    pub rejected: u64,
    pub failed: u64,
    pub active_udp: u64,
    pub http_requests: u64,
    pub quic: u64,
    pub kcp: u64,
    pub wss: u64,
}

/// Bytes that passed from the agent or to it.
pub enum Traffic {
    Up(u64),
    Down(u64),
}

/// One more, or one again after the last.
pub open spec fn inc(n: u64) -> u64 {
    n.wrapping_add(1)
}

/// One less, or the last again after zero.
pub open spec fn dec(n: u64) -> u64 {
    n.wrapping_sub(1)
}

impl Counters {
    /// All counters at zero.
    pub open spec fn zero() -> Counters {
        Counters {
            bytes_up: 0,
            bytes_down: 0,
            rejected: 0,
            failed: 0,
            active_udp: 0,
            http_requests: 0,
            quic: 0,
            kcp: 0,
            wss: 0,
        }
    }

    /// The counters once bytes have passed.
    pub open spec fn with_traffic(self, passed: Traffic) -> Counters {
        match passed {
            Traffic::Up(n) => Counters { bytes_up: self.bytes_up.wrapping_add(n), ..self },
            Traffic::Down(n) => Counters { bytes_down: self.bytes_down.wrapping_add(n), ..self },
        }
    }

    /// Counts bytes from the agent.
    pub fn add_up(&mut self, value: u64)
        ensures
            *final(self) == old(self).with_traffic(Traffic::Up(value)),
    {
        self.bytes_up = self.bytes_up.wrapping_add(value);
    }

    /// Counts bytes to the agent.
    pub fn add_down(&mut self, value: u64)
        ensures
            *final(self) == old(self).with_traffic(Traffic::Down(value)),
    {
        self.bytes_down = self.bytes_down.wrapping_add(value);
    }

    /// Counts a rejected connection.
    pub fn add_rejected(&mut self)
        ensures
            *final(self) == (Counters { rejected: inc(old(self).rejected), ..*old(self) }),
    {
        self.rejected = self.rejected.wrapping_add(1);
    }

    /// Counts a failed connection.
    pub fn add_failed(&mut self)
        ensures
            *final(self) == (Counters { failed: inc(old(self).failed), ..*old(self) }),
    {
        self.failed = self.failed.wrapping_add(1);
    }

    /// The counters with one more carrier of a kind.
    pub open spec fn with_carrier(self, transport: ActiveTransport) -> Counters {
        match transport {
            ActiveTransport::Quic => Counters { quic: inc(self.quic), ..self },
            ActiveTransport::Kcp => Counters { kcp: inc(self.kcp), ..self },
            ActiveTransport::Wss => Counters { wss: inc(self.wss), ..self },
        }
    }

    /// The counters with one carrier of a kind less.
    pub open spec fn without_carrier(self, transport: ActiveTransport) -> Counters {
        match transport {
            ActiveTransport::Quic => Counters { quic: dec(self.quic), ..self },
            ActiveTransport::Kcp => Counters { kcp: dec(self.kcp), ..self },
            ActiveTransport::Wss => Counters { wss: dec(self.wss), ..self },
        }
    }

    /// Counts a carrier in.
    pub fn carrier_opened(&mut self, transport: ActiveTransport)
        ensures
            *final(self) == old(self).with_carrier(transport),
    {
        match transport {
            ActiveTransport::Quic => self.quic = self.quic.wrapping_add(1),
            ActiveTransport::Kcp => self.kcp = self.kcp.wrapping_add(1),
            ActiveTransport::Wss => self.wss = self.wss.wrapping_add(1),
        }
    }

    /// Counts a carrier out.
    pub fn carrier_closed(&mut self, transport: ActiveTransport)
        ensures
            *final(self) == old(self).without_carrier(transport),
    {
        match transport {
            ActiveTransport::Quic => self.quic = self.quic.wrapping_sub(1),
            ActiveTransport::Kcp => self.kcp = self.kcp.wrapping_sub(1),
            ActiveTransport::Wss => self.wss = self.wss.wrapping_sub(1),
        }
    }
}

impl Default for Counters {
    fn default() -> (r: Self)
        ensures
            r == Counters::zero(),
    {
        Counters {
            bytes_up: 0,
            bytes_down: 0,
            rejected: 0,
            failed: 0,
            active_udp: 0,
            http_requests: 0,
            quic: 0,
            kcp: 0,
            wss: 0,
        }
    }
}

/// The counters once bytes have passed in this order.
pub open spec fn counted(c: Counters, passed: Seq<Traffic>) -> Counters
    decreases passed.len(),
{
    if passed.len() == 0 {
        c
    } else {
        counted(c, passed.drop_last()).with_traffic(passed.last())
    }
}

/// How many bytes came from the agent.
pub open spec fn total_up(passed: Seq<Traffic>) -> nat
    decreases passed.len(),
{
    if passed.len() == 0 {
        0
    } else {
        total_up(passed.drop_last()) + match passed.last() {
            Traffic::Up(n) => n as nat,
            Traffic::Down(_) => 0,
        }
    }
}

/// How many bytes went to the agent.
pub open spec fn total_down(passed: Seq<Traffic>) -> nat
    decreases passed.len(),
{
    if passed.len() == 0 {
        0
    } else {
        total_down(passed.drop_last()) + match passed.last() {
            Traffic::Up(_) => 0,
            Traffic::Down(n) => n as nat,
        }
    }
}

/// In whatever order bytes pass either way, each counter grows by what passed its way, up to whole
/// rounds of 2^64, and the other counters stay as they are.
pub proof fn law_traffic_adds_up(c: Counters, passed: Seq<Traffic>)
    ensures
        counted(c, passed).bytes_up == (c.bytes_up + total_up(passed)) % 0x1_0000_0000_0000_0000,
        counted(c, passed).bytes_down == (c.bytes_down + total_down(passed))
            % 0x1_0000_0000_0000_0000,
        counted(c, passed) == (Counters {
            bytes_up: counted(c, passed).bytes_up,
            bytes_down: counted(c, passed).bytes_down,
            ..c
        }),
    decreases passed.len(),
{
    if passed.len() > 0 {
        law_traffic_adds_up(c, passed.drop_last());
    }
}

/// A carrier that is counted in and out again leaves the counters as they were.
pub proof fn law_carrier_count_balances(c: Counters, transport: ActiveTransport)
    ensures
        c.with_carrier(transport).without_carrier(transport) == c,
{
}

/// What the relay knows while it runs.
pub struct AppState {
    pub config: Config,
    pub sessions: Registry<String, AdminSession>,
    pub login_attempts: Registry<String, LoginWindow>,
    pub agents: Registry<u128, AgentPeer>,
    pub pending: Registry<u128, PendingConnection>,
    pub streams: Registry<u128, u64>,
    pub listeners: Registry<u128, u64>,
    pub active: Registry<u128, ActiveConnection>,
    pub counters: Counters,
    pub geoip: GeoIpResolver,
}

/// Whether every connection has begun at a time that a calendar can name.
pub open spec fn dated(active: Map<u128, ActiveConnection>) -> bool {
    forall|id: u128| #[trigger] active.contains_key(id) ==> active[id].opened_at.valid()
}

/// What the relay knows, as maps.
#[verifier::ext_equal]
pub struct AppView {
    pub config: Config,
    pub sessions: Map<Seq<char>, AdminSession>,
    pub login_attempts: Map<Seq<char>, LoginWindow>,
    pub agents: Map<u128, AgentPeer>,
    pub pending: Map<u128, PendingConnection>,
    pub streams: Map<u128, u64>,
    pub listeners: Map<u128, u64>,
    pub active: Map<u128, ActiveConnection>,
    pub counters: Counters,
    pub geoip: GeoView,
}

impl AppState {
    /// The settings and the collections are in good form.
    pub open spec fn wf(&self) -> bool {
        &&& self.config.wf()
        &&& self.sessions.wf()
        &&& self.login_attempts.wf()
        &&& self.agents.wf()
        &&& self.pending.wf()
        &&& self.streams.wf()
        &&& self.listeners.wf()
        &&& self.active.wf()
        &&& self.geoip.wf()
        &&& dated(self.active@)
    }

    pub open spec fn view(&self) -> AppView {
        AppView {
            config: self.config,
            sessions: self.sessions@,
            login_attempts: self.login_attempts@,
            agents: self.agents@,
            pending: self.pending@,
            streams: self.streams@,
            listeners: self.listeners@,
            active: self.active@,
            counters: self.counters,
            geoip: self.geoip@,
        }
    }

    /// A relay that has just started.
    pub fn new(config: Config) -> (r: Self)
        requires
            config.wf(),
        ensures
            r.wf(),
            r@ == (AppView {
                config,
                sessions: Map::empty(),
                login_attempts: Map::empty(),
                agents: Map::empty(),
                pending: Map::empty(),
                streams: Map::empty(),
                listeners: Map::empty(),
                active: Map::empty(),
                counters: Counters::zero(),
                geoip: GeoView {
                    endpoint: config.geoip_url@,
                    enabled: text::lower(text::trimmed(config.geoip_url@)) != "off"@,
                    cache: Map::empty(),
                },
            }),
    {
        let geoip = GeoIpResolver::new(config.geoip_url.clone());
        AppState {
            config,
            sessions: Registry::new(),
            login_attempts: Registry::new(),
            agents: Registry::new(),
            pending: Registry::new(),
            streams: Registry::new(),
            listeners: Registry::new(),
            active: Registry::new(),
            counters: Counters::default(),
            geoip,
        }
    }

    /// The counters that the console shows.
    pub fn metrics(&self) -> (r: MetricsSnapshot)
        requires
            self.wf(),
        ensures
            r == metrics_of(self@),
            r.online_agents == self@.agents.dom().len(),
            r.active_connections == self@.active.dom().len(),
    {
        let agents: u64 = self.agents.len() as u64;
        let active: u64 = self.active.len() as u64;
        MetricsSnapshot {
            online_agents: agents,
            active_connections: active,
            bytes_up: self.counters.bytes_up,
            bytes_down: self.counters.bytes_down,
            rejected_connections: self.counters.rejected,
            failed_connections: self.counters.failed,
            carrier_sessions: agents,
            active_udp_sessions: self.counters.active_udp,
            http_requests: self.counters.http_requests,
            quic_connections: self.counters.quic,
            kcp_connections: self.counters.kcp,
            wss_connections: self.counters.wss,
        }
    }
}

/// The counters that the console shows.
pub open spec fn metrics_of(s: AppView) -> MetricsSnapshot {
    MetricsSnapshot {
        online_agents: s.agents.dom().len() as u64,
        active_connections: s.active.dom().len() as u64,
        bytes_up: s.counters.bytes_up,
        bytes_down: s.counters.bytes_down,
        rejected_connections: s.counters.rejected,
        failed_connections: s.counters.failed,
        carrier_sessions: s.agents.dom().len() as u64,
        active_udp_sessions: s.counters.active_udp,
        http_requests: s.counters.http_requests,
        quic_connections: s.counters.quic,
        kcp_connections: s.counters.kcp,
        wss_connections: s.counters.wss,
    }
}

/// The moment at which a session that starts now ends.
pub fn session_expiry(now: u128, ttl: u64) -> (r: u128)
    requires
        instant_after(now, ttl) <= u128::MAX,
    ensures
        r == instant_after(now, ttl),
{
    after(now, ttl)
}

/// Counting one up and one down, within the range of the counter.
pub proof fn law_counting(n: u64)
    ensures
        n < u64::MAX ==> inc(n) == n + 1,
        n > 0 ==> dec(n) == n - 1,
        dec(inc(n)) == n,
{
}

/// A carrier is counted under its own kind, and touches no other counter.
pub proof fn law_carriers_are_counted_by_kind(c: Counters)
    requires
        c.quic < u64::MAX,
        c.kcp < u64::MAX,
        c.wss < u64::MAX,
    ensures
        c.with_carrier(ActiveTransport::Quic) == (Counters { quic: (c.quic + 1) as u64, ..c }),
        c.with_carrier(ActiveTransport::Kcp) == (Counters { kcp: (c.kcp + 1) as u64, ..c }),
        c.with_carrier(ActiveTransport::Wss) == (Counters { wss: (c.wss + 1) as u64, ..c }),
{
}

/// The metrics show each counter under its own name, and count the agents that are attached and the
/// connections in progress.
pub proof fn law_metrics_show_the_counters(s: AppView)
    ensures
        metrics_of(s).bytes_up == s.counters.bytes_up,
        metrics_of(s).bytes_down == s.counters.bytes_down,
        metrics_of(s).rejected_connections == s.counters.rejected,
        metrics_of(s).failed_connections == s.counters.failed,
        metrics_of(s).active_udp_sessions == s.counters.active_udp,
        metrics_of(s).http_requests == s.counters.http_requests,
        metrics_of(s).quic_connections == s.counters.quic,
        metrics_of(s).kcp_connections == s.counters.kcp,
        metrics_of(s).wss_connections == s.counters.wss,
        s.agents.dom().len() <= u64::MAX ==> metrics_of(s).online_agents == s.agents.dom().len()
            && metrics_of(s).carrier_sessions == s.agents.dom().len(),
        s.active.dom().len() <= u64::MAX ==> metrics_of(s).active_connections
            == s.active.dom().len(),
{
}

/// Before anything has happened, nothing is counted, and bytes that pass count from there.
pub proof fn law_counters_begin_at_zero(n: u64)
    ensures
        ({
            let c = Counters::zero();
            &&& c.bytes_up == 0 && c.bytes_down == 0 && c.rejected == 0 && c.failed == 0
            &&& c.active_udp == 0 && c.http_requests == 0
            &&& c.quic == 0 && c.kcp == 0 && c.wss == 0
        }),
        total_up(Seq::empty()) == 0 && total_down(Seq::empty()) == 0,
        counted(Counters::zero(), seq![Traffic::Up(n)]).bytes_up == n,
        counted(Counters::zero(), seq![Traffic::Up(n)]).bytes_down == 0,
        counted(Counters::zero(), seq![Traffic::Down(n)]).bytes_down == n,
        counted(Counters::zero(), seq![Traffic::Down(n)]).bytes_up == 0,
{
    let up = seq![Traffic::Up(n)];
    let down = seq![Traffic::Down(n)];
    assert(up.drop_last() =~= Seq::empty());
    assert(down.drop_last() =~= Seq::empty());
    assert(total_up(up.drop_last()) == 0 && total_down(up.drop_last()) == 0);
    assert(total_up(down.drop_last()) == 0 && total_down(down.drop_last()) == 0);
    law_traffic_adds_up(Counters::zero(), up);
    law_traffic_adds_up(Counters::zero(), down);
}

/// What passed is added up by its way: bytes up count up, bytes down count down.
pub proof fn law_totals(passed: Seq<Traffic>, n: u64)
    ensures
        total_up(passed.push(Traffic::Up(n))) == total_up(passed) + n,
        total_up(passed.push(Traffic::Down(n))) == total_up(passed),
        total_down(passed.push(Traffic::Down(n))) == total_down(passed) + n,
        total_down(passed.push(Traffic::Up(n))) == total_down(passed),
{
    assert(passed.push(Traffic::Up(n)).drop_last() =~= passed);
    assert(passed.push(Traffic::Down(n)).drop_last() =~= passed);
}

} // verus!
