//! Public connections: who is let in, how an agent is asked to take a stream, and how bytes move.
use crate::clock::{
    after, instant_after, ticket_deadline, ticket_fits, ticket_seconds, time_text, write_time,
};
use crate::error::AppError;
use crate::ids::{id_text, write_id};
use crate::net::{self, all_valid, ip_string, ip_text, IpAddr};
use crate::protocol::{
    tunnel_views, ActiveConnection, ActiveTransport, AgentControlMessage,
    GeoLocation, Timestamp, Tunnel, TunnelKind, TunnelView,
};
use crate::rows::{decoded, list_all, sound, TunnelRow};
use crate::secrets::{hash_token, token_digest};
use crate::socket::{socket_string, socket_text, SocketAddr};
use crate::state::{
    inc, AgentPeer, AppState, AppView, Counters, InboundCarrierFrame, PendingConnection,
};
use crate::text;
use crate::tunnels::{admits, source_allowed};
use crate::wire::{
    decode_carrier_frame, encode_carrier_frame, frame_bytes, frame_value, law_frame_round_trip,
    CARRIER_FRAME_DATA, CARRIER_FRAME_FIN, CARRIER_FRAME_RESET,
};
use vstd::prelude::*;

verus! {

// Listeners.
/// Whether a tunnel has a listener of its own.
pub open spec fn listens(t: TunnelView) -> bool {
    t.enabled && t.kind != TunnelKind::Web
}

/// What to do about the listener of a tunnel: cancel the one that is there, and start a new one.
#[derive(Debug, Clone, Copy, PartialEq, Eq, Structural)]
pub struct ListenerChange {
    pub cancel: Option<u64>,
    pub start: bool,
}

/// What to bind for a tunnel.
#[derive(Debug, Clone, Copy, PartialEq, Eq, Structural)]
pub enum ListenPlan {
    Nothing,
    Tcp(u16),
    Udp(u16),
}

/// Forgets the listener of a tunnel; hands back what cancels it.
pub fn stop_listener(state: &mut AppState, tunnel_id: u128) -> (r: Option<u64>)
    requires
        old(state).wf(),
    ensures
        final(state).wf(),
        final(state)@ == (AppView {
            listeners: old(state)@.listeners.remove(tunnel_id),
            ..old(state)@
        }),
        r == old(state)@.listeners.get(tunnel_id),
{
    state.listeners.remove(&tunnel_id)
}

/// Forgets the listener of a tunnel, and tells whether the tunnel wants a new one.
pub fn reconcile_listener(state: &mut AppState, tunnel: &Tunnel) -> (r: ListenerChange)
    requires
        old(state).wf(),
    ensures
        final(state).wf(),
        final(state)@ == (AppView {
            listeners: old(state)@.listeners.remove(tunnel.id),
            ..old(state)@
        }),
        r.cancel == old(state)@.listeners.get(tunnel.id),
        r.start == listens(tunnel@),
{
    let cancel = stop_listener(state, tunnel.id);
    ListenerChange { cancel, start: tunnel.enabled && tunnel.kind != TunnelKind::Web }
}

/// The tunnels of a list that have a listener of their own.
pub open spec fn listening(list: Seq<TunnelView>) -> Seq<TunnelView>
    decreases list.len(),
{
    if list.len() == 0 {
        Seq::empty()
    } else if listens(list.last()) {
        listening(list.drop_last()).push(list.last())
    } else {
        listening(list.drop_last())
    }
}

/// The stored tunnels that want a listener when the relay starts.
pub fn restore_listeners(rows: &Vec<TunnelRow>) -> (r: Result<Vec<Tunnel>, AppError>)
    ensures
        match decoded(rows@) {
            Ok(list) => r matches Ok(v) && tunnel_views(v@) == listening(list) && sound(v@),
            Err(reason) => r matches Err(e) && crate::error::fault(e, reason),
        },
{
    let all = match list_all(rows) {
        Ok(all) => all,
        Err(e) => {
            return Err(e);
        },
    };
    let ghost list = tunnel_views(all@);
    let mut out: Vec<Tunnel> = Vec::new();
    let mut i: usize = 0;
    assert(list.take(0) =~= Seq::<TunnelView>::empty());
    assert(tunnel_views(out@) =~= Seq::<TunnelView>::empty());
    while i < all.len()
        invariant
            i <= all@.len(),
            list == tunnel_views(all@),
            sound(all@),
            sound(out@),
            tunnel_views(out@) == listening(list.take(i as int)),
        decreases all@.len() - i,
    {
        let ghost done = tunnel_views(out@);
        assert(list.take(i + 1).drop_last() =~= list.take(i as int));
        assert(list.take(i + 1).last() == all@[i as int]@);
        if all[i].enabled && all[i].kind != TunnelKind::Web {
            let tunnel = all[i].copied();
            out.push(tunnel);
            assert(tunnel_views(out@) =~= done.push(tunnel@));
        }
        i += 1;
    }
    assert(list.take(i as int) =~= list);
    Ok(out)
}

/// Remembers the listener of a tunnel and tells what to bind.
pub fn start_listener(state: &mut AppState, tunnel: &Tunnel, token: u64) -> (r: ListenPlan)
    requires
        old(state).wf(),
    ensures
        final(state).wf(),
        final(state)@ == (AppView {
            listeners: old(state)@.listeners.insert(tunnel.id, token),
            ..old(state)@
        }),
        r == (match (tunnel.remote_port, tunnel.kind) {
            (None, _) => ListenPlan::Nothing,
            (Some(port), TunnelKind::Tcp) => ListenPlan::Tcp(port),
            (Some(port), _) => ListenPlan::Udp(port),
        }),
        r == listen_plan(tunnel@),
{
    state.listeners.insert(tunnel.id, token);
    match tunnel.remote_port {
        None => ListenPlan::Nothing,
        Some(port) => match tunnel.kind {
            TunnelKind::Tcp => ListenPlan::Tcp(port),
            _ => ListenPlan::Udp(port),
        },
    }
}

/// Forgets a listener that could not be bound, and counts the failure.
pub fn listener_failed(state: &mut AppState, tunnel_id: u128)
    requires
        old(state).wf(),
    ensures
        final(state).wf(),
        final(state)@ == (AppView {
            listeners: old(state)@.listeners.remove(tunnel_id),
            counters: Counters {
                failed: inc(old(state)@.counters.failed),
                ..old(state)@.counters
            },
            ..old(state)@
        }),
{
    state.listeners.remove(&tunnel_id);
    state.counters.add_failed();
}

/// The message that tells a connected agent its tunnels, and the carrier to send it on. Nothing
/// where the agent is away or its tunnels could not be read.
pub fn sync_agent(state: &AppState, agent_id: u128, items: Option<Vec<Tunnel>>) -> (r: Option<
    (u64, AgentControlMessage),
>)
    requires
        state.wf(),
    ensures
        r is Some <==> items is Some && state@.agents.contains_key(agent_id),
        r matches Some((channel, message)) ==> channel == state@.agents[agent_id].channel && message
            == (AgentControlMessage::ConfigSync { tunnels: items->0 }),
        tells_tunnels(r, state@, agent_id, items),
{
    match items {
        Some(tunnels) => match state.agents.get(&agent_id) {
            Some(peer) => Some((peer.channel, AgentControlMessage::ConfigSync { tunnels })),
            None => None,
        },
        None => None,
    }
}

// Streams.
/// What a stream is opened for.
#[derive(Debug, Clone, Copy, PartialEq, Eq, Structural)]
pub enum Flow {
    /// A TCP connection to a public port.
    Tcp,
    /// A request to a host name.
    Web,
    /// Datagrams from one source to a public port.
    Udp,
}

/// Why a source is turned away.
pub open spec fn not_allowed(ip: IpAddr) -> Seq<char> {
    "source "@ + ip_text(ip) + " is not allowed"@
}

/// Who may open a stream, what is counted where nobody may, and why. The sources of datagrams are
/// checked one by one, before their stream.
pub open spec fn admission(flow: Flow, s: AppView, t: TunnelView, ip: IpAddr) -> (
    Counters,
    Result<AgentPeer, Seq<char>>,
) {
    let c = s.counters;
    if flow != Flow::Udp && !admits(t, ip) {
        (Counters { rejected: inc(c.rejected), ..c }, Err(not_allowed(ip)))
    } else if !s.agents.contains_key(t.agent_id) {
        (
            if flow == Flow::Tcp {
                Counters { failed: inc(c.failed), ..c }
            } else {
                c
            },
            Err("agent is offline"@),
        )
    } else {
        (c, Ok(s.agents[t.agent_id]))
    }
}

/// Whether a result is an admission.
pub open spec fn admitted(
    r: Result<AgentPeer, String>,
    spec: Result<AgentPeer, Seq<char>>,
) -> bool {
    match spec {
        Ok(peer) => r == Ok::<AgentPeer, String>(peer),
        Err(reason) => r matches Err(e) && e@ == reason,
    }
}

/// Lets a source open a stream, or turns it away.
pub fn let_in(state: &mut AppState, tunnel: &Tunnel, ip: IpAddr, flow: Flow) -> (r: Result<
    AgentPeer,
    String,
>)
    requires
        old(state).wf(),
        all_valid(tunnel.allowed_cidrs@),
    ensures
        final(state).wf(),
        final(state)@ == (AppView {
            counters: admission(flow, old(state)@, tunnel@, ip).0,
            ..old(state)@
        }),
        admitted(r, admission(flow, old(state)@, tunnel@, ip).1),
{
    if flow != Flow::Udp && !source_allowed(tunnel, ip) {
        state.counters.add_rejected();
        let mut reason: String = "source ".to_owned();
        reason.append(ip_string(ip).as_str());
        reason.append(" is not allowed");
        return Err(reason);
    }
    let agent: Option<AgentPeer> = match state.agents.get(&tunnel.agent_id) {
        Some(peer) => Some(*peer),
        None => None,
    };
    match agent {
        Some(peer) => Ok(peer),
        None => {
            if flow == Flow::Tcp {
                state.counters.add_failed();
            }
            Err("agent is offline".to_owned())
        },
    }
}

/// Whether a message asks an agent to take a stream.
pub open spec fn asks(
    message: AgentControlMessage,
    flow: Flow,
    id: u128,
    t: TunnelView,
    peer: SocketAddr,
    location: Option<GeoLocation>,
    ticket: Seq<char>,
    wall: Timestamp,
    ttl: u64,
) -> bool {
    match message {
        AgentControlMessage::OpenConnection {
            connection_id,
            tunnel,
            peer_addr,
            peer_location,
            ticket: shown,
            expires_at,
        } => {
            &&& flow != Flow::Udp
            &&& connection_id == id
            &&& tunnel@ == t
            &&& peer_addr@ == socket_text(peer)
            &&& peer_location == location
            &&& shown@ == ticket
            &&& expires_at.is_after(wall, ticket_seconds(ttl))
        },
        AgentControlMessage::OpenUdpSession {
            session_id,
            tunnel,
            peer_addr,
            peer_location,
            ticket: shown,
            expires_at,
        } => {
            &&& flow == Flow::Udp
            &&& session_id == id
            &&& tunnel@ == t
            &&& peer_addr@ == socket_text(peer)
            &&& peer_location == location
            &&& shown@ == ticket
            &&& expires_at.is_after(wall, ticket_seconds(ttl))
        },
        _ => false,
    }
}

/// What is known once a stream was registered under a ticket.
pub open spec fn offered(
    s: AppView,
    t: AppView,
    id: u128,
    agent_id: u128,
    ticket: Seq<char>,
    stream: u64,
    ack: u64,
    now: u128,
) -> bool {
    &&& t.pending.contains_key(id)
    &&& t.pending[id].agent_id == agent_id
    &&& t.pending[id].ticket_hash@ == token_digest(ticket)
    &&& t.pending[id].expires_at == instant_after(now, s.config.ticket_ttl)
    &&& t.pending[id].ack == ack
    &&& t == AppView {
        streams: s.streams.insert(id, stream),
        pending: s.pending.insert(id, t.pending[id]),
        ..s
    }
}

/// Registers a stream for an agent, under a given identifier and ticket. `stream` stands for where
/// its frames go, `ack` for who waits for the answer.
pub fn register(
    state: &mut AppState,
    agent_id: u128,
    id: u128,
    ticket: &str,
    stream: u64,
    ack: u64,
    now: u128,
)
    requires
        old(state).wf(),
        instant_after(now, old(state).config.ticket_ttl) <= u128::MAX,
    ensures
        final(state).wf(),
        offered(old(state)@, final(state)@, id, agent_id, ticket@, stream, ack, now),
{
    let ttl: u64 = state.config.ticket_ttl;
    state.streams.insert(id, stream);
    state.pending.insert(
        id,
        PendingConnection {
            agent_id,
            ticket_hash: hash_token(ticket),
            expires_at: after(now, ttl),
            ack,
        },
    );
}

/// The message that asks an agent to take a stream, with a ticket that lives for so many seconds.
pub fn ask(
    flow: Flow,
    id: u128,
    tunnel: &Tunnel,
    peer: SocketAddr,
    location: Option<GeoLocation>,
    ticket: String,
    wall: Timestamp,
    ttl: u64,
) -> (r: AgentControlMessage)
    requires
        ticket_fits(wall, ttl),
    ensures
        asks(r, flow, id, tunnel@, peer, location, ticket@, wall, ttl),
{
    let expires_at = ticket_deadline(wall, ttl);
    match flow {
        Flow::Udp => AgentControlMessage::OpenUdpSession {
            session_id: id,
            tunnel: tunnel.copied(),
            peer_addr: socket_string(peer),
            peer_location: location,
            ticket,
            expires_at,
        },
        _ => AgentControlMessage::OpenConnection {
            connection_id: id,
            tunnel: tunnel.copied(),
            peer_addr: socket_string(peer),
            peer_location: location,
            ticket,
            expires_at,
        },
    }
}

/// The answer of an agent to an offer.
#[derive(Debug, Clone, PartialEq, Eq)]
pub enum AckOutcome {
    Accepted,
    Rejected(String),
    /// No answer came in time, or nobody was left to give one.
    TimedOut,
}

/// Why a stream is not opened, given the answer of the agent.
pub open spec fn refusal(flow: Flow, outcome: AckOutcome) -> Option<Seq<char>> {
    match (outcome, flow) {
        (AckOutcome::Accepted, _) => None,
        (AckOutcome::Rejected(error), Flow::Tcp) => Some("agent rejected connection: "@ + error@),
        (AckOutcome::Rejected(error), _) => Some(error@),
        (AckOutcome::TimedOut, Flow::Tcp) => Some("agent multiplexed stream timed out"@),
        (AckOutcome::TimedOut, Flow::Web) => Some("web stream acknowledgement timed out"@),
        (AckOutcome::TimedOut, Flow::Udp) => Some("UDP session acknowledgement timed out"@),
    }
}

/// What is left once the answer to an offer came: a stream that is not opened is forgotten.
pub open spec fn settled(s: AppView, flow: Flow, id: u128, outcome: AckOutcome) -> AppView {
    if outcome is Accepted {
        s
    } else {
        AppView {
            pending: s.pending.remove(id),
            streams: s.streams.remove(id),
            counters: if flow == Flow::Tcp && outcome is TimedOut {
                Counters { failed: inc(s.counters.failed), ..s.counters }
            } else {
                s.counters
            },
            ..s
        }
    }
}

/// Takes the answer to an offer.
pub fn settle(state: &mut AppState, flow: Flow, id: u128, outcome: AckOutcome) -> (r: Result<
    (),
    String,
>)
    requires
        old(state).wf(),
    ensures
        final(state).wf(),
        final(state)@ == settled(old(state)@, flow, id, outcome),
        match refusal(flow, outcome) {
            Some(reason) => r matches Err(e) && e@ == reason,
            None => r is Ok,
        },
{
    match outcome {
        AckOutcome::Accepted => Ok(()),
        AckOutcome::Rejected(error) => {
            state.pending.remove(&id);
            state.streams.remove(&id);
            match flow {
                Flow::Tcp => Err(text::join("agent rejected connection: ", error.as_str())),
                _ => Err(error),
            }
        },
        AckOutcome::TimedOut => {
            state.pending.remove(&id);
            state.streams.remove(&id);
            match flow {
                Flow::Tcp => {
                    state.counters.add_failed();
                    Err("agent multiplexed stream timed out".to_owned())
                },
                Flow::Web => Err("web stream acknowledgement timed out".to_owned()),
                Flow::Udp => Err("UDP session acknowledgement timed out".to_owned()),
            }
        },
    }
}

/// Whether a connection is the one that was opened.
pub open spec fn opened(
    c: ActiveConnection,
    id: u128,
    t: TunnelView,
    peer: SocketAddr,
    location: Option<GeoLocation>,
    transport: ActiveTransport,
    opened_at: Timestamp,
) -> bool {
    &&& c.id == id
    &&& c.tunnel_id == t.id
    &&& c.peer_addr@ == socket_text(peer)
    &&& c.peer_location == location
    &&& c.opened_at == opened_at
    &&& c.bytes_up == 0
    &&& c.bytes_down == 0
    &&& c.tunnel_kind == t.kind
    &&& c.transport == Some(transport)
}

/// Lists a stream that was opened among the connections in progress.
pub fn activate(
    state: &mut AppState,
    id: u128,
    tunnel: &Tunnel,
    peer: SocketAddr,
    location: Option<GeoLocation>,
    transport: ActiveTransport,
    opened_at: Timestamp,
)
    requires
        old(state).wf(),
        opened_at.valid(),
    ensures
        final(state).wf(),
        activated(
            old(state)@,
            final(state)@,
            id,
            tunnel@,
            peer,
            location,
            transport,
            opened_at,
        ),
{
    state.active.insert(
        id,
        ActiveConnection {
            id,
            tunnel_id: tunnel.id,
            peer_addr: socket_string(peer),
            peer_location: location,
            opened_at,
            bytes_up: 0,
            bytes_down: 0,
            tunnel_kind: tunnel.kind,
            transport: Some(transport),
        },
    );
}

/// What is known once a stream is listed among the connections in progress.
pub open spec fn activated(
    s: AppView,
    t: AppView,
    id: u128,
    tunnel: TunnelView,
    peer: SocketAddr,
    location: Option<GeoLocation>,
    transport: ActiveTransport,
    opened_at: Timestamp,
) -> bool {
    &&& t.active.contains_key(id)
    &&& opened(t.active[id], id, tunnel, peer, location, transport, opened_at)
    &&& t == AppView { active: s.active.insert(id, t.active[id]), ..s }
}

/// What is known once a UDP session is counted in.
pub open spec fn udp_counted(s: AppView) -> AppView {
    AppView {
        counters: Counters { active_udp: inc(s.counters.active_udp), ..s.counters },
        ..s
    }
}

/// Counts a UDP session in.
pub fn count_udp(state: &mut AppState)
    requires
        old(state).wf(),
    ensures
        final(state).wf(),
        final(state)@ == udp_counted(old(state)@),
{
    state.counters.active_udp = state.counters.active_udp.wrapping_add(1);
}

/// What is recorded of a connection that ended.
#[derive(Debug, Clone, PartialEq, Eq)]
pub struct HistoryRow {
    pub id: String,
    pub tunnel_id: String,
    pub peer_addr: String,
    pub opened_at: String,
    pub closed_at: String,
    pub bytes_up: i64,
    pub bytes_down: i64,
}

/// Whether a row records a connection.
pub open spec fn records(row: HistoryRow, c: ActiveConnection, closed_at: Timestamp) -> bool {
    &&& row.id@ == id_text(c.id)
    &&& row.tunnel_id@ == id_text(c.tunnel_id)
    &&& row.peer_addr@ == c.peer_addr@
    &&& row.opened_at@ == time_text(c.opened_at)
    &&& row.closed_at@ == time_text(closed_at)
    &&& row.bytes_up == c.bytes_up as i64
    &&& row.bytes_down == c.bytes_down as i64
}

/// What is left once a stream has ended.
pub open spec fn finished(s: AppView, id: u128) -> AppView {
    AppView { streams: s.streams.remove(id), active: s.active.remove(id), ..s }
}

/// Forgets a stream that ended. Of a connection to a public port a record is handed back.
pub fn finish(state: &mut AppState, flow: Flow, id: u128, closed_at: Timestamp) -> (r: Option<
    HistoryRow,
>)
    requires
        old(state).wf(),
        closed_at.valid(),
    ensures
        final(state).wf(),
        final(state)@ == finished(old(state)@, id),
        r is Some <==> flow == Flow::Tcp && old(state)@.active.contains_key(id),
        r matches Some(row) ==> records(row, old(state)@.active[id], closed_at),
{
    state.streams.remove(&id);
    let summary = state.active.remove(&id);
    if flow != Flow::Tcp {
        return None;
    }
    match summary {
        Some(c) => Some(
            HistoryRow {
                id: write_id(c.id),
                tunnel_id: write_id(c.tunnel_id),
                peer_addr: c.peer_addr,
                opened_at: write_time(c.opened_at),
                closed_at: write_time(closed_at),
                bytes_up: c.bytes_up as i64,
                bytes_down: c.bytes_down as i64,
            },
        ),
        None => None,
    }
}

// Acknowledgements.
/// What an acknowledgement tells whoever waits for it.
#[derive(Debug, PartialEq, Eq)]
pub struct Acknowledgement {
    pub ack: u64,
    pub result: Result<(), String>,
}

/// Whether an acknowledgement counts: it is of the agent that was asked, it shows the ticket, and
/// it comes in time.
pub open spec fn ack_counts(
    s: AppView,
    id: u128,
    agent_id: u128,
    ticket: Option<Seq<char>>,
    now: u128,
) -> bool {
    &&& s.pending.contains_key(id)
    &&& s.pending[id].agent_id == agent_id
    &&& s.pending[id].expires_at > now
    &&& ticket matches Some(t) && s.pending[id].ticket_hash@ == token_digest(t)
}

/// What is left after an acknowledgement.
pub open spec fn acked(
    s: AppView,
    id: u128,
    agent_id: u128,
    ticket: Option<Seq<char>>,
    now: u128,
) -> AppView {
    if ack_counts(s, id, agent_id, ticket, now) {
        AppView { pending: s.pending.remove(id), ..s }
    } else {
        s
    }
}

/// The text that an optional string slice shows.
pub open spec fn opt_str(o: Option<&str>) -> Option<Seq<char>> {
    match o {
        Some(s) => Some(s@),
        None => None,
    }
}

/// Takes the acknowledgement of an agent. Nothing where it does not count.
pub fn acknowledge_connection(
    state: &mut AppState,
    connection_id: u128,
    agent_id: u128,
    ticket: Option<&str>,
    accepted: bool,
    error: Option<String>,
    now: u128,
) -> (r: Option<Acknowledgement>)
    requires
        old(state).wf(),
    ensures
        final(state).wf(),
        final(state)@ == acked(old(state)@, connection_id, agent_id, opt_str(ticket), now),
        r is Some <==> ack_counts(old(state)@, connection_id, agent_id, opt_str(ticket), now),
        r matches Some(a) ==> a.ack == old(state)@.pending[connection_id].ack && (match a.result {
            Ok(_) => accepted,
            Err(e) => !accepted && e@ == (match error {
                Some(reason) => reason@,
                None => "local target rejected connection"@,
            }),
        }),
{
    let counts: bool = match state.pending.get(&connection_id) {
        Some(pending) => pending.agent_id == agent_id && pending.expires_at > now && match ticket {
            Some(ticket) => text::same(
                pending.ticket_hash.as_str(),
                hash_token(ticket).as_str(),
            ),
            None => false,
        },
        None => false,
    };
    if !counts {
        return None;
    }
    match state.pending.remove(&connection_id) {
        Some(pending) => {
            let result: Result<(), String> = if accepted {
                Ok(())
            } else {
                match error {
                    Some(reason) => Err(reason),
                    None => Err("local target rejected connection".to_owned()),
                }
            };
            Some(Acknowledgement { ack: pending.ack, result })
        },
        None => None,
    }
}

/// A ticket opens one stream: whatever acknowledgement comes after one that counted, it does not.
pub proof fn law_tickets_are_used_once(
    s: AppView,
    id: u128,
    agent_id: u128,
    ticket: Option<Seq<char>>,
    now: u128,
    other_agent: u128,
    other_ticket: Option<Seq<char>>,
    later: u128,
)
    requires
        ack_counts(s, id, agent_id, ticket, now),
    ensures
        !ack_counts(acked(s, id, agent_id, ticket, now), id, other_agent, other_ticket, later),
{
}

/// The agent that was asked can open the stream with the ticket until the ticket's time is over,
/// and not from then on.
pub proof fn law_tickets_open_in_time(
    s: AppView,
    t: AppView,
    id: u128,
    agent_id: u128,
    ticket: Seq<char>,
    stream: u64,
    ack: u64,
    now: u128,
    later: u128,
)
    requires
        offered(s, t, id, agent_id, ticket, stream, ack, now),
    ensures
        ack_counts(t, id, agent_id, Some(ticket), later) <==> later < instant_after(
            now,
            s.config.ticket_ttl,
        ),
{
}

/// No other agent, no answer without a ticket and no ticket with another digest opens a stream.
pub proof fn law_only_the_ticket_opens(
    s: AppView,
    t: AppView,
    id: u128,
    agent_id: u128,
    ticket: Seq<char>,
    stream: u64,
    ack: u64,
    now: u128,
    other: u128,
    shown: Option<Seq<char>>,
    later: u128,
)
    requires
        offered(s, t, id, agent_id, ticket, stream, ack, now),
        other != agent_id || shown is None || token_digest(shown->0) != token_digest(ticket),
    ensures
        !ack_counts(t, id, other, shown, later),
{
}

/// An offer that is refused or not answered leaves nothing behind, where its identifier is new.
pub proof fn law_refused_offers_are_forgotten(
    s: AppView,
    t: AppView,
    id: u128,
    agent_id: u128,
    ticket: Seq<char>,
    stream: u64,
    ack: u64,
    now: u128,
    flow: Flow,
    outcome: AckOutcome,
)
    requires
        offered(s, t, id, agent_id, ticket, stream, ack, now),
        !s.pending.contains_key(id),
        !s.streams.contains_key(id),
        !(outcome is Accepted),
    ensures
        settled(t, flow, id, outcome).pending == s.pending,
        settled(t, flow, id, outcome).streams == s.streams,
        settled(t, flow, id, outcome).active == s.active,
{
    assert(settled(t, flow, id, outcome).pending =~= s.pending);
    assert(settled(t, flow, id, outcome).streams =~= s.streams);
}

/// A source that a tunnel does not admit is never handed to an agent.
pub proof fn law_strangers_are_turned_away(flow: Flow, s: AppView, t: TunnelView, ip: IpAddr)
    requires
        !admits(t, ip),
        flow != Flow::Udp,
    ensures
        admission(flow, s, t, ip).1 is Err,
        admission(flow, s, t, ip).0.rejected == inc(s.counters.rejected),
{
}

// Frames.
/// Where a frame goes: to the stream that it names, where that is open.
pub fn route_carrier_frame(state: &AppState, frame: &[u8]) -> (r: Option<(u64, InboundCarrierFrame)>)
    requires
        state.wf(),
    ensures
        match frame_value(frame@) {
            Some((kind, id, payload)) => {
                &&& r is Some <==> state@.streams.contains_key(id)
                &&& r matches Some((stream, inbound)) ==> stream == state@.streams[id]
                    && inbound.kind == kind && inbound.payload@ == payload
            },
            None => r is None,
        },
{
    match decode_carrier_frame(frame) {
        Some((kind, id, payload)) => match state.streams.get(&id) {
            Some(stream) => Some((*stream, InboundCarrierFrame { kind, payload })),
            None => None,
        },
        None => None,
    }
}

/// The frame that carries what was read from a connection. Where nothing was left to read it ends
/// the stream.
pub open spec fn up_frame(id: u128, bytes: Seq<u8>) -> Seq<u8> {
    if bytes.len() == 0 {
        frame_bytes(CARRIER_FRAME_FIN, id, bytes)
    } else {
        frame_bytes(CARRIER_FRAME_DATA, id, bytes)
    }
}

/// The frame that carries what was read from a connection, and whether it is the last.
pub fn bridge_up(id: u128, bytes: &[u8]) -> (r: (Vec<u8>, bool))
    ensures
        r.0@ == up_frame(id, bytes@),
        r.1 == (bytes@.len() == 0),
{
    if bytes.len() == 0 {
        (encode_carrier_frame(CARRIER_FRAME_FIN, id, bytes), true)
    } else {
        (encode_carrier_frame(CARRIER_FRAME_DATA, id, bytes), false)
    }
}

/// What to do with a frame that came for a connection.
#[derive(Debug, Clone, Copy, PartialEq, Eq, Structural)]
pub enum BridgeStep {
    /// Write its bytes.
    Write,
    /// Nothing more will come: close the direction.
    Finish,
    /// The other end gave the stream up.
    Reset,
    Skip,
}

/// What to do with a frame of a kind.
pub open spec fn down_step(kind: u8) -> BridgeStep {
    if kind == CARRIER_FRAME_DATA {
        BridgeStep::Write
    } else if kind == CARRIER_FRAME_FIN {
        BridgeStep::Finish
    } else if kind == CARRIER_FRAME_RESET {
        BridgeStep::Reset
    } else {
        BridgeStep::Skip
    }
}

/// What to do with a frame that came for a connection.
pub fn bridge_down(frame: &InboundCarrierFrame) -> (r: BridgeStep)
    ensures
        r == down_step(frame.kind),
{
    if frame.kind == CARRIER_FRAME_DATA {
        BridgeStep::Write
    } else if frame.kind == CARRIER_FRAME_FIN {
        BridgeStep::Finish
    } else if frame.kind == CARRIER_FRAME_RESET {
        BridgeStep::Reset
    } else {
        BridgeStep::Skip
    }
}

/// Why a connection is given up where nothing came for too long.
pub fn idle_reason() -> (r: String)
    ensures
        r@ == "connection idle timeout"@,
{
    "connection idle timeout".to_owned()
}

/// Why a connection is given up where the agent resets its stream.
pub fn reset_reason() -> (r: String)
    ensures
        r@ == "agent reset stream"@,
{
    "agent reset stream".to_owned()
}

/// How a connection ended whose two directions ended so: the way to the agent is looked at first.
pub fn bridge_result(up: Option<String>, down: Option<String>) -> (r: Option<String>)
    ensures
        r == (match up {
            Some(reason) => Some(reason),
            None => down,
        }),
        r == first_reason(up, down),
{
    match up {
        Some(reason) => Some(reason),
        None => down,
    }
}

/// A connection with more bytes to the agent.
pub open spec fn more_down(
    active: Map<u128, ActiveConnection>,
    id: u128,
    count: u64,
) -> Map<u128, ActiveConnection> {
    if active.contains_key(id) {
        active.insert(
            id,
            ActiveConnection {
                bytes_down: active[id].bytes_down.wrapping_add(count),
                ..active[id]
            },
        )
    } else {
        active
    }
}

/// A connection with more bytes from the agent.
pub open spec fn more_up(
    active: Map<u128, ActiveConnection>,
    id: u128,
    count: u64,
) -> Map<u128, ActiveConnection> {
    if active.contains_key(id) {
        active.insert(
            id,
            ActiveConnection { bytes_up: active[id].bytes_up.wrapping_add(count), ..active[id] },
        )
    } else {
        active
    }
}

/// Counts bytes that were sent to an agent.
pub fn sent_down(state: &mut AppState, id: u128, count: u64)
    requires
        old(state).wf(),
    ensures
        final(state).wf(),
        final(state)@ == (AppView {
            counters: Counters {
                bytes_down: old(state)@.counters.bytes_down.wrapping_add(count),
                ..old(state)@.counters
            },
            active: more_down(old(state)@.active, id, count),
            ..old(state)@
        }),
        final(state)@ == moved_down(old(state)@, id, count),
{
    let ghost before = state.active@;
    state.counters.add_down(count);
    if let Some(mut active) = state.active.remove(&id) {
        active.bytes_down = active.bytes_down.wrapping_add(count);
        state.active.insert(id, active);
        assert(state.active@ =~= more_down(before, id, count));
    } else {
        assert(state.active@ =~= before);
    }
}

/// Counts bytes that came from an agent.
pub fn wrote_up(state: &mut AppState, id: u128, count: u64)
    requires
        old(state).wf(),
    ensures
        final(state).wf(),
        final(state)@ == (AppView {
            counters: Counters {
                bytes_up: old(state)@.counters.bytes_up.wrapping_add(count),
                ..old(state)@.counters
            },
            active: more_up(old(state)@.active, id, count),
            ..old(state)@
        }),
        final(state)@ == moved_up(old(state)@, id, count),
{
    let ghost before = state.active@;
    state.counters.add_up(count);
    if let Some(mut active) = state.active.remove(&id) {
        active.bytes_up = active.bytes_up.wrapping_add(count);
        state.active.insert(id, active);
        assert(state.active@ =~= more_up(before, id, count));
    } else {
        assert(state.active@ =~= before);
    }
}

/// The frames that carry a run of reads, the last of which ends the stream.
pub open spec fn up_frames(id: u128, reads: Seq<Seq<u8>>) -> Seq<Seq<u8>> {
    reads.map_values(|bytes: Seq<u8>| up_frame(id, bytes)).push(up_frame(id, Seq::empty()))
}

/// What a run of frames makes the other end write to its connection, and whether the direction was
/// closed in good order.
pub open spec fn delivered(id: u128, frames: Seq<Seq<u8>>) -> (Seq<u8>, bool)
    decreases frames.len(),
{
    if frames.len() == 0 {
        (Seq::empty(), false)
    } else {
        let rest = delivered(id, frames.skip(1));
        match frame_value(frames[0]) {
            Some((kind, at, payload)) => if at != id {
                rest
            } else {
                match down_step(kind) {
                    BridgeStep::Write => (payload + rest.0, rest.1),
                    BridgeStep::Finish => (Seq::empty(), true),
                    BridgeStep::Reset => (Seq::empty(), false),
                    BridgeStep::Skip => rest,
                }
            },
            None => rest,
        }
    }
}

/// The bytes of a run of reads, one after the other.
pub open spec fn all_bytes(reads: Seq<Seq<u8>>) -> Seq<u8>
    decreases reads.len(),
{
    if reads.len() == 0 {
        Seq::empty()
    } else {
        reads[0] + all_bytes(reads.skip(1))
    }
}

/// What is read at one end of a stream is what is written at the other, to the last byte, and the
/// end of the one is the end of the other.
pub proof fn law_streams_carry_bytes(id: u128, reads: Seq<Seq<u8>>)
    requires
        forall|i: int| 0 <= i < reads.len() ==> (#[trigger] reads[i]).len() > 0,
    ensures
        delivered(id, up_frames(id, reads)) == (all_bytes(reads), true),
    decreases reads.len(),
{
    let frames = up_frames(id, reads);
    if reads.len() == 0 {
        assert(frames[0] == up_frame(id, Seq::empty()));
        law_frame_round_trip(CARRIER_FRAME_FIN, id, Seq::empty(), frames[0]);
    } else {
        let rest = reads.skip(1);
        assert forall|i: int| 0 <= i < rest.len() implies (#[trigger] rest[i]).len() > 0 by {
            assert(rest[i] == reads[i + 1]);
        }
        law_streams_carry_bytes(id, rest);
        assert(frames[0] == up_frame(id, reads[0]));
        assert(frames.skip(1) =~= up_frames(id, rest));
        law_frame_round_trip(CARRIER_FRAME_DATA, id, reads[0], frames[0]);
    }
}

// Forwarded addresses.
/// The first address of a list of hops.
pub open spec fn forwarded_ip(value: Option<Seq<char>>) -> Option<IpAddr> {
    match value {
        Some(s) => net::ip_value(text::trimmed(text::before(s, ','))),
        None => None,
    }
}

/// The first address of a list of hops.
pub fn parse_forwarded_ip(value: Option<&str>) -> (r: Option<IpAddr>)
    ensures
        r == forwarded_ip(opt_str(value)),
{
    match value {
        Some(s) => net::parse_ip(text::trim(text::take_before(s, ','))),
        None => None,
    }
}

/// What stands before a comma, where the text in front of it has none.
proof fn lemma_before_comma(s: Seq<char>, rest: Seq<char>)
    requires
        forall|i: int| 0 <= i < s.len() ==> #[trigger] s[i] != ',',
    ensures
        text::before(s, ',') == s,
        text::before(s + seq![','] + rest, ',') == s,
{
    assert(!s.contains(','));
    text::lemma_first_at(s, ',');
    assert(text::before(s, ',') =~= s);
    crate::readback::lemma_cut(s, ',', rest);
}

/// A text that has no white space at its ends is what is left of it between two spaces.
proof fn lemma_between_spaces(s: Seq<char>)
    requires
        s.len() > 0,
        !text::is_white(s[0]),
        !text::is_white(s.last()),
    ensures
        text::trimmed(s) == s,
        text::trimmed(s + seq![' ']) == s,
        text::trimmed(seq![' '] + (s + seq![' '])) == s,
{
    let behind = s + seq![' '];
    let padded = seq![' '] + behind;
    assert(padded.skip(1) =~= behind);
    assert(behind[0] == s[0]);
    assert(behind.drop_last() =~= s);
    assert(behind.last() == ' ');
    assert(text::trim_start(behind) == behind);
    assert(text::trim_start(padded) == text::trim_start(padded.skip(1)));
    assert(text::trim_end(s) == s);
    assert(text::trim_end(behind) == text::trim_end(behind.drop_last()));
}

/// A header that names one address gives that address, and so does one that goes on behind it with a
/// comma; white space around the address does not matter. Without a header there is no address.
pub proof fn law_the_first_forwarded_address_counts(ip: IpAddr, rest: Seq<char>)
    ensures
        forwarded_ip(Some(ip_text(ip))) == Some(ip),
        forwarded_ip(Some(seq![' '] + (ip_text(ip) + seq![' ']))) == Some(ip),
        forwarded_ip(Some(ip_text(ip) + seq![','] + rest)) == Some(ip),
        forwarded_ip(Some(ip_text(ip) + seq![' '] + seq![','] + rest)) == Some(ip),
        forwarded_ip(None) is None,
{
    let s = ip_text(ip);
    crate::readback::law_addresses_are_read_back(ip);
    crate::readback::law_address_characters(ip);
    assert forall|i: int| 0 <= i < s.len() implies #[trigger] s[i] != ',' by {}
    assert(!text::is_white(s[0]));
    assert(s.last() == s[s.len() - 1]);
    assert(!text::is_white(s.last()));
    lemma_between_spaces(s);
    let behind = s + seq![' '];
    let padded = seq![' '] + behind;
    assert forall|i: int| 0 <= i < behind.len() implies #[trigger] behind[i] != ',' by {
        if i < s.len() {
            assert(behind[i] == s[i]);
        }
    }
    assert forall|i: int| 0 <= i < padded.len() implies #[trigger] padded[i] != ',' by {
        if i > 0 {
            assert(padded[i] == behind[i - 1]);
        }
    }
    lemma_before_comma(s, rest);
    lemma_before_comma(behind, rest);
    lemma_before_comma(padded, rest);
}

/// What stands behind the first comma of a header does not matter, and white space around what stands
/// before it does not either; a header without a comma is an address as a whole, or none.
pub proof fn law_only_the_first_hop_counts(first: Seq<char>, rest: Seq<char>)
    requires
        forall|i: int| 0 <= i < first.len() ==> #[trigger] first[i] != ',',
    ensures
        forwarded_ip(Some(first)) == net::ip_value(text::trimmed(first)),
        forwarded_ip(Some(first + seq![','] + rest)) == forwarded_ip(Some(first)),
        forwarded_ip(None) is None,
{
    lemma_before_comma(first, rest);
}

// What holds of streams.
/// A listener is kept up for the tunnels that are enabled and have a public port of their own: all
/// but web tunnels. Those are restored, each once and in order, and no others.
pub proof fn law_enabled_ports_are_listened_on(list: Seq<TunnelView>, t: TunnelView)
    ensures
        listens(t) <==> t.enabled && (t.kind == TunnelKind::Tcp || t.kind == TunnelKind::Udp),
        listening(Seq::empty()) == Seq::<TunnelView>::empty(),
        listens(t) ==> listening(list.push(t)) == listening(list).push(t),
        !listens(t) ==> listening(list.push(t)) == listening(list),
{
    assert(list.push(t).drop_last() =~= list);
}

/// A source that its tunnel admits is handed to the agent of that tunnel, while the agent is there,
/// and nothing is counted. A source that is not admitted is counted as rejected, a TCP connection to
/// an agent that is not there as failed, and neither is handed on.
pub proof fn law_admitted_sources_reach_the_agent(flow: Flow, s: AppView, t: TunnelView, ip: IpAddr)
    ensures
        ({
            let (counters, answer) = admission(flow, s, t, ip);
            let passes = flow == Flow::Udp || admits(t, ip);
            &&& passes && s.agents.contains_key(t.agent_id) ==> answer == Ok::<
                AgentPeer,
                Seq<char>,
            >(s.agents[t.agent_id]) && counters == s.counters
            &&& passes && !s.agents.contains_key(t.agent_id) ==> answer == Err::<
                AgentPeer,
                Seq<char>,
            >("agent is offline"@)
            &&& passes && !s.agents.contains_key(t.agent_id) && flow == Flow::Tcp ==> counters == (
            Counters { failed: s.counters.failed.wrapping_add(1), ..s.counters })
            &&& passes && flow != Flow::Tcp ==> counters == s.counters
            &&& !passes ==> answer is Err && counters == (Counters {
                rejected: s.counters.rejected.wrapping_add(1),
                ..s.counters
            })
        }),
{
}

/// An offer tells the agent what stream it is, of which tunnel, from which source and from where, the
/// ticket that opens it, and until when: a TCP connection and a web request by the one message, a UDP
/// session by the other.
pub proof fn law_offers_tell_what_they_are(
    message: AgentControlMessage,
    flow: Flow,
    id: u128,
    t: TunnelView,
    peer: SocketAddr,
    location: Option<GeoLocation>,
    ticket: Seq<char>,
    wall: Timestamp,
    ttl: u64,
)
    requires
        asks(message, flow, id, t, peer, location, ticket, wall, ttl),
    ensures
        flow == Flow::Tcp || flow == Flow::Web ==> message is OpenConnection,
        flow == Flow::Udp ==> message is OpenUdpSession,
        message matches AgentControlMessage::OpenConnection {
            connection_id,
            tunnel,
            peer_addr,
            peer_location,
            ticket: shown,
            expires_at,
        } ==> connection_id == id && tunnel@ == t && peer_addr@ == socket_text(peer)
            && peer_location == location && shown@ == ticket && expires_at.nanos == wall.nanos && (
        ttl <= 9_000_000_000_000_000 ==> expires_at.seconds == wall.seconds + ttl),
        message matches AgentControlMessage::OpenUdpSession {
            session_id,
            tunnel,
            peer_addr,
            peer_location,
            ticket: shown,
            expires_at,
        } ==> session_id == id && tunnel@ == t && peer_addr@ == socket_text(peer) && peer_location
            == location && shown@ == ticket && expires_at.nanos == wall.nanos && (ttl
            <= 9_000_000_000_000_000 ==> expires_at.seconds == wall.seconds + ttl),
{
}

/// A registered stream waits for its agent alone, under the digest of its ticket, for as many seconds
/// as tickets live; its frames have a place to go, and every other stream and offer is as before.
pub proof fn law_registered_streams_wait_for_their_agent(
    s: AppView,
    t: AppView,
    id: u128,
    agent_id: u128,
    ticket: Seq<char>,
    stream: u64,
    ack: u64,
    now: u128,
    other: u128,
)
    requires
        offered(s, t, id, agent_id, ticket, stream, ack, now),
    ensures
        t.streams.contains_key(id) && t.streams[id] == stream,
        t.pending.contains_key(id) && t.pending[id].agent_id == agent_id && t.pending[id].ack == ack,
        t.pending[id].ticket_hash@ == token_digest(ticket),
        t.pending[id].expires_at == now + s.config.ticket_ttl * 1_000_000_000,
        other != id ==> t.streams.contains_key(other) == s.streams.contains_key(other)
            && t.pending.contains_key(other) == s.pending.contains_key(other),
        other != id && s.streams.contains_key(other) ==> t.streams[other] == s.streams[other],
        other != id && s.pending.contains_key(other) ==> t.pending[other] == s.pending[other],
        t == (AppView { streams: t.streams, pending: t.pending, ..s }),
{
}

/// A stream is opened where the agent accepts it, and only there; what the agent says against it is
/// handed on. A stream that is not opened is forgotten; only a TCP connection without an answer in
/// time counts as failed.
pub proof fn law_answers_decide(s: AppView, flow: Flow, id: u128, outcome: AckOutcome, other: u128)
    ensures
        refusal(flow, outcome) is None <==> outcome is Accepted,
        outcome is Accepted ==> settled(s, flow, id, outcome) == s,
        !(outcome is Accepted) ==> {
            let t = settled(s, flow, id, outcome);
            &&& !t.pending.contains_key(id) && !t.streams.contains_key(id)
            &&& other != id ==> t.pending.contains_key(other) == s.pending.contains_key(other)
                && t.streams.contains_key(other) == s.streams.contains_key(other)
            &&& flow == Flow::Tcp && outcome is TimedOut ==> t.counters == (Counters {
                failed: s.counters.failed.wrapping_add(1),
                ..s.counters
            })
            &&& !(flow == Flow::Tcp && outcome is TimedOut) ==> t.counters == s.counters
            &&& t == AppView {
                pending: t.pending,
                streams: t.streams,
                counters: t.counters,
                ..s
            }
        },
        outcome matches AckOutcome::Rejected(error) ==> (refusal(flow, outcome) matches Some(reason)
            && text::has_suffix(reason, error@)),
{
    if let AckOutcome::Rejected(error) = outcome {
        let reason = refusal(flow, outcome)->0;
        assert(reason.skip(reason.len() - error@.len()) =~= error@);
    }
}

/// An opened stream is listed as what it is: of its tunnel, from its source, over the carrier of its
/// agent, since now, and without any bytes yet.
pub proof fn law_opened_streams_are_listed(
    s: AppView,
    t: AppView,
    id: u128,
    tunnel: TunnelView,
    peer: SocketAddr,
    location: Option<GeoLocation>,
    transport: ActiveTransport,
    at: Timestamp,
    other: u128,
)
    requires
        activated(s, t, id, tunnel, peer, location, transport, at),
    ensures
        t.active.contains_key(id),
        t.active[id].id == id,
        t.active[id].tunnel_id == tunnel.id,
        t.active[id].tunnel_kind == tunnel.kind,
        t.active[id].peer_addr@ == socket_text(peer),
        t.active[id].peer_location == location,
        t.active[id].transport == Some(transport),
        t.active[id].opened_at == at,
        t.active[id].bytes_up == 0 && t.active[id].bytes_down == 0,
        other != id ==> t.active.contains_key(other) == s.active.contains_key(other),
        t == (AppView { active: t.active, ..s }),
{
}

/// The record of a connection says which it was, of which tunnel and from which source, when it began
/// and ended, and how many bytes went each way.
pub proof fn law_records_tell_what_was(row: HistoryRow, c: ActiveConnection, closed_at: Timestamp)
    requires
        records(row, c, closed_at),
    ensures
        row.id@ == id_text(c.id),
        row.tunnel_id@ == id_text(c.tunnel_id),
        row.peer_addr@ == c.peer_addr@,
        row.opened_at@ == time_text(c.opened_at),
        row.closed_at@ == time_text(closed_at),
        c.bytes_up <= i64::MAX ==> row.bytes_up == c.bytes_up,
        c.bytes_down <= i64::MAX ==> row.bytes_down == c.bytes_down,
{
}

/// An acknowledgement counts where it is for a pending offer, from the agent that was asked, in time
/// and with the ticket of the offer; and then the offer is settled, and no other.
pub proof fn law_acknowledgements_count(
    s: AppView,
    id: u128,
    agent_id: u128,
    ticket: Option<Seq<char>>,
    now: u128,
    other: u128,
)
    ensures
        ack_counts(s, id, agent_id, ticket, now) <==> s.pending.contains_key(id)
            && s.pending[id].agent_id == agent_id && now < s.pending[id].expires_at && ticket is Some
            && token_digest(ticket->0) == s.pending[id].ticket_hash@,
        ack_counts(s, id, agent_id, ticket, now) ==> !acked(
            s,
            id,
            agent_id,
            ticket,
            now,
        ).pending.contains_key(id),
        !ack_counts(s, id, agent_id, ticket, now) ==> acked(s, id, agent_id, ticket, now) == s,
        other != id && s.pending.contains_key(other) ==> acked(
            s,
            id,
            agent_id,
            ticket,
            now,
        ).pending.contains_key(other) && acked(s, id, agent_id, ticket, now).pending[other]
            == s.pending[other],
        acked(s, id, agent_id, ticket, now) == (AppView {
            pending: acked(s, id, agent_id, ticket, now).pending,
            ..s
        }),
{
}

/// What a frame does to a stream: data is written, the end ends it, a reset breaks it off; datagrams
/// and frames of other kinds do nothing.
pub proof fn law_frames_by_kind(kind: u8)
    ensures
        down_step(0) == BridgeStep::Write,
        down_step(1) == BridgeStep::Finish,
        down_step(2) == BridgeStep::Reset,
        kind > 2 ==> down_step(kind) == BridgeStep::Skip,
{
}

/// What is read from a source goes to the agent in a frame of its stream: data as it is, and the end
/// where nothing was read.
pub proof fn law_reads_become_frames(id: u128, bytes: Seq<u8>)
    ensures
        bytes.len() > 0 ==> frame_value(up_frame(id, bytes)) == Some((0u8, id, bytes)),
        bytes.len() == 0 ==> frame_value(up_frame(id, bytes)) == Some((1u8, id, bytes)),
{
    law_frame_round_trip(CARRIER_FRAME_DATA, id, bytes, Seq::empty());
    law_frame_round_trip(CARRIER_FRAME_FIN, id, bytes, Seq::empty());
}

/// Bytes are counted for the connection that moved them, each way for itself.
pub proof fn law_bytes_are_counted_where_they_moved(
    active: Map<u128, ActiveConnection>,
    id: u128,
    count: u64,
    other: u128,
)
    ensures
        more_down(active, id, count).dom() == active.dom(),
        more_up(active, id, count).dom() == active.dom(),
        other != id && active.contains_key(other) ==> more_down(active, id, count)[other]
            == active[other] && more_up(active, id, count)[other] == active[other],
        active.contains_key(id) ==> {
            let (c, d, u) = (
                active[id],
                more_down(active, id, count)[id],
                more_up(active, id, count)[id],
            );
            &&& c.bytes_down + count <= u64::MAX ==> d.bytes_down == c.bytes_down + count
            &&& c.bytes_up + count <= u64::MAX ==> u.bytes_up == c.bytes_up + count
            &&& d == ActiveConnection { bytes_down: d.bytes_down, ..c }
            &&& u == ActiveConnection { bytes_up: u.bytes_up, ..c }
        },
{
    assert(more_down(active, id, count).dom() =~= active.dom());
    assert(more_up(active, id, count).dom() =~= active.dom());
}

/// On which port a tunnel is listened on, and how.
pub open spec fn listen_plan(t: TunnelView) -> ListenPlan {
    if t.remote_port is None {
        ListenPlan::Nothing
    } else if t.kind == TunnelKind::Tcp {
        ListenPlan::Tcp(t.remote_port->0)
    } else {
        ListenPlan::Udp(t.remote_port->0)
    }
}

/// A tunnel is listened on at its own public port: a TCP tunnel for connections, a UDP tunnel for
/// datagrams; one without a port is not.
pub proof fn law_tunnels_are_listened_on_at_their_port(t: TunnelView, port: u16)
    ensures
        t.kind == TunnelKind::Tcp && t.remote_port == Some(port) ==> listen_plan(t)
            == ListenPlan::Tcp(port),
        t.kind == TunnelKind::Udp && t.remote_port == Some(port) ==> listen_plan(t)
            == ListenPlan::Udp(port),
        t.remote_port is None ==> listen_plan(t) == ListenPlan::Nothing,
{
}

/// Why a stream ended, given how either way did.
pub open spec fn first_reason(up: Option<String>, down: Option<String>) -> Option<String> {
    if up is Some {
        up
    } else {
        down
    }
}

/// A stream ended well where both ways did; else for the reason of the one that did not.
pub proof fn law_reasons_are_told(up: Option<String>, down: Option<String>)
    ensures
        first_reason(up, down) is None <==> up is None && down is None,
        up is Some ==> first_reason(up, down) == up,
        up is None ==> first_reason(up, down) == down,
{
}

/// What is known once bytes went to an agent.
pub open spec fn moved_down(s: AppView, id: u128, count: u64) -> AppView {
    AppView {
        counters: Counters {
            bytes_down: s.counters.bytes_down.wrapping_add(count),
            ..s.counters
        },
        active: more_down(s.active, id, count),
        ..s
    }
}

/// What is known once bytes came from an agent.
pub open spec fn moved_up(s: AppView, id: u128, count: u64) -> AppView {
    AppView {
        counters: Counters { bytes_up: s.counters.bytes_up.wrapping_add(count), ..s.counters },
        active: more_up(s.active, id, count),
        ..s
    }
}

/// Bytes are counted in all and for their connection, those to the agent and those from it apart.
pub proof fn law_bytes_are_counted_twice(s: AppView, id: u128, count: u64)
    requires
        s.active.contains_key(id),
        s.counters.bytes_down + count <= u64::MAX,
        s.counters.bytes_up + count <= u64::MAX,
        s.active[id].bytes_down + count <= u64::MAX,
        s.active[id].bytes_up + count <= u64::MAX,
    ensures
        ({
            let (d, u) = (moved_down(s, id, count), moved_up(s, id, count));
            &&& d.counters.bytes_down == s.counters.bytes_down + count
            &&& d.counters.bytes_up == s.counters.bytes_up
            &&& d.active[id].bytes_down == s.active[id].bytes_down + count
            &&& d.active[id].bytes_up == s.active[id].bytes_up
            &&& u.counters.bytes_up == s.counters.bytes_up + count
            &&& u.counters.bytes_down == s.counters.bytes_down
            &&& u.active[id].bytes_up == s.active[id].bytes_up + count
            &&& u.active[id].bytes_down == s.active[id].bytes_down
            &&& d.streams == s.streams && u.streams == s.streams && d.pending == s.pending
                && u.pending == s.pending
        }),
{
}

/// Whether an agent is told its tunnels, where it is there and they could be read.
pub open spec fn tells_tunnels(
    r: Option<(u64, AgentControlMessage)>,
    s: AppView,
    agent_id: u128,
    items: Option<Vec<Tunnel>>,
) -> bool {
    if s.agents.contains_key(agent_id) && items is Some {
        r == Some(
            (
                s.agents[agent_id].channel,
                AgentControlMessage::ConfigSync { tunnels: items->0 },
            ),
        )
    } else {
        r is None
    }
}

/// An agent that is attached is told its tunnels over its own channel, and takes them for its own.
pub proof fn law_agents_learn_their_tunnels(
    r: Option<(u64, AgentControlMessage)>,
    s: AppView,
    agent_id: u128,
    items: Vec<Tunnel>,
    before: crate::runtime::RuntimeView,
    after: crate::runtime::RuntimeView,
    action: crate::agent::AgentAction,
    transport: ActiveTransport,
    at: Timestamp,
)
    requires
        tells_tunnels(r, s, agent_id, Some(items)),
        s.agents.contains_key(agent_id),
        crate::agent::dispatched(
            before,
            after,
            action,
            transport,
            AgentControlMessage::ConfigSync { tunnels: items },
            at,
        ),
    ensures
        r matches Some((channel, message)) && channel == s.agents[agent_id].channel && message == (
        AgentControlMessage::ConfigSync { tunnels: items }),
        after.tunnels == items@,
{
}

/// The first frame of a run decides: bytes are written in front of what the rest brings, an end closes
/// the direction in good order, a reset cuts it off, and frames of other streams and other kinds do
/// nothing.
pub proof fn law_the_first_frame_decides(
    id: u128,
    other: u128,
    kind: u8,
    bytes: Seq<u8>,
    rest: Seq<Seq<u8>>,
)
    requires
        other != id,
        kind > 2,
    ensures
        delivered(id, seq![frame_bytes(0, id, bytes)] + rest) == (
            bytes + delivered(id, rest).0,
            delivered(id, rest).1,
        ),
        delivered(id, seq![frame_bytes(1, id, bytes)] + rest) == (Seq::<u8>::empty(), true),
        delivered(id, seq![frame_bytes(2, id, bytes)] + rest) == (Seq::<u8>::empty(), false),
        delivered(id, seq![frame_bytes(kind, id, bytes)] + rest) == delivered(id, rest),
        delivered(id, seq![frame_bytes(kind, other, bytes)] + rest) == delivered(id, rest),
        delivered(id, seq![frame_bytes(1, other, bytes)] + rest) == delivered(id, rest),
        delivered(id, Seq::empty()) == (Seq::<u8>::empty(), false),
{
    assert((seq![frame_bytes(0, id, bytes)] + rest).skip(1) =~= rest);
    assert((seq![frame_bytes(1, id, bytes)] + rest).skip(1) =~= rest);
    assert((seq![frame_bytes(2, id, bytes)] + rest).skip(1) =~= rest);
    assert((seq![frame_bytes(kind, id, bytes)] + rest).skip(1) =~= rest);
    assert((seq![frame_bytes(kind, other, bytes)] + rest).skip(1) =~= rest);
    assert((seq![frame_bytes(1, other, bytes)] + rest).skip(1) =~= rest);
    law_frame_round_trip(0, id, bytes, Seq::empty());
    law_frame_round_trip(1, id, bytes, Seq::empty());
    law_frame_round_trip(2, id, bytes, Seq::empty());
    law_frame_round_trip(kind, id, bytes, Seq::empty());
    law_frame_round_trip(kind, other, bytes, Seq::empty());
    law_frame_round_trip(1, other, bytes, Seq::empty());
}

/// A source that is turned away is named.
pub proof fn law_turned_away_sources_are_named(ip: IpAddr)
    ensures
        not_allowed(ip) == "source "@ + ip_text(ip) + " is not allowed"@,
{
}

/// Why a stream is not opened: what the agent said, or that it did not answer in time. An agent that
/// agrees gives no reason.
pub proof fn law_refusals_give_a_reason(flow: Flow, error: String)
    ensures
        refusal(flow, AckOutcome::Accepted) is None,
        refusal(Flow::Tcp, AckOutcome::Rejected(error)) == Some(
            "agent rejected connection: "@ + error@,
        ),
        refusal(Flow::Web, AckOutcome::Rejected(error)) == Some(error@),
        refusal(Flow::Udp, AckOutcome::Rejected(error)) == Some(error@),
        refusal(Flow::Tcp, AckOutcome::TimedOut) == Some("agent multiplexed stream timed out"@),
        refusal(Flow::Web, AckOutcome::TimedOut) == Some("web stream acknowledgement timed out"@),
        refusal(Flow::Udp, AckOutcome::TimedOut) == Some("UDP session acknowledgement timed out"@),
{
}

/// An admission names the agent, and a refusal its reason.
pub proof fn law_admissions(r: Result<AgentPeer, String>, spec: Result<AgentPeer, Seq<char>>)
    requires
        admitted(r, spec),
    ensures
        r is Ok <==> spec is Ok,
        r matches Ok(peer) ==> spec matches Ok(p) && p == peer,
        r matches Err(e) ==> spec matches Err(reason) && e@ == reason,
{
}

/// An agent that is not attached is told nothing, and neither is one whose tunnels could not be read.
pub proof fn law_absent_agents_are_told_nothing(
    r: Option<(u64, AgentControlMessage)>,
    s: AppView,
    agent_id: u128,
    items: Option<Vec<Tunnel>>,
)
    requires
        tells_tunnels(r, s, agent_id, items),
    ensures
        r is Some <==> s.agents.contains_key(agent_id) && items is Some,
{
}

} // verus!
