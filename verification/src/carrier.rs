//! Carriers: how an agent attaches to the relay, what its messages do, and how it leaves.
use crate::auth::{device_under, find_device, DeviceIdentity, StoredDevice};
use crate::gateway::{
    ack_counts, acked, acknowledge_connection, route_carrier_frame, Acknowledgement,
};
use crate::ids::new_id;
use crate::protocol::{
    opt_text, ActiveTransport, AgentControlMessage, CarrierCapabilities, DirectCarrierAuth,
    Timestamp, TunnelKind, PROTOCOL_VERSION,
};
use crate::secrets::{hash_token, token_digest};
use crate::state::{AgentPeer, AppState, AppView, Counters, InboundCarrierFrame};
use crate::text;
use crate::wire::{frame_value, CARRIER_FRAME_DATAGRAM, RECORD_BINARY, RECORD_CONTROL};
use vstd::prelude::*;

verus! {

/// Whether these are the capabilities of the relay: all carriers and all kinds of tunnels.
pub open spec fn relay_capabilities(c: CarrierCapabilities) -> bool {
    &&& c.transports@ == seq![ActiveTransport::Quic, ActiveTransport::Kcp, ActiveTransport::Wss]
    &&& c.tunnel_kinds@ == seq![TunnelKind::Tcp, TunnelKind::Udp, TunnelKind::Web]
}

/// The capabilities of the relay.
pub fn server_capabilities() -> (r: CarrierCapabilities)
    ensures
        relay_capabilities(r),
{
    let mut transports: Vec<ActiveTransport> = Vec::new();
    transports.push(ActiveTransport::Quic);
    transports.push(ActiveTransport::Kcp);
    transports.push(ActiveTransport::Wss);
    let mut tunnel_kinds: Vec<TunnelKind> = Vec::new();
    tunnel_kinds.push(TunnelKind::Tcp);
    tunnel_kinds.push(TunnelKind::Udp);
    tunnel_kinds.push(TunnelKind::Web);
    assert(transports@ =~= seq![
        ActiveTransport::Quic,
        ActiveTransport::Kcp,
        ActiveTransport::Wss,
    ]);
    assert(tunnel_kinds@ =~= seq![TunnelKind::Tcp, TunnelKind::Udp, TunnelKind::Web]);
    CarrierCapabilities { transports, tunnel_kinds }
}

/// Whether a message welcomes an agent.
pub open spec fn welcomes(
    message: AgentControlMessage,
    transport: ActiveTransport,
    wall: Timestamp,
) -> bool {
    message matches AgentControlMessage::Welcome {
        protocol_version,
        server_time,
        capabilities,
        transport: named,
    } && protocol_version == PROTOCOL_VERSION && server_time == wall && relay_capabilities(
        capabilities,
    ) && named == Some(transport)
}

/// What is known once an agent has attached. An earlier carrier of the same agent is replaced.
pub open spec fn attached(
    s: AppView,
    agent_id: u128,
    session_id: u128,
    transport: ActiveTransport,
    channel: u64,
) -> AppView {
    AppView {
        agents: s.agents.insert(agent_id, AgentPeer { session_id, transport, channel }),
        counters: s.counters.with_carrier(transport),
        ..s
    }
}

/// Attaches an agent under a given session; hands back the message that welcomes it.
pub fn attach_as(
    state: &mut AppState,
    agent_id: u128,
    session_id: u128,
    transport: ActiveTransport,
    channel: u64,
    wall: Timestamp,
) -> (r: AgentControlMessage)
    requires
        old(state).wf(),
    ensures
        final(state).wf(),
        final(state)@ == attached(old(state)@, agent_id, session_id, transport, channel),
        welcomes(r, transport, wall),
{
    state.agents.insert(agent_id, AgentPeer { session_id, transport, channel });
    state.counters.carrier_opened(transport);
    AgentControlMessage::Welcome {
        protocol_version: PROTOCOL_VERSION,
        server_time: wall,
        capabilities: server_capabilities(),
        transport: Some(transport),
    }
}

/// Attaches an agent under a new random session; hands back the session and the message that
/// welcomes the agent.
pub fn attach(
    state: &mut AppState,
    agent_id: u128,
    transport: ActiveTransport,
    channel: u64,
    wall: Timestamp,
) -> (r: (u128, AgentControlMessage))
    requires
        old(state).wf(),
    ensures
        final(state).wf(),
        final(state)@ == attached(old(state)@, agent_id, r.0, transport, channel),
        welcomes(r.1, transport, wall),
{
    let session_id = new_id();
    let welcome = attach_as(state, agent_id, session_id, transport, channel, wall);
    (session_id, welcome)
}

/// What is known once a session of an agent has ended. The agent stays where it has attached anew.
pub open spec fn detached(
    s: AppView,
    agent_id: u128,
    session_id: u128,
    transport: ActiveTransport,
) -> AppView {
    AppView {
        agents: if s.agents.contains_key(agent_id) && s.agents[agent_id].session_id == session_id {
            s.agents.remove(agent_id)
        } else {
            s.agents
        },
        counters: s.counters.without_carrier(transport),
        ..s
    }
}

/// Ends a session of an agent.
pub fn detach(
    state: &mut AppState,
    agent_id: u128,
    session_id: u128,
    transport: ActiveTransport,
)
    requires
        old(state).wf(),
    ensures
        final(state).wf(),
        final(state)@ == detached(old(state)@, agent_id, session_id, transport),
{
    state.counters.carrier_closed(transport);
    let own: bool = match state.agents.get(&agent_id) {
        Some(peer) => peer.session_id == session_id,
        None => false,
    };
    if own {
        state.agents.remove(&agent_id);
    }
}

/// An agent that attaches anew stays attached when its earlier session ends.
pub proof fn law_new_sessions_outlive_old_ones(
    s: AppView,
    agent_id: u128,
    old_session: u128,
    new_session: u128,
    old_transport: ActiveTransport,
    transport: ActiveTransport,
    channel: u64,
)
    requires
        old_session != new_session,
    ensures
        detached(
            attached(s, agent_id, new_session, transport, channel),
            agent_id,
            old_session,
            old_transport,
        ).agents == attached(s, agent_id, new_session, transport, channel).agents,
{
}

/// Attaching and leaving again leaves the relay as it was, where the agent was not attached.
pub proof fn law_leaving_undoes_attaching(
    s: AppView,
    agent_id: u128,
    session_id: u128,
    transport: ActiveTransport,
    channel: u64,
)
    requires
        !s.agents.contains_key(agent_id),
    ensures
        detached(
            attached(s, agent_id, session_id, transport, channel),
            agent_id,
            session_id,
            transport,
        ) == s,
{
    let t = attached(s, agent_id, session_id, transport, channel);
    assert(t.agents.remove(agent_id) =~= s.agents);
    crate::state::law_carrier_count_balances(s.counters, transport);
}

/// What comes over a carrier.
#[derive(Debug, Clone, PartialEq, Eq)]
pub enum CarrierEvent {
    /// A control message.
    Control(AgentControlMessage),
    /// A control message that could not be read.
    Garbled,
    /// A frame of a stream.
    Frame(Vec<u8>),
    /// The other end is gone, or the relay has dropped it.
    Closed,
}

/// What to do about it.
#[derive(Debug, PartialEq, Eq)]
pub enum CarrierAction {
    /// Nothing.
    Wait,
    /// Send a message back.
    Reply(AgentControlMessage),
    /// Send a message back and leave.
    ReplyAndLeave(AgentControlMessage),
    /// Tell whoever waits for an acknowledgement.
    Acknowledge(Acknowledgement),
    /// An acknowledgement did not count.
    Stray(u128),
    /// Hand a frame to a stream.
    Deliver(u64, InboundCarrierFrame),
    /// Leave.
    Leave,
}

/// Whether an error tells an agent that it speaks another version.
pub open spec fn mismatch(message: AgentControlMessage) -> bool {
    message matches AgentControlMessage::Error { code, message } && code@ == "protocol_mismatch"@
        && message@ == "server protocol is "@ + text::decimal(PROTOCOL_VERSION as nat)
}

/// The message that tells an agent that it speaks another version.
fn mismatch_error() -> (r: AgentControlMessage)
    ensures
        mismatch(r),
{
    AgentControlMessage::Error {
        code: "protocol_mismatch".to_owned(),
        message: text::join(
            "server protocol is ",
            text::decimal_text(PROTOCOL_VERSION as u64).as_str(),
        ),
    }
}

/// What an event leaves of what the relay knows.
pub open spec fn carrier_state(
    s: AppView,
    agent_id: u128,
    event: CarrierEvent,
    now: u128,
) -> AppView {
    match event {
        CarrierEvent::Control(
            AgentControlMessage::ConnectionAck { connection_id, ticket, .. },
        ) => acked(s, connection_id, agent_id, opt_text(ticket), now),
        _ => s,
    }
}

/// Whether an action answers an event.
pub open spec fn carrier_answer(
    action: CarrierAction,
    s: AppView,
    agent_id: u128,
    transport: ActiveTransport,
    event: CarrierEvent,
    now: u128,
) -> bool {
    match event {
        CarrierEvent::Control(AgentControlMessage::Ping { sent_at }) => action
            == CarrierAction::Reply(AgentControlMessage::Pong { sent_at }),
        CarrierEvent::Control(AgentControlMessage::Hello { protocol_version, .. }) => if transport
            == ActiveTransport::Wss && protocol_version != PROTOCOL_VERSION {
            action matches CarrierAction::ReplyAndLeave(m) && mismatch(m)
        } else {
            action is Wait
        },
        CarrierEvent::Control(
            AgentControlMessage::ConnectionAck { connection_id, accepted, error, ticket },
        ) => if ack_counts(s, connection_id, agent_id, opt_text(ticket), now) {
            action matches CarrierAction::Acknowledge(a) && a.ack == s.pending[connection_id].ack
                && (match a.result {
                Ok(_) => accepted,
                Err(e) => !accepted && e@ == (match error {
                    Some(reason) => reason@,
                    None => "local target rejected connection"@,
                }),
            })
        } else {
            action == CarrierAction::Stray(connection_id)
        },
        CarrierEvent::Control(_) => action is Wait,
        CarrierEvent::Garbled => action is Wait,
        CarrierEvent::Frame(frame) => match frame_value(frame@) {
            Some((kind, id, payload)) => if s.streams.contains_key(id) {
                action matches CarrierAction::Deliver(stream, inbound) && stream == s.streams[id]
                    && inbound.kind == kind && inbound.payload@ == payload
            } else {
                action is Wait
            },
            None => action is Wait,
        },
        CarrierEvent::Closed => action is Leave,
    }
}

/// Takes what comes over the carrier of an agent. The greeting of an agent is checked here on a
/// WebSocket carrier alone; the other carriers check it before they attach the agent.
pub fn carrier_step(
    state: &mut AppState,
    agent_id: u128,
    transport: ActiveTransport,
    event: CarrierEvent,
    now: u128,
) -> (r: CarrierAction)
    requires
        old(state).wf(),
    ensures
        final(state).wf(),
        final(state)@ == carrier_state(old(state)@, agent_id, event, now),
        carrier_answer(r, old(state)@, agent_id, transport, event, now),
{
    match event {
        CarrierEvent::Control(message) => match message {
            AgentControlMessage::Ping { sent_at } => CarrierAction::Reply(
                AgentControlMessage::Pong { sent_at },
            ),
            AgentControlMessage::Hello { protocol_version, .. } => if transport
                == ActiveTransport::Wss && protocol_version != PROTOCOL_VERSION {
                CarrierAction::ReplyAndLeave(mismatch_error())
            } else {
                CarrierAction::Wait
            },
            AgentControlMessage::ConnectionAck { connection_id, accepted, error, ticket } => {
                let shown: Option<&str> = match &ticket {
                    Some(ticket) => Some(ticket.as_str()),
                    None => None,
                };
                match acknowledge_connection(
                    state,
                    connection_id,
                    agent_id,
                    shown,
                    accepted,
                    error,
                    now,
                ) {
                    Some(a) => CarrierAction::Acknowledge(a),
                    None => CarrierAction::Stray(connection_id),
                }
            },
            _ => CarrierAction::Wait,
        },
        CarrierEvent::Garbled => CarrierAction::Wait,
        CarrierEvent::Frame(frame) => match route_carrier_frame(state, frame.as_slice()) {
            Some((stream, inbound)) => CarrierAction::Deliver(stream, inbound),
            None => CarrierAction::Wait,
        },
        CarrierEvent::Closed => CarrierAction::Leave,
    }
}

/// Whether an action ends a carrier.
pub open spec fn leaves(action: CarrierAction) -> bool {
    action is Leave || action is ReplyAndLeave
}

/// The carrier of an agent, from its attaching to its leaving.
#[derive(Debug, Clone, Copy, PartialEq, Eq, Structural)]
pub struct CarrierSession {
    pub agent_id: u128,
    pub session_id: u128,
    pub transport: ActiveTransport,
    pub open: bool,
}

/// What an event leaves of what the relay knows: a carrier that ends is detached, and one that has
/// ended changes nothing.
pub open spec fn session_state(
    s: AppView,
    c: CarrierSession,
    event: CarrierEvent,
    now: u128,
    action: CarrierAction,
) -> AppView {
    if !c.open {
        s
    } else if leaves(action) {
        detached(
            carrier_state(s, c.agent_id, event, now),
            c.agent_id,
            c.session_id,
            c.transport,
        )
    } else {
        carrier_state(s, c.agent_id, event, now)
    }
}

impl CarrierSession {
    /// Attaches an agent; hands back its carrier and the message that welcomes it.
    pub fn start(
        state: &mut AppState,
        agent_id: u128,
        transport: ActiveTransport,
        channel: u64,
        wall: Timestamp,
    ) -> (r: (CarrierSession, AgentControlMessage))
        requires
            old(state).wf(),
        ensures
            final(state).wf(),
            r.0.agent_id == agent_id,
            r.0.transport == transport,
            r.0.open,
            final(state)@ == attached(
                old(state)@,
                agent_id,
                r.0.session_id,
                transport,
                channel,
            ),
            welcomes(r.1, transport, wall),
    {
        let (session_id, welcome) = attach(state, agent_id, transport, channel, wall);
        (CarrierSession { agent_id, session_id, transport, open: true }, welcome)
    }

    /// Takes what comes over the carrier, and detaches the agent where that ends the carrier.
    pub fn handle(&mut self, state: &mut AppState, event: CarrierEvent, now: u128) -> (r:
        CarrierAction)
        requires
            old(state).wf(),
        ensures
            final(state).wf(),
            final(state)@ == session_state(old(state)@, *old(self), event, now, r),
            old(self).open ==> carrier_answer(
                r,
                old(state)@,
                old(self).agent_id,
                old(self).transport,
                event,
                now,
            ),
            !old(self).open ==> r is Leave,
            *final(self) == (CarrierSession {
                open: old(self).open && !leaves(r),
                ..*old(self)
            }),
    {
        if !self.open {
            return CarrierAction::Leave;
        }
        let action = carrier_step(state, self.agent_id, self.transport, event, now);
        let over: bool = match &action {
            CarrierAction::Leave => true,
            CarrierAction::ReplyAndLeave(_) => true,
            _ => false,
        };
        if over {
            self.open = false;
            detach(state, self.agent_id, self.session_id, self.transport);
        }
        action
    }
}

/// The carrier of an agent over a WebSocket.
pub fn run_control_socket(state: &mut AppState, agent_id: u128, channel: u64, wall: Timestamp) -> (r:
    (CarrierSession, AgentControlMessage))
    requires
        old(state).wf(),
    ensures
        final(state).wf(),
        r.0.agent_id == agent_id,
        r.0.transport == ActiveTransport::Wss,
        r.0.open,
        final(state)@ == attached(
            old(state)@,
            agent_id,
            r.0.session_id,
            ActiveTransport::Wss,
            channel,
        ),
        welcomes(r.1, ActiveTransport::Wss, wall),
{
    CarrierSession::start(state, agent_id, ActiveTransport::Wss, channel, wall)
}

/// When a carrier closes, its agent is no longer attached by it, and it no longer counts.
pub proof fn law_closed_carriers_are_detached(
    s: AppView,
    c: CarrierSession,
    now: u128,
    action: CarrierAction,
)
    requires
        c.open,
        carrier_answer(action, s, c.agent_id, c.transport, CarrierEvent::Closed, now),
    ensures
        session_state(s, c, CarrierEvent::Closed, now, action) == detached(
            s,
            c.agent_id,
            c.session_id,
            c.transport,
        ),
        !(session_state(s, c, CarrierEvent::Closed, now, action).agents.contains_key(c.agent_id)
            && session_state(
            s,
            c,
            CarrierEvent::Closed,
            now,
            action,
        ).agents[c.agent_id].session_id == c.session_id),
{
}

/// What a record of a QUIC or KCP carrier holds, before its control message is read.
#[derive(Debug, Clone, PartialEq, Eq)]
pub enum RecordBody {
    Control(Vec<u8>),
    Frame(Vec<u8>),
}

/// Sorts a record by its kind: what is not a frame is a control message.
pub fn sort_record(kind: u8, payload: Vec<u8>) -> (r: RecordBody)
    ensures
        r == (if kind == RECORD_BINARY {
            RecordBody::Frame(payload)
        } else {
            RecordBody::Control(payload)
        }),
        r == body_of(kind, payload),
{
    if kind == RECORD_BINARY {
        RecordBody::Frame(payload)
    } else {
        RecordBody::Control(payload)
    }
}

/// Checks the first record on a QUIC or KCP carrier: it is a control message.
pub fn first_record(transport: ActiveTransport, kind: u8) -> (r: Result<(), String>)
    ensures
        r is Ok <==> kind == RECORD_CONTROL,
        r matches Err(e) ==> e@ == (if transport == ActiveTransport::Kcp {
            "missing KCP carrier auth"@
        } else {
            "missing direct carrier auth"@
        }),
{
    if kind == RECORD_CONTROL {
        Ok(())
    } else if transport == ActiveTransport::Kcp {
        Err("missing KCP carrier auth".to_owned())
    } else {
        Err("missing direct carrier auth".to_owned())
    }
}

/// The digest under which the device that greets is stored.
pub fn direct_token(auth: &DirectCarrierAuth) -> (r: String)
    ensures
        r@ == token_digest(auth.token@),
{
    hash_token(auth.token.as_str())
}

/// Whether a greeting speaks the version of the relay.
pub open spec fn speaks(hello: AgentControlMessage) -> bool {
    hello matches AgentControlMessage::Hello { protocol_version, .. } && protocol_version
        == PROTOCOL_VERSION
}

/// Lets a device in on a QUIC or KCP carrier: the one that is stored under the digest of its token.
pub fn direct_auth(auth: &DirectCarrierAuth, rows: &Vec<StoredDevice>) -> (r: Result<
    DeviceIdentity,
    String,
>)
    ensures
        match device_under(rows@, token_digest(auth.token@)) {
            Some((id, name)) => if speaks(auth.hello) {
                r matches Ok(device) && device.id == id && device.name@ == name
            } else {
                r matches Err(e) && e@ == "protocol mismatch"@
            },
            None => r matches Err(e) && e@ == "invalid device token"@,
        },
        passes(r, *auth, rows@),
{
    let identity = match find_device(rows, direct_token(auth).as_str()) {
        Some(identity) => identity,
        None => {
            return Err("invalid device token".to_owned());
        },
    };
    match &auth.hello {
        AgentControlMessage::Hello { protocol_version, .. } => if *protocol_version
            == PROTOCOL_VERSION {
            return Ok(identity);
        },
        _ => {},
    }
    Err("protocol mismatch".to_owned())
}

/// Lets a device in on a QUIC or KCP carrier and attaches it; hands back its carrier and the message
/// that welcomes it.
pub fn accept(
    state: &mut AppState,
    transport: ActiveTransport,
    auth: &DirectCarrierAuth,
    rows: &Vec<StoredDevice>,
    channel: u64,
    wall: Timestamp,
) -> (r: Result<(CarrierSession, AgentControlMessage), String>)
    requires
        old(state).wf(),
    ensures
        final(state).wf(),
        if device_under(rows@, token_digest(auth.token@)) is Some && speaks(auth.hello) {
            &&& r matches Ok((session, welcome))
            &&& (device_under(rows@, token_digest(auth.token@)) matches Some((id, _)) && id
                == session.agent_id)
            &&& session.transport == transport
            &&& session.open
            &&& welcomes(welcome, transport, wall)
            &&& final(state)@ == attached(
                old(state)@,
                session.agent_id,
                session.session_id,
                transport,
                channel,
            )
        } else {
            &&& r matches Err(e)
            &&& e@ == (if device_under(rows@, token_digest(auth.token@)) is Some {
                "protocol mismatch"@
            } else {
                "invalid device token"@
            })
            &&& final(state)@ == old(state)@
        },
{
    match direct_auth(auth, rows) {
        Ok(identity) => Ok(CarrierSession::start(state, identity.id, transport, channel, wall)),
        Err(e) => Err(e),
    }
}

/// Whether a frame is tried as a datagram first on a QUIC carrier.
pub fn prefers_datagram(frame: &Vec<u8>) -> (r: bool)
    ensures
        r == (frame@.len() > 0 && frame@[0] == CARRIER_FRAME_DATAGRAM),
{
    frame.len() > 0 && frame[0] == CARRIER_FRAME_DATAGRAM
}

/// An agent of another version is told so and dropped on a WebSocket carrier, and does not get past
/// the greeting on the others.
pub proof fn law_other_versions_are_dropped(
    s: AppView,
    agent_id: u128,
    hello: AgentControlMessage,
    now: u128,
    action: CarrierAction,
)
    requires
        hello is Hello,
        !speaks(hello),
        carrier_answer(
            action,
            s,
            agent_id,
            ActiveTransport::Wss,
            CarrierEvent::Control(hello),
            now,
        ),
    ensures
        action matches CarrierAction::ReplyAndLeave(m) && mismatch(m),
        carrier_state(s, agent_id, CarrierEvent::Control(hello), now) == s,
{
}

/// Nothing that comes over a carrier touches what the relay knows, but for acknowledgements, which
/// touch the pending connections alone.
pub proof fn law_carriers_touch_pending_alone(
    s: AppView,
    agent_id: u128,
    event: CarrierEvent,
    now: u128,
)
    ensures
        carrier_state(s, agent_id, event, now) == (AppView {
            pending: carrier_state(s, agent_id, event, now).pending,
            ..s
        }),
        forall|id: u128|
            s.pending.contains_key(id) && s.pending[id].agent_id != agent_id
                ==> #[trigger] carrier_state(s, agent_id, event, now).pending.contains_key(id)
                && carrier_state(s, agent_id, event, now).pending[id] == s.pending[id],
{
}

/// An agent that attaches is reached over its own channel and carrier, one carrier more of that kind
/// is counted, and every other agent stays as it is.
pub proof fn law_attached_agents_are_reached(
    s: AppView,
    agent_id: u128,
    session_id: u128,
    transport: ActiveTransport,
    channel: u64,
    other: u128,
)
    ensures
        ({
            let t = attached(s, agent_id, session_id, transport, channel);
            &&& t.agents.contains_key(agent_id)
            &&& t.agents[agent_id].channel == channel
            &&& t.agents[agent_id].transport == transport
            &&& t.agents[agent_id].session_id == session_id
            &&& other != agent_id ==> t.agents.contains_key(other) == s.agents.contains_key(other)
            &&& other != agent_id && s.agents.contains_key(other) ==> t.agents[other]
                == s.agents[other]
            &&& transport == ActiveTransport::Quic ==> t.counters == (Counters {
                quic: s.counters.quic.wrapping_add(1),
                ..s.counters
            })
            &&& transport == ActiveTransport::Kcp ==> t.counters == (Counters {
                kcp: s.counters.kcp.wrapping_add(1),
                ..s.counters
            })
            &&& transport == ActiveTransport::Wss ==> t.counters == (Counters {
                wss: s.counters.wss.wrapping_add(1),
                ..s.counters
            })
            &&& t == AppView { agents: t.agents, counters: t.counters, ..s }
        }),
{
}

/// A carrier that leaves takes its own session with it, and no other agent; one carrier less of its
/// kind is counted.
pub proof fn law_leaving_carriers_take_their_session(
    s: AppView,
    agent_id: u128,
    session_id: u128,
    transport: ActiveTransport,
    other: u128,
)
    ensures
        ({
            let t = detached(s, agent_id, session_id, transport);
            &&& s.agents.contains_key(agent_id) && s.agents[agent_id].session_id == session_id
                ==> !t.agents.contains_key(agent_id)
            &&& s.agents.contains_key(agent_id) && s.agents[agent_id].session_id != session_id
                ==> t.agents.contains_key(agent_id) && t.agents[agent_id] == s.agents[agent_id]
            &&& other != agent_id ==> t.agents.contains_key(other) == s.agents.contains_key(other)
            &&& other != agent_id && s.agents.contains_key(other) ==> t.agents[other]
                == s.agents[other]
            &&& transport == ActiveTransport::Quic ==> t.counters == (Counters {
                quic: s.counters.quic.wrapping_sub(1),
                ..s.counters
            })
            &&& transport == ActiveTransport::Kcp ==> t.counters == (Counters {
                kcp: s.counters.kcp.wrapping_sub(1),
                ..s.counters
            })
            &&& transport == ActiveTransport::Wss ==> t.counters == (Counters {
                wss: s.counters.wss.wrapping_sub(1),
                ..s.counters
            })
            &&& t == AppView { agents: t.agents, counters: t.counters, ..s }
        }),
{
}

/// The relay welcomes an agent with its version, its time, the carrier in use, and what it can do:
/// all three carriers and all three kinds of tunnels.
pub proof fn law_agents_are_welcomed(
    message: AgentControlMessage,
    transport: ActiveTransport,
    wall: Timestamp,
)
    requires
        welcomes(message, transport, wall),
    ensures
        message matches AgentControlMessage::Welcome {
            protocol_version,
            server_time,
            capabilities,
            transport: named,
        } && protocol_version == 1 && server_time == wall && named == Some(transport)
            && capabilities.transports@.contains(ActiveTransport::Quic)
            && capabilities.transports@.contains(ActiveTransport::Kcp)
            && capabilities.transports@.contains(ActiveTransport::Wss)
            && capabilities.tunnel_kinds@.contains(TunnelKind::Tcp)
            && capabilities.tunnel_kinds@.contains(TunnelKind::Udp)
            && capabilities.tunnel_kinds@.contains(TunnelKind::Web)
            && capabilities.transports@.len() == 3 && capabilities.tunnel_kinds@.len() == 3,
{
    let c = message->Welcome_capabilities;
    assert(c.transports@[0] == ActiveTransport::Quic);
    assert(c.transports@[1] == ActiveTransport::Kcp);
    assert(c.transports@[2] == ActiveTransport::Wss);
    assert(c.tunnel_kinds@[0] == TunnelKind::Tcp);
    assert(c.tunnel_kinds@[1] == TunnelKind::Udp);
    assert(c.tunnel_kinds@[2] == TunnelKind::Web);
}

/// A sign of life is answered with the time that it carries. A frame goes to the stream that it
/// names, where there is one, with what it carries. An answer to an offer goes to whoever waits for
/// it: yes as yes, no with its reason. Garbage and messages that are for agents are passed over, and
/// the end of a carrier is its end.
pub proof fn law_carriers_are_answered(
    action: CarrierAction,
    s: AppView,
    agent_id: u128,
    transport: ActiveTransport,
    event: CarrierEvent,
    now: u128,
)
    requires
        carrier_answer(action, s, agent_id, transport, event, now),
    ensures
        event matches CarrierEvent::Control(AgentControlMessage::Ping { sent_at }) ==> (
        action matches CarrierAction::Reply(AgentControlMessage::Pong { sent_at: back }) && back
            == sent_at),
        event matches CarrierEvent::Frame(frame) ==> (frame_value(frame@) matches Some(
            (kind, id, payload),
        ) ==> (s.streams.contains_key(id) ==> (action matches CarrierAction::Deliver(stream, inbound)
            && stream == s.streams[id] && inbound.kind == kind && inbound.payload@ == payload)) && (
        !s.streams.contains_key(id) ==> action is Wait)),
        event matches CarrierEvent::Control(
            AgentControlMessage::ConnectionAck { connection_id, accepted, error, ticket },
        ) ==> {
            let counts = ack_counts(s, connection_id, agent_id, opt_text(ticket), now);
            &&& !counts ==> action == CarrierAction::Stray(connection_id)
            &&& counts ==> (action matches CarrierAction::Acknowledge(a) && a.ack
                == s.pending[connection_id].ack && (a.result is Ok <==> accepted) && (!accepted
                && error is Some ==> (a.result matches Err(e) && e@ == error->0@)) && (!accepted
                && error is None ==> (a.result matches Err(e) && e@
                == "local target rejected connection"@)))
        },
        event is Garbled ==> action is Wait,
        event is Closed ==> action is Leave,
        event matches CarrierEvent::Control(m) ==> (m is Pong || m is Traffic || m is Error
            || m is ConfigSync || m is OpenConnection || m is OpenUdpSession || m is Welcome
            ==> action is Wait),
        leaves(action) ==> event is Closed || (event matches CarrierEvent::Control(m) && m is Hello
            && transport == ActiveTransport::Wss),
{
}

/// A greeting speaks the version of the relay where it is a greeting with that version.
pub proof fn law_greetings(hello: AgentControlMessage)
    ensures
        speaks(hello) <==> (hello matches AgentControlMessage::Hello { protocol_version, .. }
            && protocol_version == 1),
{
}

/// What a record holds.
pub open spec fn body_of(kind: u8, payload: Vec<u8>) -> RecordBody {
    if kind == RECORD_BINARY {
        RecordBody::Frame(payload)
    } else {
        RecordBody::Control(payload)
    }
}

/// Binary records hold frames, all others control messages; nothing is lost.
pub proof fn law_records_by_kind(kind: u8, payload: Vec<u8>)
    ensures
        body_of(1, payload) == RecordBody::Frame(payload),
        body_of(0, payload) == RecordBody::Control(payload),
        kind != 1 ==> body_of(kind, payload) == RecordBody::Control(payload),
{
}

/// Whether a result is the device that greets on a QUIC or KCP carrier.
pub open spec fn passes(
    r: Result<DeviceIdentity, String>,
    auth: DirectCarrierAuth,
    rows: Seq<StoredDevice>,
) -> bool {
    let known = device_under(rows, token_digest(auth.token@));
    &&& r is Ok <==> known is Some && speaks(auth.hello)
    &&& r matches Ok(device) ==> known == Some((device.id, device.name@))
}

/// A device that shows the token under whose digest it is stored, and speaks the version of the relay,
/// is let in as itself; a device without a known token and one that was revoked are not.
pub proof fn law_known_devices_pass(
    r: Result<DeviceIdentity, String>,
    auth: DirectCarrierAuth,
    rows: Seq<StoredDevice>,
    i: int,
    id: u128,
)
    requires
        passes(r, auth, rows),
        0 <= i < rows.len(),
        rows[i].token_hash@ == token_digest(auth.token@),
        crate::ids::id_value(rows[i].id@) == Some(id),
        forall|k: int| 0 <= k < rows.len() && k != i ==> (#[trigger] rows[k]).token_hash@
            != token_digest(auth.token@),
    ensures
        !rows[i].revoked && speaks(auth.hello) ==> (r matches Ok(device) && device.id == id
            && device.name@ == rows[i].name@),
        rows[i].revoked ==> r is Err,
        !speaks(auth.hello) ==> r is Err,
{
    let key = token_digest(auth.token@);
    if rows[i].revoked {
        crate::auth::law_revoked_devices_are_kept_out(rows, key);
    } else {
        crate::auth::law_devices_are_found(rows, key, i);
    }
}

/// An agent of another version is told which one the relay speaks.
pub proof fn law_versions_are_told(m: AgentControlMessage)
    requires
        mismatch(m),
    ensures
        m matches AgentControlMessage::Error { code, message } && code@ == "protocol_mismatch"@
            && message@ == "server protocol is "@ + text::decimal(1),
{
}

} // verus!
