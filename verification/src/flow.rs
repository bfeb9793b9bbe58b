//! The life of a stream: from the source that wants in to the record of what it did.
use crate::clock::{instant_after, ticket_fits};
use crate::gateway::{
    activate, activated, admission, ask, asks, count_udp, finish, finished, let_in, offered,
    records, refusal, register, settle, settled, udp_counted, AckOutcome, Flow, HistoryRow,
};
use crate::ids::new_id;
use crate::net::{all_valid, IpAddr};
use crate::protocol::{copy_location, AgentControlMessage, GeoLocation, Timestamp, Tunnel};
use crate::secrets::{random_secret, url_base64};
use crate::socket::SocketAddr;
use crate::state::{AgentPeer, AppState, AppView};
use vstd::prelude::*;

verus! {

/// How far a stream has come.
#[derive(Debug, Clone, PartialEq, Eq)]
pub enum Phase {
    /// A source wants in.
    New,
    /// A TCP connection is let in; where its source is, is being looked up.
    Locating(AgentPeer),
    /// The source is let in, and of a TCP connection it is known where it is; the ends of the
    /// stream are being made.
    Preparing(AgentPeer, Option<GeoLocation>),
    /// A web request or UDP session is registered under an identifier and a ticket; where its source
    /// is, is being looked up.
    Registered(AgentPeer, u128, String),
    /// The stream is offered to the agent; the offer is being sent.
    Offered(AgentPeer, u128, Option<GeoLocation>),
    /// The offer was sent; the agent has yet to answer.
    Waiting(AgentPeer, u128, Option<GeoLocation>),
    /// The agent has taken a UDP session; where the source is, is being looked up again.
    Relocating(AgentPeer, u128),
    /// Bytes move.
    Running(u128),
    /// It is over.
    Done,
}

/// A stream of a tunnel for a source.
#[derive(Debug, Clone, PartialEq, Eq)]
pub struct Connection {
    pub flow: Flow,
    pub tunnel: Tunnel,
    pub peer: SocketAddr,
    pub phase: Phase,
}

/// What happens to a stream.
#[derive(Debug, Clone, PartialEq, Eq)]
pub enum FlowEvent {
    /// The source has come.
    Start,
    /// It is known where the source is, or that it is not.
    Located { location: Option<GeoLocation>, wall: Timestamp },
    /// The ends of the stream are there: `stream` stands for where its frames go, `ack` for who
    /// waits for the answer of the agent. The ticket runs from `now`.
    Prepared { stream: u64, ack: u64, now: u128, wall: Timestamp },
    /// The offer was sent, or could not be.
    Handed(bool),
    /// The agent has answered, or has not.
    Answered { outcome: AckOutcome, wall: Timestamp },
    /// It is known again where the source is.
    Relocated { location: Option<GeoLocation>, wall: Timestamp },
    /// Bytes no longer move.
    Ended { wall: Timestamp },
}

/// What to do about it.
#[derive(Debug, Clone, PartialEq, Eq)]
pub enum FlowAction {
    /// Look up where an address is.
    Locate(IpAddr),
    /// Make the ends of the stream.
    Prepare,
    /// Send an offer on a carrier.
    Offer { channel: u64, id: u128, message: AgentControlMessage },
    /// Wait for the answer of the agent.
    Await,
    /// Move bytes between the source and the stream on a carrier.
    Bridge { channel: u64, id: u128 },
    /// Store a record.
    Record(HistoryRow),
    /// Nothing is left to do.
    Finish,
    /// Give up.
    Fail(String),
    /// The event does not belong here.
    Misplaced,
}

/// Why an offer is given up that could not be sent.
pub open spec fn unsent(flow: Flow) -> Seq<char> {
    if flow == Flow::Tcp {
        "send open connection to agent"@
    } else {
        "channel closed"@
    }
}

/// Whether an event can be taken at all: the times that are used can be named, and have room for a
/// ticket.
pub open spec fn timely(c: Connection, event: FlowEvent, ttl: u64) -> bool {
    match (c.phase, event) {
        (Phase::Preparing(..), FlowEvent::Prepared { now, wall, .. }) => instant_after(now, ttl)
            <= u128::MAX && (c.flow == Flow::Tcp ==> ticket_fits(wall, ttl)),
        (Phase::Registered(..), FlowEvent::Located { wall, .. }) => ticket_fits(wall, ttl),
        (Phase::Waiting(..), FlowEvent::Answered { wall, .. }) => wall.valid(),
        (Phase::Relocating(..), FlowEvent::Relocated { wall, .. }) => wall.valid(),
        (Phase::Running(_), FlowEvent::Ended { wall }) => wall.valid(),
        _ => true,
    }
}

/// Whether a registered stream is offered to an agent.
pub open spec fn offers(
    s: AppView,
    c: Connection,
    d: Connection,
    action: FlowAction,
    agent: AgentPeer,
    at: u128,
    location: Option<GeoLocation>,
    ticket: Seq<char>,
    wall: Timestamp,
) -> bool {
    &&& action matches FlowAction::Offer { channel, id, message }
    &&& channel == agent.channel
    &&& id == at
    &&& asks(
        message,
        c.flow,
        at,
        c.tunnel@,
        c.peer,
        location,
        ticket,
        wall,
        s.config.ticket_ttl,
    )
    &&& d == (Connection { phase: Phase::Offered(agent, at, location), ..c })
}

/// How a stream moves on: from `s` and `c` to `t` and `d`, with an action to take. It is registered
/// under an identifier and a ticket: a TCP connection once it is known where its source is, a web
/// request or UDP session before that.
pub open spec fn moves(
    s: AppView,
    t: AppView,
    c: Connection,
    d: Connection,
    event: FlowEvent,
    action: FlowAction,
    id: u128,
    ticket: Seq<char>,
) -> bool {
    match (c.phase, event) {
        (Phase::New, FlowEvent::Start) => {
            let (counters, answer) = admission(c.flow, s, c.tunnel@, c.peer.ip);
            &&& t == AppView { counters, ..s }
            &&& match answer {
                Ok(agent) => if c.flow == Flow::Tcp {
                    action == FlowAction::Locate(c.peer.ip) && d == (Connection {
                        phase: Phase::Locating(agent),
                        ..c
                    })
                } else {
                    action is Prepare && d == (Connection {
                        phase: Phase::Preparing(agent, None),
                        ..c
                    })
                },
                Err(reason) => action matches FlowAction::Fail(e) && e@ == reason && d
                    == (Connection { phase: Phase::Done, ..c }),
            }
        },
        (Phase::Locating(agent), FlowEvent::Located { location, .. }) => {
            &&& t == s
            &&& action is Prepare
            &&& d == (Connection { phase: Phase::Preparing(agent, location), ..c })
        },
        (Phase::Preparing(agent, location), FlowEvent::Prepared { stream, ack, now, wall }) => {
            &&& offered(s, t, id, c.tunnel.agent_id, ticket, stream, ack, now)
            &&& if c.flow == Flow::Tcp {
                offers(s, c, d, action, agent, id, location, ticket, wall)
            } else {
                &&& action == FlowAction::Locate(c.peer.ip)
                &&& d.phase matches Phase::Registered(peer, at, kept)
                &&& peer == agent
                &&& at == id
                &&& kept@ == ticket
                &&& d == (Connection { phase: d.phase, ..c })
            }
        },
        (Phase::Registered(agent, at, kept), FlowEvent::Located { location, wall }) => {
            &&& t == s
            &&& offers(s, c, d, action, agent, at, location, kept@, wall)
        },
        (Phase::Offered(agent, at, location), FlowEvent::Handed(sent)) => {
            &&& t == s
            &&& if sent {
                action is Await && d == (Connection {
                    phase: Phase::Waiting(agent, at, location),
                    ..c
                })
            } else {
                action matches FlowAction::Fail(e) && e@ == unsent(c.flow) && d == (Connection {
                    phase: Phase::Done,
                    ..c
                })
            }
        },
        (Phase::Waiting(agent, at, location), FlowEvent::Answered { outcome, wall }) => {
            match refusal(c.flow, outcome) {
                Some(reason) => {
                    &&& t == settled(s, c.flow, at, outcome)
                    &&& action matches FlowAction::Fail(e)
                    &&& e@ == reason
                    &&& d == (Connection { phase: Phase::Done, ..c })
                },
                None => if c.flow == Flow::Udp {
                    &&& t == udp_counted(s)
                    &&& action == FlowAction::Locate(c.peer.ip)
                    &&& d == (Connection { phase: Phase::Relocating(agent, at), ..c })
                } else {
                    &&& activated(s, t, at, c.tunnel@, c.peer, location, agent.transport, wall)
                    &&& action == (FlowAction::Bridge { channel: agent.channel, id: at })
                    &&& d == (Connection { phase: Phase::Running(at), ..c })
                },
            }
        },
        (Phase::Relocating(agent, at), FlowEvent::Relocated { location, wall }) => {
            &&& activated(s, t, at, c.tunnel@, c.peer, location, agent.transport, wall)
            &&& action == (FlowAction::Bridge { channel: agent.channel, id: at })
            &&& d == (Connection { phase: Phase::Running(at), ..c })
        },
        (Phase::Running(at), FlowEvent::Ended { wall }) => {
            &&& d == (Connection { phase: Phase::Done, ..c })
            &&& if c.flow == Flow::Udp {
                t == s && action is Finish
            } else {
                &&& t == finished(s, at)
                &&& if c.flow == Flow::Tcp && s.active.contains_key(at) {
                    action matches FlowAction::Record(row) && records(row, s.active[at], wall)
                } else {
                    action is Finish
                }
            }
        },
        _ => t == s && d == c && action is Misplaced,
    }
}

impl Connection {
    /// A stream for a source that wants in.
    pub fn new(flow: Flow, tunnel: Tunnel, peer: SocketAddr) -> (r: Connection)
        ensures
            r == (Connection { flow, tunnel, peer, phase: Phase::New }),
    {
        Connection { flow, tunnel, peer, phase: Phase::New }
    }

    /// Offers the stream to an agent.
    fn offer(
        self,
        agent: AgentPeer,
        id: u128,
        location: Option<GeoLocation>,
        ticket: String,
        wall: Timestamp,
        ttl: u64,
    ) -> (r: (Connection, FlowAction))
        requires
            ticket_fits(wall, ttl),
        ensures
            r.0 == (Connection { phase: Phase::Offered(agent, id, location), ..self }),
            r.1 matches FlowAction::Offer { channel, id: at, message } && channel == agent.channel
                && at == id && asks(
                message,
                self.flow,
                id,
                self.tunnel@,
                self.peer,
                location,
                ticket@,
                wall,
                ttl,
            ),
    {
        let kept = copy_location(&location);
        let message = ask(self.flow, id, &self.tunnel, self.peer, location, ticket, wall, ttl);
        (
            Connection {
                flow: self.flow,
                tunnel: self.tunnel,
                peer: self.peer,
                phase: Phase::Offered(agent, id, kept),
            },
            FlowAction::Offer { channel: agent.channel, id, message },
        )
    }

    /// Moves the stream on. It is registered under the given identifier and ticket.
    pub fn next_as(
        self,
        state: &mut AppState,
        event: FlowEvent,
        id: u128,
        ticket: String,
    ) -> (r: (Connection, FlowAction))
        requires
            old(state).wf(),
            all_valid(self.tunnel.allowed_cidrs@),
            timely(self, event, old(state).config.ticket_ttl),
        ensures
            final(state).wf(),
            moves(old(state)@, final(state)@, self, r.0, event, r.1, id, ticket@),
    {
        let flow = self.flow;
        let peer = self.peer;
        match self.phase {
            Phase::New => match event {
                FlowEvent::Start => match let_in(state, &self.tunnel, peer.ip, flow) {
                    Ok(agent) => match flow {
                        Flow::Tcp => (
                            Connection {
                                flow,
                                tunnel: self.tunnel,
                                peer,
                                phase: Phase::Locating(agent),
                            },
                            FlowAction::Locate(peer.ip),
                        ),
                        _ => (
                            Connection {
                                flow,
                                tunnel: self.tunnel,
                                peer,
                                phase: Phase::Preparing(agent, None),
                            },
                            FlowAction::Prepare,
                        ),
                    },
                    Err(reason) => (
                        Connection { flow, tunnel: self.tunnel, peer, phase: Phase::Done },
                        FlowAction::Fail(reason),
                    ),
                },
                _ => (
                    Connection { flow, tunnel: self.tunnel, peer, phase: Phase::New },
                    FlowAction::Misplaced,
                ),
            },
            Phase::Locating(agent) => match event {
                FlowEvent::Located { location, .. } => (
                    Connection {
                        flow,
                        tunnel: self.tunnel,
                        peer,
                        phase: Phase::Preparing(agent, location),
                    },
                    FlowAction::Prepare,
                ),
                _ => (
                    Connection {
                        flow,
                        tunnel: self.tunnel,
                        peer,
                        phase: Phase::Locating(agent),
                    },
                    FlowAction::Misplaced,
                ),
            },
            Phase::Preparing(agent, location) => match event {
                FlowEvent::Prepared { stream, ack, now, wall } => {
                    let ttl: u64 = state.config.ticket_ttl;
                    register(
                        state,
                        self.tunnel.agent_id,
                        id,
                        ticket.as_str(),
                        stream,
                        ack,
                        now,
                    );
                    match flow {
                        Flow::Tcp => Connection {
                            flow,
                            tunnel: self.tunnel,
                            peer,
                            phase: Phase::New,
                        }.offer(agent, id, location, ticket, wall, ttl),
                        _ => (
                            Connection {
                                flow,
                                tunnel: self.tunnel,
                                peer,
                                phase: Phase::Registered(agent, id, ticket),
                            },
                            FlowAction::Locate(peer.ip),
                        ),
                    }
                },
                _ => (
                    Connection {
                        flow,
                        tunnel: self.tunnel,
                        peer,
                        phase: Phase::Preparing(agent, location),
                    },
                    FlowAction::Misplaced,
                ),
            },
            Phase::Registered(agent, at, kept) => match event {
                FlowEvent::Located { location, wall } => {
                    let ttl: u64 = state.config.ticket_ttl;
                    Connection { flow, tunnel: self.tunnel, peer, phase: Phase::New }.offer(
                        agent,
                        at,
                        location,
                        kept,
                        wall,
                        ttl,
                    )
                },
                _ => (
                    Connection {
                        flow,
                        tunnel: self.tunnel,
                        peer,
                        phase: Phase::Registered(agent, at, kept),
                    },
                    FlowAction::Misplaced,
                ),
            },
            Phase::Offered(agent, at, location) => match event {
                FlowEvent::Handed(sent) => if sent {
                    (
                        Connection {
                            flow,
                            tunnel: self.tunnel,
                            peer,
                            phase: Phase::Waiting(agent, at, location),
                        },
                        FlowAction::Await,
                    )
                } else {
                    let reason = match flow {
                        Flow::Tcp => "send open connection to agent".to_owned(),
                        _ => "channel closed".to_owned(),
                    };
                    (
                        Connection { flow, tunnel: self.tunnel, peer, phase: Phase::Done },
                        FlowAction::Fail(reason),
                    )
                },
                _ => (
                    Connection {
                        flow,
                        tunnel: self.tunnel,
                        peer,
                        phase: Phase::Offered(agent, at, location),
                    },
                    FlowAction::Misplaced,
                ),
            },
            Phase::Waiting(agent, at, location) => match event {
                FlowEvent::Answered { outcome, wall } => match settle(state, flow, at, outcome) {
                    Err(reason) => (
                        Connection { flow, tunnel: self.tunnel, peer, phase: Phase::Done },
                        FlowAction::Fail(reason),
                    ),
                    Ok(_) => if flow == Flow::Udp {
                        count_udp(state);
                        (
                            Connection {
                                flow,
                                tunnel: self.tunnel,
                                peer,
                                phase: Phase::Relocating(agent, at),
                            },
                            FlowAction::Locate(peer.ip),
                        )
                    } else {
                        activate(
                            state,
                            at,
                            &self.tunnel,
                            peer,
                            location,
                            agent.transport,
                            wall,
                        );
                        (
                            Connection {
                                flow,
                                tunnel: self.tunnel,
                                peer,
                                phase: Phase::Running(at),
                            },
                            FlowAction::Bridge { channel: agent.channel, id: at },
                        )
                    },
                },
                _ => (
                    Connection {
                        flow,
                        tunnel: self.tunnel,
                        peer,
                        phase: Phase::Waiting(agent, at, location),
                    },
                    FlowAction::Misplaced,
                ),
            },
            Phase::Relocating(agent, at) => match event {
                FlowEvent::Relocated { location, wall } => {
                    activate(state, at, &self.tunnel, peer, location, agent.transport, wall);
                    (
                        Connection {
                            flow,
                            tunnel: self.tunnel,
                            peer,
                            phase: Phase::Running(at),
                        },
                        FlowAction::Bridge { channel: agent.channel, id: at },
                    )
                },
                _ => (
                    Connection {
                        flow,
                        tunnel: self.tunnel,
                        peer,
                        phase: Phase::Relocating(agent, at),
                    },
                    FlowAction::Misplaced,
                ),
            },
            Phase::Running(at) => match event {
                FlowEvent::Ended { wall } => {
                    let done = Connection {
                        flow,
                        tunnel: self.tunnel,
                        peer,
                        phase: Phase::Done,
                    };
                    if flow == Flow::Udp {
                        return (done, FlowAction::Finish);
                    }
                    match finish(state, flow, at, wall) {
                        Some(row) => (done, FlowAction::Record(row)),
                        None => (done, FlowAction::Finish),
                    }
                },
                _ => (
                    Connection { flow, tunnel: self.tunnel, peer, phase: Phase::Running(at) },
                    FlowAction::Misplaced,
                ),
            },
            Phase::Done => (
                Connection { flow, tunnel: self.tunnel, peer, phase: Phase::Done },
                FlowAction::Misplaced,
            ),
        }
    }

    /// Moves the stream on. It is registered under a new random identifier and ticket.
    pub fn next(self, state: &mut AppState, event: FlowEvent) -> (r: (Connection, FlowAction))
        requires
            old(state).wf(),
            all_valid(self.tunnel.allowed_cidrs@),
            timely(self, event, old(state).config.ticket_ttl),
        ensures
            final(state).wf(),
            exists|id: u128, bytes: Seq<u8>|
                bytes.len() == 32 && #[trigger] moves(
                    old(state)@,
                    final(state)@,
                    self,
                    r.0,
                    event,
                    r.1,
                    id,
                    url_base64(bytes),
                ),
    {
        let id = new_id();
        let ticket = random_secret(32);
        self.next_as(state, event, id, ticket)
    }
}

/// A connection to the public port of a tunnel.
pub fn accept_public_connection(tunnel: Tunnel, peer: SocketAddr) -> (r: Connection)
    ensures
        r == (Connection { flow: Flow::Tcp, tunnel, peer, phase: Phase::New }),
{
    Connection::new(Flow::Tcp, tunnel, peer)
}

/// A request to the host name of a tunnel.
pub fn open_virtual_stream(tunnel: Tunnel, peer: SocketAddr) -> (r: Connection)
    ensures
        r == (Connection { flow: Flow::Web, tunnel, peer, phase: Phase::New }),
{
    Connection::new(Flow::Web, tunnel, peer)
}

/// The datagrams of a source for the public port of a tunnel.
pub fn open_session(tunnel: Tunnel, peer: SocketAddr) -> (r: Connection)
    ensures
        r == (Connection { flow: Flow::Udp, tunnel, peer, phase: Phase::New }),
{
    Connection::new(Flow::Udp, tunnel, peer)
}

/// Bytes of a TCP connection or a web request move only for a source that the tunnel admits: past
/// the start comes only who was let in.
pub proof fn law_only_admitted_sources_start(
    s: AppView,
    t: AppView,
    c: Connection,
    d: Connection,
    action: FlowAction,
    id: u128,
    ticket: Seq<char>,
)
    requires
        c.phase is New,
        c.flow != Flow::Udp,
        moves(s, t, c, d, FlowEvent::Start, action, id, ticket),
        !crate::tunnels::admits(c.tunnel@, c.peer.ip),
    ensures
        d.phase is Done,
        action is Fail,
{
}

/// The tunnel, the source and the purpose of a stream never change, and what is done stays done.
pub proof fn law_streams_keep_their_ends(
    s: AppView,
    t: AppView,
    c: Connection,
    d: Connection,
    event: FlowEvent,
    action: FlowAction,
    id: u128,
    ticket: Seq<char>,
)
    requires
        moves(s, t, c, d, event, action, id, ticket),
    ensures
        d.tunnel == c.tunnel,
        d.peer == c.peer,
        d.flow == c.flow,
        c.phase is Done ==> d.phase is Done && t == s,
{
}

/// A stream is registered when its ends are there, and at no other time: no other event adds a
/// stream or a pending offer. For a web request or a UDP session that is before its source is looked
/// up, and the agent is asked after it.
pub proof fn law_streams_are_registered_with_their_ends(
    s: AppView,
    t: AppView,
    c: Connection,
    d: Connection,
    event: FlowEvent,
    action: FlowAction,
    id: u128,
    ticket: Seq<char>,
)
    requires
        moves(s, t, c, d, event, action, id, ticket),
    ensures
        !(event is Prepared) ==> forall|k: u128|
            (t.streams.contains_key(k) ==> s.streams.contains_key(k)) && (
            #[trigger] t.pending.contains_key(k) ==> s.pending.contains_key(k)),
        event is Prepared && !(action is Misplaced) ==> t.streams.contains_key(id)
            && t.pending.contains_key(id) && (action is Locate <==> c.flow != Flow::Tcp),
        c.flow != Flow::Tcp && action is Offer ==> c.phase is Registered,
        c.phase is New && action is Locate ==> c.flow == Flow::Tcp,
{
}

/// Whether an event is the agent's acceptance.
pub open spec fn acceptance(event: FlowEvent) -> bool {
    event matches FlowEvent::Answered { outcome, .. } && outcome is Accepted
}

/// Whether a stream has come past the agent's acceptance.
pub open spec fn accepted(phase: Phase) -> bool {
    phase is Relocating || phase is Running
}

/// Bytes move only on a stream that the agent has accepted, and a stream comes past that point only
/// by the agent's acceptance.
pub proof fn law_bytes_move_after_acceptance(
    s: AppView,
    t: AppView,
    c: Connection,
    d: Connection,
    event: FlowEvent,
    action: FlowAction,
    id: u128,
    ticket: Seq<char>,
)
    requires
        moves(s, t, c, d, event, action, id, ticket),
    ensures
        action is Bridge ==> accepted(c.phase) || acceptance(event),
        accepted(d.phase) ==> accepted(c.phase) || (c.phase is Waiting && acceptance(event)),
{
}

/// A TCP connection or web request that ends is gone from the streams and from the connections in
/// progress.
pub proof fn law_ended_streams_are_gone(
    s: AppView,
    t: AppView,
    c: Connection,
    d: Connection,
    wall: Timestamp,
    action: FlowAction,
    at: u128,
    id: u128,
    ticket: Seq<char>,
)
    requires
        c.phase == Phase::Running(at),
        c.flow != Flow::Udp,
        moves(s, t, c, d, FlowEvent::Ended { wall }, action, id, ticket),
    ensures
        !t.streams.contains_key(at),
        !t.active.contains_key(at),
        d.phase is Done,
{
}

/// A TCP connection leaves a record of what it did when it ends; a web request and a UDP session leave
/// none.
pub proof fn law_connections_leave_a_record(
    s: AppView,
    t: AppView,
    c: Connection,
    d: Connection,
    wall: Timestamp,
    action: FlowAction,
    at: u128,
    id: u128,
    ticket: Seq<char>,
)
    requires
        c.phase == Phase::Running(at),
        moves(s, t, c, d, FlowEvent::Ended { wall }, action, id, ticket),
    ensures
        c.flow == Flow::Tcp && s.active.contains_key(at) ==> (action matches FlowAction::Record(row)
            && row.id@ == crate::ids::id_text(s.active[at].id) && row.peer_addr@
            == s.active[at].peer_addr@ && (s.active[at].bytes_up <= i64::MAX ==> row.bytes_up
            == s.active[at].bytes_up) && (s.active[at].bytes_down <= i64::MAX ==> row.bytes_down
            == s.active[at].bytes_down)),
        c.flow != Flow::Tcp ==> action is Finish,
        c.flow == Flow::Udp ==> t == s,
{
}

/// The stages of a stream follow one another: who is let in is asked for at the agent of the tunnel, with
/// the location that was found; the answer is waited for; and once it is yes, bytes move between the
/// source and that agent, under one identifier. A TCP connection and a web request are listed with the
/// location of the offer, a UDP session with one that is looked up anew.
pub proof fn law_streams_go_their_way(
    s: AppView,
    t: AppView,
    c: Connection,
    d: Connection,
    event: FlowEvent,
    action: FlowAction,
    id: u128,
    ticket: Seq<char>,
)
    requires
        moves(s, t, c, d, event, action, id, ticket),
    ensures
        c.phase is New && event is Start && (c.flow == Flow::Udp || crate::tunnels::admits(
            c.tunnel@,
            c.peer.ip,
        )) && s.agents.contains_key(c.tunnel.agent_id) ==> {
            &&& c.flow == Flow::Tcp ==> d.phase == Phase::Locating(s.agents[c.tunnel.agent_id])
            &&& c.flow != Flow::Tcp ==> d.phase == Phase::Preparing(
                s.agents[c.tunnel.agent_id],
                None,
            )
        },
        c.phase matches Phase::Offered(agent, at, location) ==> {
            &&& event == FlowEvent::Handed(true) ==> action is Await && d.phase == Phase::Waiting(
                agent,
                at,
                location,
            )
            &&& event == FlowEvent::Handed(false) ==> action is Fail && d.phase is Done
        },
        c.phase matches Phase::Waiting(agent, at, location) ==> (
        event matches FlowEvent::Answered { outcome, wall } ==> {
            &&& outcome is Accepted && c.flow != Flow::Udp ==> action == (FlowAction::Bridge {
                channel: agent.channel,
                id: at,
            }) && t.active.contains_key(at) && t.active[at].peer_location == location
                && t.active[at].tunnel_id == c.tunnel.id && t.active[at].opened_at == wall
            &&& outcome is Accepted && c.flow == Flow::Udp ==> action == FlowAction::Locate(
                c.peer.ip,
            ) && t.counters.active_udp == s.counters.active_udp.wrapping_add(1)
            &&& !(outcome is Accepted) ==> action is Fail && d.phase is Done
        }),
        c.phase matches Phase::Relocating(agent, at) ==> (
        event matches FlowEvent::Relocated { location, wall } ==> action == (FlowAction::Bridge {
            channel: agent.channel,
            id: at,
        }) && t.active.contains_key(at) && t.active[at].peer_location == location
            && t.active[at].transport == Some(agent.transport)),
{
}

/// An offer that could not be sent is given up with a reason of its kind.
pub proof fn law_unsent_offers(flow: Flow)
    ensures
        unsent(Flow::Tcp) == "send open connection to agent"@,
        flow != Flow::Tcp ==> unsent(flow) == "channel closed"@,
{
}

} // verus!
