//! The life of a stream at the agent: from the offer of the relay to the end of the connection with
//! its target.
use crate::agent::{
    accept, acknowledges, decline, needs_tls, session_noted, stream_ended, stream_noted, udp_ended,
    LocalStreams,
};
use crate::protocol::{
    opt_text, ActiveTransport, AgentControlMessage, LocalScheme, Timestamp, Tunnel, TunnelKind,
};
use crate::runtime::{RuntimeState, RuntimeView};
use crate::text;
use vstd::prelude::*;

verus! {

/// How far a stream has come.
#[derive(Debug, Clone, PartialEq, Eq)]
pub enum LocalPhase {
    /// The target is being connected to; the ticket answers the offer.
    Connecting(String),
    /// The target could not be reached, and the relay is being told so. The stream is then given up
    /// for this reason.
    Declining(String),
    /// The relay is being told that the target was reached.
    Accepting,
    /// The connection with the target is being secured.
    Securing,
    /// Bytes move.
    Running,
    /// It is over.
    Done,
}

/// A stream to the target of a tunnel: a connection, or a UDP session.
#[derive(Debug, Clone, PartialEq, Eq)]
pub struct LocalStream {
    pub id: u128,
    pub udp: bool,
    pub tunnel: Tunnel,
    pub phase: LocalPhase,
}

/// Why a connection could not be secured.
#[derive(Debug, Clone, Copy, PartialEq, Eq, Structural)]
pub enum TlsFault {
    /// The host of the target is no name that a certificate can be checked against.
    Name,
    /// The target did not show such a certificate.
    Handshake,
}

/// What happens to a stream.
#[derive(Debug, Clone, PartialEq, Eq)]
pub enum LocalEvent {
    /// There is no socket for a UDP session.
    Unbound(String),
    /// The target was reached. The number stands for where the frames of the stream go.
    Connected(u64),
    /// The target could not be reached.
    Refused(String),
    /// What was to be said to the relay was sent, or could not be.
    Sent(bool),
    /// The connection is secured.
    Secured,
    /// The connection could not be secured.
    Unsecured(TlsFault, String),
    /// Bytes no longer move, in good order or with an error.
    Ended(Option<String>),
}

/// What to do about it.
#[derive(Debug, Clone, PartialEq, Eq)]
pub enum LocalAction {
    /// Say something to the relay.
    Send(AgentControlMessage),
    /// Secure the connection with the target.
    Secure,
    /// Move bytes between the target and the stream.
    Bridge,
    /// Nothing is left to do.
    Finish,
    /// The event does not belong here.
    Misplaced,
}

/// Why a stream is given up whose target could not be reached.
pub open spec fn refused_reason(c: LocalStream, error: Seq<char>) -> Seq<char> {
    if c.udp {
        error
    } else {
        "连接本地目标 "@ + c.tunnel.local_host@ + ":"@ + text::decimal(c.tunnel.local_port as nat)
            + ": "@ + error
    }
}

/// What the relay is told of a target that could not be reached.
pub open spec fn declined_reason(udp: bool, error: Seq<char>) -> Seq<char> {
    (if udp {
        "连接本地 UDP 目标失败："@
    } else {
        "连接本地目标失败："@
    }) + error
}

/// Why a stream is given up whose connection could not be secured.
pub open spec fn unsecured_reason(fault: TlsFault, error: Seq<char>) -> Seq<char> {
    (match fault {
        TlsFault::Name => "本地 HTTPS 主机名无法用于证书校验: "@,
        TlsFault::Handshake => "本地 HTTPS 证书校验失败: "@,
    }) + error
}

/// Whether the connection of a stream has to be secured.
pub open spec fn secured(c: LocalStream) -> bool {
    !c.udp && c.tunnel.kind == TunnelKind::Web && c.tunnel.local_scheme == LocalScheme::Https
}

/// What is known once a stream is over: it is noted, and forgotten where that is due.
pub open spec fn over(
    s: RuntimeView,
    t: RuntimeView,
    m: Map<u128, u64>,
    n: Map<u128, u64>,
    c: LocalStream,
    d: LocalStream,
    transport: ActiveTransport,
    error: Option<Seq<char>>,
    forget: bool,
    at: Timestamp,
) -> bool {
    &&& d == (LocalStream { phase: LocalPhase::Done, ..c })
    &&& n == (if forget {
        m.remove(c.id)
    } else {
        m
    })
    &&& if c.udp {
        session_noted(s, t, error, at)
    } else {
        stream_noted(s, t, transport, error, at)
    }
}

/// How a stream moves on: what the agent knows from `s` to `t`, its streams from `m` to `n`, the
/// stream itself from `c` to `d`, with an action to take.
pub open spec fn serves(
    s: RuntimeView,
    t: RuntimeView,
    m: Map<u128, u64>,
    n: Map<u128, u64>,
    c: LocalStream,
    d: LocalStream,
    transport: ActiveTransport,
    event: LocalEvent,
    action: LocalAction,
    at: Timestamp,
) -> bool {
    match (c.phase, event) {
        (LocalPhase::Connecting(_), LocalEvent::Unbound(error)) if c.udp => {
            &&& action is Finish
            &&& over(s, t, m, n, c, d, transport, Some(error@), false, at)
        },
        (LocalPhase::Connecting(ticket), LocalEvent::Refused(error)) => {
            &&& t == s
            &&& n == m
            &&& action matches LocalAction::Send(message)
            &&& acknowledges(
                message,
                c.id,
                false,
                Some(declined_reason(c.udp, error@)),
                ticket@,
            )
            &&& d.phase matches LocalPhase::Declining(reason)
            &&& reason@ == refused_reason(c, error@)
            &&& d == (LocalStream { phase: d.phase, ..c })
        },
        (LocalPhase::Connecting(ticket), LocalEvent::Connected(stream)) => {
            &&& t == s
            &&& n == m.insert(c.id, stream)
            &&& action matches LocalAction::Send(message)
            &&& acknowledges(message, c.id, true, None, ticket@)
            &&& d == (LocalStream { phase: LocalPhase::Accepting, ..c })
        },
        (LocalPhase::Declining(reason), LocalEvent::Sent(sent)) => {
            &&& action is Finish
            &&& over(
                s,
                t,
                m,
                n,
                c,
                d,
                transport,
                Some(
                    if sent {
                        reason@
                    } else {
                        "channel closed"@
                    },
                ),
                false,
                at,
            )
        },
        (LocalPhase::Accepting, LocalEvent::Sent(sent)) => if !sent {
            &&& action is Finish
            &&& over(s, t, m, n, c, d, transport, Some("channel closed"@), false, at)
        } else if secured(c) {
            &&& t == s
            &&& n == m
            &&& action is Secure
            &&& d == (LocalStream { phase: LocalPhase::Securing, ..c })
        } else {
            &&& t == s
            &&& n == m
            &&& action is Bridge
            &&& d == (LocalStream { phase: LocalPhase::Running, ..c })
        },
        (LocalPhase::Securing, LocalEvent::Secured) => {
            &&& t == s
            &&& n == m
            &&& action is Bridge
            &&& d == (LocalStream { phase: LocalPhase::Running, ..c })
        },
        (LocalPhase::Securing, LocalEvent::Unsecured(fault, error)) => {
            &&& action is Finish
            &&& over(
                s,
                t,
                m,
                n,
                c,
                d,
                transport,
                Some(unsecured_reason(fault, error@)),
                false,
                at,
            )
        },
        (LocalPhase::Running, LocalEvent::Ended(error)) => {
            &&& action is Finish
            &&& over(
                s,
                t,
                m,
                n,
                c,
                d,
                transport,
                opt_text(error),
                !c.udp || error is None,
                at,
            )
        },
        _ => t == s && n == m && d == c && action is Misplaced,
    }
}

/// A connection that the relay offers.
pub fn open_multiplexed_stream(connection_id: u128, tunnel: Tunnel, ticket: String) -> (r:
    LocalStream)
    ensures
        r == (LocalStream {
            id: connection_id,
            udp: false,
            tunnel,
            phase: LocalPhase::Connecting(ticket),
        }),
{
    LocalStream { id: connection_id, udp: false, tunnel, phase: LocalPhase::Connecting(ticket) }
}

/// A UDP session that the relay offers.
pub fn open_udp_session(session_id: u128, tunnel: Tunnel, ticket: String) -> (r: LocalStream)
    ensures
        r == (LocalStream {
            id: session_id,
            udp: true,
            tunnel,
            phase: LocalPhase::Connecting(ticket),
        }),
{
    LocalStream { id: session_id, udp: true, tunnel, phase: LocalPhase::Connecting(ticket) }
}

impl LocalStream {
    /// Ends the stream. A connection is forgotten where that is due; a session where it ended in
    /// good order.
    fn end(
        self,
        state: &mut RuntimeState,
        streams: &mut LocalStreams,
        transport: ActiveTransport,
        error: Option<String>,
        forget: bool,
        at: Timestamp,
    ) -> (r: (LocalStream, LocalAction))
        requires
            old(state).wf(),
            old(streams).wf(),
            self.udp ==> forget == (error is None),
        ensures
            final(state).wf(),
            final(streams).wf(),
            r.1 is Finish,
            over(
                old(state)@,
                final(state)@,
                old(streams)@,
                final(streams)@,
                self,
                r.0,
                transport,
                opt_text(error),
                forget,
                at,
            ),
    {
        if self.udp {
            udp_ended(state, streams, self.id, error, at);
        } else {
            if forget {
                streams.remove(self.id);
            }
            stream_ended(state, transport, error, at);
        }
        (
            LocalStream {
                id: self.id,
                udp: self.udp,
                tunnel: self.tunnel,
                phase: LocalPhase::Done,
            },
            LocalAction::Finish,
        )
    }

    /// Moves the stream on.
    pub fn next(
        self,
        state: &mut RuntimeState,
        streams: &mut LocalStreams,
        transport: ActiveTransport,
        event: LocalEvent,
        at: Timestamp,
    ) -> (r: (LocalStream, LocalAction))
        requires
            old(state).wf(),
            old(streams).wf(),
        ensures
            final(state).wf(),
            final(streams).wf(),
            serves(
                old(state)@,
                final(state)@,
                old(streams)@,
                final(streams)@,
                self,
                r.0,
                transport,
                event,
                r.1,
                at,
            ),
    {
        let LocalStream { id, udp, tunnel, phase } = self;
        match phase {
            LocalPhase::Connecting(ticket) => match event {
                LocalEvent::Refused(error) => {
                    let message = decline(id, ticket, error.as_str(), udp);
                    let reason = if udp {
                        error
                    } else {
                        let mut line: String = "连接本地目标 ".to_owned();
                        line.append(tunnel.local_host.as_str());
                        line.append(":");
                        line.append(text::decimal_text(tunnel.local_port as u64).as_str());
                        line.append(": ");
                        line.append(error.as_str());
                        line
                    };
                    (
                        LocalStream { id, udp, tunnel, phase: LocalPhase::Declining(reason) },
                        LocalAction::Send(message),
                    )
                },
                LocalEvent::Connected(stream) => {
                    let message = accept(streams, id, stream, ticket);
                    (
                        LocalStream { id, udp, tunnel, phase: LocalPhase::Accepting },
                        LocalAction::Send(message),
                    )
                },
                LocalEvent::Unbound(error) => {
                    let here = LocalStream {
                        id,
                        udp,
                        tunnel,
                        phase: LocalPhase::Connecting(ticket),
                    };
                    if udp {
                        here.end(state, streams, transport, Some(error), false, at)
                    } else {
                        (here, LocalAction::Misplaced)
                    }
                },
                _ => (
                    LocalStream { id, udp, tunnel, phase: LocalPhase::Connecting(ticket) },
                    LocalAction::Misplaced,
                ),
            },
            LocalPhase::Declining(reason) => match event {
                LocalEvent::Sent(sent) => {
                    let error: String = if sent {
                        reason.clone()
                    } else {
                        "channel closed".to_owned()
                    };
                    let here = LocalStream {
                        id,
                        udp,
                        tunnel,
                        phase: LocalPhase::Declining(reason),
                    };
                    here.end(state, streams, transport, Some(error), false, at)
                },
                _ => (
                    LocalStream { id, udp, tunnel, phase: LocalPhase::Declining(reason) },
                    LocalAction::Misplaced,
                ),
            },
            LocalPhase::Accepting => match event {
                LocalEvent::Sent(sent) => if !sent {
                    let here = LocalStream { id, udp, tunnel, phase: LocalPhase::Accepting };
                    here.end(
                        state,
                        streams,
                        transport,
                        Some("channel closed".to_owned()),
                        false,
                        at,
                    )
                } else if !udp && needs_tls(&tunnel) {
                    (
                        LocalStream { id, udp, tunnel, phase: LocalPhase::Securing },
                        LocalAction::Secure,
                    )
                } else {
                    (
                        LocalStream { id, udp, tunnel, phase: LocalPhase::Running },
                        LocalAction::Bridge,
                    )
                },
                _ => (
                    LocalStream { id, udp, tunnel, phase: LocalPhase::Accepting },
                    LocalAction::Misplaced,
                ),
            },
            LocalPhase::Securing => match event {
                LocalEvent::Secured => (
                    LocalStream { id, udp, tunnel, phase: LocalPhase::Running },
                    LocalAction::Bridge,
                ),
                LocalEvent::Unsecured(fault, error) => {
                    let reason = match fault {
                        TlsFault::Name => text::join(
                            "本地 HTTPS 主机名无法用于证书校验: ",
                            error.as_str(),
                        ),
                        TlsFault::Handshake => text::join(
                            "本地 HTTPS 证书校验失败: ",
                            error.as_str(),
                        ),
                    };
                    let here = LocalStream { id, udp, tunnel, phase: LocalPhase::Securing };
                    here.end(state, streams, transport, Some(reason), false, at)
                },
                _ => (
                    LocalStream { id, udp, tunnel, phase: LocalPhase::Securing },
                    LocalAction::Misplaced,
                ),
            },
            LocalPhase::Running => match event {
                LocalEvent::Ended(error) => {
                    let forget: bool = !udp || error.is_none();
                    let here = LocalStream { id, udp, tunnel, phase: LocalPhase::Running };
                    here.end(state, streams, transport, error, forget, at)
                },
                _ => (
                    LocalStream { id, udp, tunnel, phase: LocalPhase::Running },
                    LocalAction::Misplaced,
                ),
            },
            LocalPhase::Done => (
                LocalStream { id, udp, tunnel, phase: LocalPhase::Done },
                LocalAction::Misplaced,
            ),
        }
    }
}

/// Whether an action accepts the offer of a stream.
pub open spec fn says_yes(action: LocalAction, id: u128) -> bool {
    action matches LocalAction::Send(message) && message matches AgentControlMessage::ConnectionAck {
        connection_id,
        accepted,
        ..
    } && connection_id == id && accepted
}

/// An agent takes frames for a stream before it accepts the stream, so that none is lost.
pub proof fn law_accepted_streams_are_listed(
    s: RuntimeView,
    t: RuntimeView,
    m: Map<u128, u64>,
    n: Map<u128, u64>,
    c: LocalStream,
    d: LocalStream,
    transport: ActiveTransport,
    event: LocalEvent,
    action: LocalAction,
    at: Timestamp,
)
    requires
        serves(s, t, m, n, c, d, transport, event, action, at),
        says_yes(action, c.id),
    ensures
        n.contains_key(c.id),
        event matches LocalEvent::Connected(stream) && n[c.id] == stream,
{
}

/// Bytes move only on a stream that was accepted, and where the target wants TLS, on one that was
/// secured.
pub proof fn law_bytes_move_on_accepted_streams(
    s: RuntimeView,
    t: RuntimeView,
    m: Map<u128, u64>,
    n: Map<u128, u64>,
    c: LocalStream,
    d: LocalStream,
    transport: ActiveTransport,
    event: LocalEvent,
    action: LocalAction,
    at: Timestamp,
)
    requires
        serves(s, t, m, n, c, d, transport, event, action, at),
        action is Bridge,
    ensures
        c.phase is Accepting || c.phase is Securing,
        secured(c) ==> c.phase is Securing && event is Secured,
{
}

/// A connection that ran is forgotten when it ends, whatever its end.
pub proof fn law_ended_connections_are_forgotten(
    s: RuntimeView,
    t: RuntimeView,
    m: Map<u128, u64>,
    n: Map<u128, u64>,
    c: LocalStream,
    d: LocalStream,
    transport: ActiveTransport,
    error: Option<String>,
    action: LocalAction,
    at: Timestamp,
)
    requires
        c.phase is Running,
        !c.udp,
        serves(s, t, m, n, c, d, transport, LocalEvent::Ended(error), action, at),
    ensures
        !n.contains_key(c.id),
        d.phase is Done,
{
}

/// A stream touches no stream but itself, and stays what it is.
pub proof fn law_streams_keep_to_themselves(
    s: RuntimeView,
    t: RuntimeView,
    m: Map<u128, u64>,
    n: Map<u128, u64>,
    c: LocalStream,
    d: LocalStream,
    transport: ActiveTransport,
    event: LocalEvent,
    action: LocalAction,
    at: Timestamp,
    other: u128,
)
    requires
        serves(s, t, m, n, c, d, transport, event, action, at),
        other != c.id,
    ensures
        n.contains_key(other) == m.contains_key(other),
        m.contains_key(other) ==> n[other] == m[other],
        d.id == c.id && d.udp == c.udp && d.tunnel == c.tunnel,
        c.phase is Done ==> d.phase is Done && t == s && n == m,
{
}

/// A target that cannot be reached is declined, with the ticket of the offer and the reason, and is
/// not listed; one that is reached is accepted with the ticket, and listed. Encryption to the target
/// is set up for HTTPS targets of web tunnels, and for no others.
pub proof fn law_targets_answer_their_offer(
    s: RuntimeView,
    t: RuntimeView,
    m: Map<u128, u64>,
    n: Map<u128, u64>,
    c: LocalStream,
    d: LocalStream,
    transport: ActiveTransport,
    event: LocalEvent,
    action: LocalAction,
    at: Timestamp,
    offered: String,
)
    requires
        serves(s, t, m, n, c, d, transport, event, action, at),
        c.phase == LocalPhase::Connecting(offered),
    ensures
        event matches LocalEvent::Refused(error) ==> (action matches LocalAction::Send(
            AgentControlMessage::ConnectionAck { connection_id, accepted, error: reason, ticket },
        ) && connection_id == c.id && !accepted && opt_text(ticket) == Some(offered@) && (
        reason matches Some(text) && text::has_suffix(text@, error@)) && n == m
            && d.phase is Declining),
        event matches LocalEvent::Connected(stream) ==> (action matches LocalAction::Send(
            AgentControlMessage::ConnectionAck { connection_id, accepted, error: reason, ticket },
        ) && connection_id == c.id && accepted && reason is None && opt_text(ticket) == Some(
            offered@,
        ) && n == m.insert(c.id, stream) && d.phase is Accepting),
{
    if let LocalEvent::Refused(error) = event {
        let reason = declined_reason(c.udp, error@);
        assert(reason.skip(reason.len() - error@.len()) =~= error@);
    }
}

/// Once the acceptance is sent, bytes move; for an HTTPS target of a web tunnel after the connection
/// is encrypted, and where that fails they never do.
pub proof fn law_only_https_targets_are_encrypted(
    s: RuntimeView,
    t: RuntimeView,
    m: Map<u128, u64>,
    n: Map<u128, u64>,
    c: LocalStream,
    d: LocalStream,
    transport: ActiveTransport,
    event: LocalEvent,
    action: LocalAction,
    at: Timestamp,
)
    requires
        serves(s, t, m, n, c, d, transport, event, action, at),
    ensures
        c.phase is Accepting && event == LocalEvent::Sent(true) ==> {
            let https = !c.udp && c.tunnel.kind == TunnelKind::Web && c.tunnel.local_scheme
                == LocalScheme::Https;
            &&& https ==> action is Secure && d.phase is Securing
            &&& !https ==> action is Bridge && d.phase is Running
        },
        c.phase is Accepting && event == LocalEvent::Sent(false) ==> action is Finish
            && d.phase is Done,
        c.phase is Securing && event is Secured ==> action is Bridge && d.phase is Running,
        c.phase is Securing && event is Unsecured ==> action is Finish && d.phase is Done,
        c.phase is Declining && event is Sent ==> action is Finish && d.phase is Done,
        c.phase is Running && event is Ended ==> action is Finish && d.phase is Done,
{
}

/// What goes wrong with a stream is logged as an error, with the reason; a stream that ends well leaves
/// no line.
pub proof fn law_failures_are_logged(
    s: RuntimeView,
    t: RuntimeView,
    m: Map<u128, u64>,
    n: Map<u128, u64>,
    c: LocalStream,
    d: LocalStream,
    transport: ActiveTransport,
    error: Option<String>,
    action: LocalAction,
    at: Timestamp,
)
    requires
        c.phase is Running,
        serves(s, t, m, n, c, d, transport, LocalEvent::Ended(error), action, at),
    ensures
        error is None ==> t.events == s.events,
        error matches Some(reason) ==> t.events.len() > 0 && t.events[0].level@ == "error"@
            && t.events[0].at == at && text::has_suffix(t.events[0].message@, reason@),
        c.udp && error is Some ==> n == m,
        !c.udp || error is None ==> n == m.remove(c.id),
        t.config == s.config && t.status == s.status && t.tunnels == s.tunnels,
{
    if let Some(reason) = error {
        let line = t.events[0].message@;
        assert(line.skip(line.len() - reason@.len()) =~= reason@);
    }
}

/// Why a target was not reached is told with the target, to the relay with the kind of its tunnel, and
/// why a connection could not be secured with what failed.
pub proof fn law_reasons_name_the_target(c: LocalStream, error: Seq<char>)
    ensures
        c.udp ==> refused_reason(c, error) == error,
        !c.udp ==> refused_reason(c, error) == "连接本地目标 "@ + c.tunnel.local_host@ + ":"@
            + text::decimal(c.tunnel.local_port as nat) + ": "@ + error,
        declined_reason(true, error) == "连接本地 UDP 目标失败："@ + error,
        declined_reason(false, error) == "连接本地目标失败："@ + error,
        unsecured_reason(TlsFault::Name, error) == "本地 HTTPS 主机名无法用于证书校验: "@ + error,
        unsecured_reason(TlsFault::Handshake, error) == "本地 HTTPS 证书校验失败: "@ + error,
{
}

/// The offer of a stream is accepted by the acknowledgement of that stream, and by nothing else.
pub proof fn law_acceptance(id: u128, other: u128, error: Option<String>, ticket: Option<String>)
    ensures
        says_yes(
            LocalAction::Send(
                AgentControlMessage::ConnectionAck {
                    connection_id: id,
                    accepted: true,
                    error,
                    ticket,
                },
            ),
            id,
        ),
        !says_yes(
            LocalAction::Send(
                AgentControlMessage::ConnectionAck {
                    connection_id: id,
                    accepted: false,
                    error,
                    ticket,
                },
            ),
            id,
        ),
        other != id ==> !says_yes(
            LocalAction::Send(
                AgentControlMessage::ConnectionAck {
                    connection_id: id,
                    accepted: true,
                    error,
                    ticket,
                },
            ),
            other,
        ),
{
}

/// A stream is listed from the moment its target is reached, and leaves the list only once bytes have
/// moved and it has ended; a UDP session that ended with an error stays.
pub proof fn law_streams_are_listed_while_they_run(
    s: RuntimeView,
    t: RuntimeView,
    m: Map<u128, u64>,
    n: Map<u128, u64>,
    c: LocalStream,
    d: LocalStream,
    transport: ActiveTransport,
    event: LocalEvent,
    action: LocalAction,
    at: Timestamp,
)
    requires
        serves(s, t, m, n, c, d, transport, event, action, at),
    ensures
        c.phase is Securing || c.phase is Accepting || c.phase is Declining ==> n == m,
        c.phase is Connecting && !(event is Connected) ==> n == m,
        c.phase is Running ==> (event matches LocalEvent::Ended(error) ==> n == (if c.udp && error
            is Some {
            m
        } else {
            m.remove(c.id)
        })),
        c.phase is Declining && event == LocalEvent::Sent(false) && t.events.len() > 0 && t.events
            != s.events ==> text::has_suffix(t.events[0].message@, "channel closed"@),
        c.phase is Accepting && event == LocalEvent::Sent(false) ==> action is Finish,
{
    text::law_beginnings_and_ends("转发连接失败："@, "channel closed"@);
    text::law_beginnings_and_ends("UDP 转发失败："@, "channel closed"@);
}

} // verus!
