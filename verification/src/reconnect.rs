//! How an agent keeps a carrier: it tries, falls back, waits and tries again.
use crate::agent::{
    backoff, begin_attempt, carrier_ended, connecting, delay_millis, end_text,
    fallback_reason, first_carrier, first_of, next_attempt, run_carrier, status_set, token_failed,
    CarrierEnd,
};
use crate::agent_config::AgentConfig;
use crate::protocol::{opt_text, ActiveTransport, Timestamp, TransportMode};
use crate::runtime::{line_says, logged, AgentStatus, RuntimeState, RuntimeView, Tray};
use vstd::prelude::*;

verus! {

/// How far an attempt has come.
#[derive(Debug, Clone, PartialEq, Eq)]
pub enum Attempt {
    /// Between two attempts.
    Idle,
    /// The token is being read.
    Loading(AgentConfig),
    /// The first carrier of the mode is in use.
    First(AgentConfig, String),
    /// The carrier that the agent fell back to is in use.
    Fallback(AgentConfig, String),
    /// The agent has stopped.
    Stopped,
}

/// The attempts of an agent and how many there were, as far as that is counted.
#[derive(Debug, Clone, PartialEq, Eq)]
pub struct Reconnector {
    pub attempt: u32,
    pub at: Attempt,
}

/// What happens to an attempt.
#[derive(Debug, Clone, PartialEq, Eq)]
pub enum ReconnectEvent {
    /// It is time to try.
    Begin { cancelled: bool },
    /// The token was read.
    Token(String),
    /// The token could not be read.
    NoToken(String),
    /// The carrier has ended.
    Ended { end: CarrierEnd, cancelled: bool },
}

/// What to do about it.
#[derive(Debug, Clone, PartialEq, Eq)]
pub enum ReconnectAction {
    /// Read the token of an installation.
    LoadToken(u128),
    /// Use a carrier.
    Run { config: AgentConfig, token: String, transport: ActiveTransport },
    /// Wait so many milliseconds, then begin anew.
    Sleep(u64),
    /// Stop.
    Stop,
    /// The event does not belong here.
    Misplaced,
}

/// Whether an attempt that ended falls back to WSS: QUIC was tried, and the agent was free to choose.
pub open spec fn falls_back(mode: TransportMode, end: CarrierEnd, cancelled: bool) -> bool {
    mode == TransportMode::Auto && !(end is Closed && cancelled)
}

/// What is known once an attempt is over: that is logged and shown, unless the agent stops.
pub open spec fn over(
    s: RuntimeView,
    t: RuntimeView,
    tray: Option<Tray>,
    end: CarrierEnd,
    cancelled: bool,
    wall: Timestamp,
) -> bool {
    if end is Closed && cancelled {
        tray is None && t == s
    } else {
        &&& tray is Some
        &&& t.events.len() > 0
        &&& line_says(t.events[0], wall, "warn"@, end_text(end), None)
        &&& status_set(
            RuntimeView { events: logged(s.events, t.events[0]), ..s },
            t,
            tray->0,
            AgentStatus::Offline,
            "连接中断，正在重试"@,
        )
    }
}

/// How the attempts move on: from `s` and `c` to `t` and `d`, with an action to take and what the
/// tray icon shows.
pub open spec fn proceeds(
    s: RuntimeView,
    t: RuntimeView,
    c: Reconnector,
    d: Reconnector,
    event: ReconnectEvent,
    action: ReconnectAction,
    tray: Option<Tray>,
    wall: Timestamp,
    jitter: u64,
) -> bool {
    match (c.at, event) {
        (Attempt::Idle, ReconnectEvent::Begin { cancelled }) => if cancelled {
            t == s && tray is None && action is Stop && d == (Reconnector {
                at: Attempt::Stopped,
                ..c
            })
        } else {
            match s.config {
                Some(config) => t == s && tray is None && action == ReconnectAction::LoadToken(
                    config.installation_id,
                ) && d == (Reconnector { at: Attempt::Loading(config), ..c }),
                None => {
                    &&& tray is Some
                    &&& status_set(
                        s,
                        t,
                        tray->0,
                        AgentStatus::Unconfigured,
                        "尚未连接服务器"@,
                    )
                    &&& action is Stop
                    &&& d == (Reconnector { at: Attempt::Stopped, ..c })
                },
            }
        },
        (Attempt::Loading(config), ReconnectEvent::Token(token)) => {
            &&& tray is Some
            &&& status_set(
                s,
                t,
                tray->0,
                AgentStatus::Connecting,
                "正在建立加密控制通道"@,
            )
            &&& action matches ReconnectAction::Run { config: used, token: shown, transport }
            &&& used == config
            &&& shown == token
            &&& transport == first_of(config.transport_mode)
            &&& d == (Reconnector { at: Attempt::First(config, token), ..c })
        },
        (Attempt::Loading(_), ReconnectEvent::NoToken(error)) => {
            &&& tray is Some
            &&& t.events.len() > 0
            &&& line_says(t.events[0], wall, "error"@, error@, None)
            &&& status_set(
                RuntimeView { events: logged(s.events, t.events[0]), ..s },
                t,
                tray->0,
                AgentStatus::Error,
                "无法读取设备令牌"@,
            )
            &&& action is Stop
            &&& d == (Reconnector { at: Attempt::Stopped, ..c })
        },
        (Attempt::First(config, token), ReconnectEvent::Ended { end, cancelled }) => if falls_back(
            config.transport_mode,
            end,
            cancelled,
        ) {
            &&& tray is None
            &&& action == (ReconnectAction::Run { config, token, transport: ActiveTransport::Wss })
            &&& d == (Reconnector { at: Attempt::Fallback(config, token), ..c })
            &&& match end {
                CarrierEnd::Closed => t == s,
                CarrierEnd::Failed(error) => {
                    &&& t.events.len() > 0
                    &&& line_says(
                        t.events[0],
                        wall,
                        "warn"@,
                        fallback_reason(error@) + "，已回退 WSS"@,
                        None,
                    )
                    &&& opt_text(t.transport_fallback_reason) == Some(fallback_reason(error@))
                    &&& t == (RuntimeView {
                        events: logged(s.events, t.events[0]),
                        active_transport: Some(ActiveTransport::Wss),
                        transport_fallback_reason: t.transport_fallback_reason,
                        ..s
                    })
                },
            }
        } else {
            ended(s, t, c, d, end, cancelled, action, tray, wall, jitter)
        },
        (Attempt::Fallback(_, _), ReconnectEvent::Ended { end, cancelled }) => ended(
            s,
            t,
            c,
            d,
            end,
            cancelled,
            action,
            tray,
            wall,
            jitter,
        ),
        _ => t == s && d == c && tray is None && action is Misplaced,
    }
}

/// How the attempts move on from one that is over.
pub open spec fn ended(
    s: RuntimeView,
    t: RuntimeView,
    c: Reconnector,
    d: Reconnector,
    end: CarrierEnd,
    cancelled: bool,
    action: ReconnectAction,
    tray: Option<Tray>,
    wall: Timestamp,
    jitter: u64,
) -> bool {
    &&& over(s, t, tray, end, cancelled, wall)
    &&& if end is Closed && cancelled {
        action is Stop && d == (Reconnector { at: Attempt::Stopped, ..c })
    } else {
        &&& action matches ReconnectAction::Sleep(millis)
        &&& millis == delay_millis(next_attempt(c.attempt), jitter)
        &&& d == (Reconnector { attempt: next_attempt(c.attempt), at: Attempt::Idle })
    }
}

impl Reconnector {
    /// An agent that has yet to try.
    pub fn new() -> (r: Reconnector)
        ensures
            r == (Reconnector { attempt: 0, at: Attempt::Idle }),
    {
        Reconnector { attempt: 0, at: Attempt::Idle }
    }

    /// Moves on from an attempt that is over.
    fn finish_attempt(
        self,
        state: &mut RuntimeState,
        end: CarrierEnd,
        cancelled: bool,
        wall: Timestamp,
        jitter: u64,
    ) -> (r: (Reconnector, ReconnectAction, Option<Tray>))
        requires
            old(state).wf(),
            jitter <= 1000,
        ensures
            final(state).wf(),
            ended(
                old(state)@,
                final(state)@,
                self,
                r.0,
                end,
                cancelled,
                r.1,
                r.2,
                wall,
                jitter,
            ),
    {
        match carrier_ended(state, wall, end, cancelled) {
            None => (
                Reconnector { attempt: self.attempt, at: Attempt::Stopped },
                ReconnectAction::Stop,
                None,
            ),
            Some(tray) => {
                let (attempt, millis) = backoff(self.attempt, jitter);
                (
                    Reconnector { attempt, at: Attempt::Idle },
                    ReconnectAction::Sleep(millis),
                    Some(tray),
                )
            },
        }
    }

    /// Moves the attempts on; up to a second of the wait is given.
    pub fn next_as(
        self,
        state: &mut RuntimeState,
        event: ReconnectEvent,
        wall: Timestamp,
        jitter: u64,
    ) -> (r: (Reconnector, ReconnectAction, Option<Tray>))
        requires
            old(state).wf(),
            jitter <= 1000,
        ensures
            final(state).wf(),
            proceeds(
                old(state)@,
                final(state)@,
                self,
                r.0,
                event,
                r.1,
                r.2,
                wall,
                jitter,
            ),
    {
        let attempt: u32 = self.attempt;
        match self.at {
            Attempt::Idle => match event {
                ReconnectEvent::Begin { cancelled } => {
                    if cancelled {
                        return (
                            Reconnector { attempt, at: Attempt::Stopped },
                            ReconnectAction::Stop,
                            None,
                        );
                    }
                    match begin_attempt(state) {
                        Ok(config) => {
                            let id: u128 = config.installation_id;
                            (
                                Reconnector { attempt, at: Attempt::Loading(config) },
                                ReconnectAction::LoadToken(id),
                                None,
                            )
                        },
                        Err(tray) => (
                            Reconnector { attempt, at: Attempt::Stopped },
                            ReconnectAction::Stop,
                            Some(tray),
                        ),
                    }
                },
                _ => (
                    Reconnector { attempt, at: Attempt::Idle },
                    ReconnectAction::Misplaced,
                    None,
                ),
            },
            Attempt::Loading(config) => match event {
                ReconnectEvent::Token(token) => {
                    let tray = connecting(state);
                    let transport = first_carrier(config.transport_mode);
                    (
                        Reconnector {
                            attempt,
                            at: Attempt::First(config.copied(), token.clone()),
                        },
                        ReconnectAction::Run { config, token, transport },
                        Some(tray),
                    )
                },
                ReconnectEvent::NoToken(error) => {
                    let tray = token_failed(state, wall, error.as_str());
                    (
                        Reconnector { attempt, at: Attempt::Stopped },
                        ReconnectAction::Stop,
                        Some(tray),
                    )
                },
                _ => (
                    Reconnector { attempt, at: Attempt::Loading(config) },
                    ReconnectAction::Misplaced,
                    None,
                ),
            },
            Attempt::First(config, token) => match event {
                ReconnectEvent::Ended { end, cancelled } => {
                    let next = run_carrier(
                        state,
                        config.transport_mode,
                        &end,
                        cancelled,
                        wall,
                    );
                    match next {
                        Some(transport) => (
                            Reconnector {
                                attempt,
                                at: Attempt::Fallback(config.copied(), token.clone()),
                            },
                            ReconnectAction::Run { config, token, transport },
                            None,
                        ),
                        None => {
                            let here = Reconnector { attempt, at: Attempt::First(config, token) };
                            here.finish_attempt(state, end, cancelled, wall, jitter)
                        },
                    }
                },
                _ => (
                    Reconnector { attempt, at: Attempt::First(config, token) },
                    ReconnectAction::Misplaced,
                    None,
                ),
            },
            Attempt::Fallback(config, token) => match event {
                ReconnectEvent::Ended { end, cancelled } => {
                    let here = Reconnector { attempt, at: Attempt::Fallback(config, token) };
                    here.finish_attempt(state, end, cancelled, wall, jitter)
                },
                _ => (
                    Reconnector { attempt, at: Attempt::Fallback(config, token) },
                    ReconnectAction::Misplaced,
                    None,
                ),
            },
            Attempt::Stopped => (
                Reconnector { attempt, at: Attempt::Stopped },
                ReconnectAction::Misplaced,
                None,
            ),
        }
    }

    /// Moves the attempts on; up to a second of the wait is left to chance.
    pub fn next(self, state: &mut RuntimeState, event: ReconnectEvent, wall: Timestamp) -> (r: (
        Reconnector,
        ReconnectAction,
        Option<Tray>,
    ))
        requires
            old(state).wf(),
        ensures
            final(state).wf(),
            exists|jitter: u64|
                jitter <= 1000 && #[trigger] proceeds(
                    old(state)@,
                    final(state)@,
                    self,
                    r.0,
                    event,
                    r.1,
                    r.2,
                    wall,
                    jitter,
                ),
    {
        let jitter = crate::agent::random_jitter();
        self.next_as(state, event, wall, jitter)
    }
}

/// An agent that is free to choose tries QUIC, then WSS, and then waits; one that is not tries its
/// own carrier alone.
pub proof fn law_fallback_follows_quic(
    s: RuntimeView,
    t: RuntimeView,
    c: Reconnector,
    d: Reconnector,
    end: CarrierEnd,
    cancelled: bool,
    action: ReconnectAction,
    tray: Option<Tray>,
    wall: Timestamp,
    jitter: u64,
    config: AgentConfig,
    token: String,
)
    requires
        c.at == Attempt::First(config, token),
        proceeds(
            s,
            t,
            c,
            d,
            ReconnectEvent::Ended { end, cancelled },
            action,
            tray,
            wall,
            jitter,
        ),
    ensures
        action is Run ==> config.transport_mode == TransportMode::Auto && action->transport
            == ActiveTransport::Wss,
        config.transport_mode != TransportMode::Auto ==> action is Stop || action is Sleep,
        config.transport_mode == TransportMode::Auto && end is Failed ==> action is Run,
{
}

/// An agent that was not told to stop never stops for a carrier that ended: it tries again in at most
/// sixty-one seconds.
pub proof fn law_agents_try_again(
    s: RuntimeView,
    t: RuntimeView,
    c: Reconnector,
    d: Reconnector,
    end: CarrierEnd,
    action: ReconnectAction,
    tray: Option<Tray>,
    wall: Timestamp,
    jitter: u64,
)
    requires
        c.at is First || c.at is Fallback,
        jitter <= 1000,
        proceeds(
            s,
            t,
            c,
            d,
            ReconnectEvent::Ended { end, cancelled: false },
            action,
            tray,
            wall,
            jitter,
        ),
    ensures
        match action {
            ReconnectAction::Run { .. } => d.at is Fallback,
            ReconnectAction::Sleep(millis) => 2000 <= millis <= 61000 && d.at is Idle,
            _ => false,
        },
{
    crate::agent::law_backoff_is_bounded(c.attempt, jitter);
}

/// Once its token is there, an agent uses the carrier that its mode names: QUIC where it is free to
/// choose or told so, KCP and WSS where it is told so; with the settings and the token that it read.
pub proof fn law_modes_name_their_carriers(
    s: RuntimeView,
    t: RuntimeView,
    c: Reconnector,
    d: Reconnector,
    config: AgentConfig,
    token: String,
    action: ReconnectAction,
    tray: Option<Tray>,
    wall: Timestamp,
    jitter: u64,
)
    requires
        c.at == Attempt::Loading(config),
        proceeds(s, t, c, d, ReconnectEvent::Token(token), action, tray, wall, jitter),
    ensures
        action is Run,
        action->Run_config == config,
        action->Run_token == token,
        config.transport_mode == TransportMode::Auto ==> action->transport == ActiveTransport::Quic,
        config.transport_mode == TransportMode::Quic ==> action->transport == ActiveTransport::Quic,
        config.transport_mode == TransportMode::Kcp ==> action->transport == ActiveTransport::Kcp,
        config.transport_mode == TransportMode::Wss ==> action->transport == ActiveTransport::Wss,
        d.at == Attempt::First(config, token),
        d.attempt == c.attempt,
        t.status == AgentStatus::Connecting,
{
}

/// An agent with settings begins by reading the token of its own installation; one without, and one
/// that is told to stop, stops.
pub proof fn law_attempts_begin_with_the_token(
    s: RuntimeView,
    t: RuntimeView,
    c: Reconnector,
    d: Reconnector,
    cancelled: bool,
    action: ReconnectAction,
    tray: Option<Tray>,
    wall: Timestamp,
    jitter: u64,
)
    requires
        c.at is Idle,
        proceeds(s, t, c, d, ReconnectEvent::Begin { cancelled }, action, tray, wall, jitter),
    ensures
        cancelled || s.config is None ==> action is Stop && d.at is Stopped,
        !cancelled && s.config is Some ==> action == ReconnectAction::LoadToken(
            s.config->0.installation_id,
        ) && d.at == Attempt::Loading(s.config->0),
        !cancelled && s.config is None ==> t.status == AgentStatus::Unconfigured,
        d.attempt == c.attempt,
{
}

/// An agent without its token stops in the state of an error, and logs why.
pub proof fn law_without_a_token_agents_stop(
    s: RuntimeView,
    t: RuntimeView,
    c: Reconnector,
    d: Reconnector,
    error: String,
    action: ReconnectAction,
    tray: Option<Tray>,
    wall: Timestamp,
    jitter: u64,
)
    requires
        c.at is Loading,
        proceeds(s, t, c, d, ReconnectEvent::NoToken(error), action, tray, wall, jitter),
    ensures
        action is Stop && d.at is Stopped,
        t.status == AgentStatus::Error,
        t.events.len() > 0 && t.events[0].message@ == error@ && t.events[0].level@ == "error"@,
{
}

/// An attempt that falls back keeps its settings and its token; one that is over makes the agent wait
/// longer the more there were before it: two seconds after the first, then four, eight, sixteen and
/// thirty-two, and a minute from then on, with up to a second more. A carrier that ended because the
/// agent was told to stop is not tried again.
pub proof fn law_attempts_wait_longer(
    s: RuntimeView,
    t: RuntimeView,
    c: Reconnector,
    d: Reconnector,
    end: CarrierEnd,
    cancelled: bool,
    action: ReconnectAction,
    tray: Option<Tray>,
    wall: Timestamp,
    jitter: u64,
)
    requires
        c.at is First || c.at is Fallback,
        proceeds(s, t, c, d, ReconnectEvent::Ended { end, cancelled }, action, tray, wall, jitter),
    ensures
        action matches ReconnectAction::Run { config, token, .. } ==> c.at == Attempt::First(
            config,
            token,
        ) && d.at == Attempt::Fallback(config, token),
        cancelled && end is Closed ==> action is Stop && d.at is Stopped && t == s,
        c.at is Fallback && !(cancelled && end is Closed) ==> action is Sleep,
        action matches ReconnectAction::Sleep(millis) ==> {
            &&& c.attempt == 0 ==> millis == 2000 + jitter
            &&& c.attempt == 1 ==> millis == 4000 + jitter
            &&& c.attempt == 2 ==> millis == 8000 + jitter
            &&& c.attempt == 3 ==> millis == 16000 + jitter
            &&& c.attempt == 4 ==> millis == 32000 + jitter
            &&& c.attempt >= 5 ==> millis == 60000 + jitter
            &&& c.attempt < 8 ==> d.attempt == c.attempt + 1
            &&& c.attempt >= 8 ==> d.attempt == 8
            &&& d.at is Idle
            &&& t.status == AgentStatus::Offline
        },
{
    vstd::arithmetic::power2::lemma2_to64();
    if c.attempt >= 5 {
        crate::agent::law_backoff_settles(next_attempt(c.attempt));
    }
}

/// What an agent shows at each point: that it is not set up, that it connects, that it has no token, or
/// that it lost its carrier and tries again. A QUIC carrier that failed is logged with its error before
/// the agent goes on over a WebSocket.
pub proof fn law_attempts_are_shown(
    s: RuntimeView,
    t: RuntimeView,
    c: Reconnector,
    d: Reconnector,
    event: ReconnectEvent,
    action: ReconnectAction,
    tray: Option<Tray>,
    wall: Timestamp,
    jitter: u64,
)
    requires
        proceeds(s, t, c, d, event, action, tray, wall, jitter),
    ensures
        c.at is Idle && s.config is None && event == (ReconnectEvent::Begin { cancelled: false })
            ==> t.status_message == "尚未连接服务器"@ && t.status == AgentStatus::Unconfigured,
        c.at is Loading && event is Token ==> t.status == AgentStatus::Connecting
            && t.status_message == "正在建立加密控制通道"@ && tray is Some,
        c.at is Loading && event is NoToken ==> t.status_message == "无法读取设备令牌"@,
        c.at is Fallback ==> (event matches ReconnectEvent::Ended { end, cancelled } ==> (
        end is Failed || !cancelled ==> t.status == AgentStatus::Offline && t.status_message
            == "连接中断，正在重试"@ && tray is Some && t.events.len() > 0)),
        c.at is First ==> (event matches ReconnectEvent::Ended { end, cancelled } ==> (
        c.at->First_0.transport_mode == TransportMode::Auto ==> (
        end matches CarrierEnd::Failed(error) ==> t.events.len() > 0 && t.events[0].message@
            == "QUIC 不可用："@ + error@ + "，已回退 WSS"@ && opt_text(t.transport_fallback_reason)
            == Some("QUIC 不可用："@ + error@) && t.active_transport == Some(
            ActiveTransport::Wss,
        )))),
{
}

} // verus!
