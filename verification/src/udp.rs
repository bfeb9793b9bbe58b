//! The datagrams of a UDP tunnel: which session they belong to, and when sessions end.
use crate::clock::{instant_after, NANOS};
use crate::net::all_valid;
use crate::protocol::{Tunnel, TunnelView};
use crate::readback::law_socket_addresses_are_read_back;
use crate::registry::{key_views, Registry};
use crate::socket::{socket_string, socket_text, SocketAddr};
use crate::state::{dated, inc, AppState, AppView, Counters, InboundCarrierFrame};
use crate::tunnels::{admits, source_allowed};
use crate::wire::{encode_carrier_frame, frame_bytes, CARRIER_FRAME_DATAGRAM};
use vstd::prelude::*;

verus! {

/// The datagrams of one source.
#[derive(Debug, Clone, Copy, PartialEq, Eq, Structural)]
pub struct Session {
    pub id: u128,
    pub last_seen: u128,
}

/// The sessions of a UDP tunnel, each under the text of its source.
pub struct UdpListener {
    pub sessions: Registry<String, Session>,
}

/// What to do about a datagram.
#[derive(Debug, Clone, Copy, PartialEq, Eq, Structural)]
pub enum UdpStep {
    /// Drop it: the source is not allowed.
    Drop,
    /// Send it on in a session.
    Forward(u128),
    /// Open a session for its source first.
    Open,
}

/// Whether a session has been silent for too long.
pub open spec fn silent(session: Session, now: u128, timeout: u64) -> bool {
    instant_after(session.last_seen, timeout) <= now || timeout == 0
}

/// The sessions that are still heard from.
pub open spec fn heard(
    sessions: Map<Seq<char>, Session>,
    now: u128,
    timeout: u64,
) -> Map<Seq<char>, Session> {
    sessions.restrict(
        Set::new(|k: Seq<char>| sessions.contains_key(k) && !silent(sessions[k], now, timeout)),
    )
}

/// The identifiers of some of the sessions.
pub open spec fn ids_of(sessions: Map<Seq<char>, Session>, keys: Set<Seq<char>>) -> Set<u128> {
    Set::new(
        |id: u128|
            exists|k: Seq<char>|
                keys.contains(k) && #[trigger] sessions.contains_key(k) && sessions[k].id == id,
    )
}

/// The sources of the sessions that have been silent for too long.
pub open spec fn silent_keys(sessions: Map<Seq<char>, Session>, now: u128, timeout: u64) -> Set<
    Seq<char>,
> {
    Set::new(|k: Seq<char>| sessions.contains_key(k) && silent(sessions[k], now, timeout))
}

/// Whether a session has been silent for too long.
fn is_silent(session: &Session, now: u128, timeout: u64) -> (r: bool)
    ensures
        r == silent(*session, now, timeout),
{
    let span: u128 = timeout as u128 * NANOS;
    if now < session.last_seen {
        timeout == 0
    } else {
        now - session.last_seen >= span
    }
}

impl UdpListener {
    pub open spec fn wf(&self) -> bool {
        self.sessions.wf()
    }

    pub open spec fn view(&self) -> Map<Seq<char>, Session> {
        self.sessions@
    }

    /// A listener without sessions.
    pub fn new() -> (r: Self)
        ensures
            r.wf(),
            r@ == Map::<Seq<char>, Session>::empty(),
    {
        UdpListener { sessions: Registry::new() }
    }

    /// What to do about a datagram from a source. A session that is known is heard from.
    pub fn datagram(
        &mut self,
        state: &mut AppState,
        tunnel: &Tunnel,
        peer: SocketAddr,
        now: u128,
    ) -> (r: UdpStep)
        requires
            old(self).wf(),
            old(state).wf(),
            all_valid(tunnel.allowed_cidrs@),
        ensures
            final(self).wf(),
            final(state).wf(),
            final(state)@ == (AppView {
                counters: if admits(tunnel@, peer.ip) {
                    old(state)@.counters
                } else {
                    Counters {
                        rejected: inc(old(state)@.counters.rejected),
                        ..old(state)@.counters
                    }
                },
                ..old(state)@
            }),
            (final(self)@, r) == received(old(self)@, tunnel@, peer, now),
    {
        if !source_allowed(tunnel, peer.ip) {
            state.counters.add_rejected();
            return UdpStep::Drop;
        }
        let key = socket_string(peer);
        let known: Option<u128> = match self.sessions.get(&key) {
            Some(session) => Some(session.id),
            None => None,
        };
        match known {
            Some(id) => {
                self.sessions.insert(key, Session { id, last_seen: now });
                UdpStep::Forward(id)
            },
            None => UdpStep::Open,
        }
    }

    /// Remembers the session that was opened for a source.
    pub fn session_opened(&mut self, peer: SocketAddr, id: u128, now: u128)
        requires
            old(self).wf(),
        ensures
            final(self).wf(),
            final(self)@ == old(self)@.insert(socket_text(peer), Session { id, last_seen: now }),
            final(self)@ == with_session(old(self)@, peer, id, now),
    {
        self.sessions.insert(socket_string(peer), Session { id, last_seen: now });
    }

    /// Takes the outcome of sending a datagram of so many bytes on: a session whose carrier is gone
    /// is forgotten, else the bytes are counted.
    pub fn forwarded(&mut self, state: &mut AppState, peer: SocketAddr, sent: bool, count: u64)
        requires
            old(self).wf(),
            old(state).wf(),
        ensures
            final(self).wf(),
            final(state).wf(),
            final(self)@ == (if sent {
                old(self)@
            } else {
                old(self)@.remove(socket_text(peer))
            }),
            final(state)@ == (AppView {
                counters: if sent {
                    Counters {
                        bytes_down: old(state)@.counters.bytes_down.wrapping_add(count),
                        ..old(state)@.counters
                    }
                } else {
                    old(state)@.counters
                },
                ..old(state)@
            }),
    {
        if sent {
            state.counters.add_down(count);
        } else {
            self.sessions.remove(&socket_string(peer));
        }
    }

    /// Forgets the sessions that have been silent for too long, with their streams.
    pub fn sweep(&mut self, state: &mut AppState, now: u128)
        requires
            old(self).wf(),
            old(state).wf(),
        ensures
            final(self).wf(),
            final(state).wf(),
            final(self)@ == heard(old(self)@, now, old(state)@.config.udp_session_timeout),
            silent_keys(old(self)@, now, old(state)@.config.udp_session_timeout).finite(),
            final(state)@ == swept(old(state)@, old(self)@, now),
    {
        let timeout: u64 = state.config.udp_session_timeout;
        let ghost all = self@;
        let ghost list = self.sessions.key_list();
        let ghost before = state@;
        proof {
            self.sessions.lemma_key_list();
        }
        let keys = self.sessions.keys();
        let mut i: usize = 0;
        let ghost mut gone: Set<Seq<char>> = Set::empty();
        let ghost mut ended: u64 = before.counters.active_udp;
        assert(before.streams.remove_keys(ids_of(all, gone)) =~= before.streams) by {
            assert(ids_of(all, gone) =~= Set::<u128>::empty());
        }
        assert(before.active.remove_keys(ids_of(all, gone)) =~= before.active) by {
            assert(ids_of(all, gone) =~= Set::<u128>::empty());
        }
        while i < keys.len()
            invariant
                i <= keys@.len(),
                self.wf(),
                state.wf(),
                timeout == before.config.udp_session_timeout,
                key_views(keys@) == list,
                list.no_duplicates(),
                forall|k: Seq<char>| all.contains_key(k) <==> list.contains(k),
                gone.finite(),
                forall|k: Seq<char>| #[trigger]
                    gone.contains(k) <==> all.contains_key(k) && silent(all[k], now, timeout)
                        && exists|j: int| 0 <= j < i && #[trigger] list[j] == k,
                self@ == all.remove_keys(gone),
                state@ == (AppView {
                    streams: before.streams.remove_keys(ids_of(all, gone)),
                    active: before.active.remove_keys(ids_of(all, gone)),
                    counters: Counters { active_udp: ended, ..before.counters },
                    ..before
                }),
                ended == less(before.counters.active_udp, gone.len()),
            decreases keys@.len() - i,
        {
            let ghost k = list[i as int];
            assert(key_views(keys@)[i as int] == k);
            assert(list.contains(k));
            assert(!gone.contains(k)) by {
                if gone.contains(k) {
                    let j = choose|j: int| 0 <= j < i && #[trigger] list[j] == k;
                    assert(list[j] == list[i as int]);
                }
            }
            let session: Option<Session> = match self.sessions.get(&keys[i]) {
                Some(session) => Some(*session),
                None => None,
            };
            let ghost left = gone;
            if let Some(session) = session {
                assert(session == all[k]);
                if is_silent(&session, now, timeout) {
                    self.sessions.remove(&keys[i]);
                    state.streams.remove(&session.id);
                    state.active.remove(&session.id);
                    state.counters.active_udp = state.counters.active_udp.wrapping_sub(1);
                    proof {
                        gone = gone.insert(k);
                        ended = state.counters.active_udp;
                        lemma_less(before.counters.active_udp, left.len());
                        assert(ids_of(all, gone) =~= ids_of(all, left).insert(session.id)) by {
                            assert forall|id: u128|
                                ids_of(all, gone).contains(id) <==> ids_of(all, left).insert(
                                    session.id,
                                ).contains(id) by {
                                if ids_of(all, left).contains(id) {
                                    let x = choose|x: Seq<char>|
                                        left.contains(x) && #[trigger] all.contains_key(x)
                                            && all[x].id == id;
                                    assert(gone.contains(x) && all.contains_key(x));
                                }
                                if id == session.id {
                                    assert(gone.contains(k) && all.contains_key(k));
                                }
                            }
                        }
                        assert(state.streams@ =~= before.streams.remove_keys(ids_of(all, gone)));
                        assert(state.active@ =~= before.active.remove_keys(ids_of(all, gone)));
                        assert(self@ =~= all.remove_keys(gone));
                        assert(dated(state.active@));
                    }
                }
            }
            assert forall|x: Seq<char>| #[trigger]
                gone.contains(x) <==> all.contains_key(x) && silent(all[x], now, timeout)
                    && exists|j: int| 0 <= j < i + 1 && #[trigger] list[j] == x by {
                if left.contains(x) {
                    let j = choose|j: int| 0 <= j < i && #[trigger] list[j] == x;
                    assert(list[j] == x);
                }
                if x == k {
                    assert(list[i as int] == x);
                }
            }
            i += 1;
        }
        proof {
            assert(gone =~= silent_keys(all, now, timeout)) by {
                assert forall|x: Seq<char>|
                    silent_keys(all, now, timeout).contains(x) implies gone.contains(x) by {
                    assert(list.contains(x));
                    let j = list.index_of(x);
                    assert(list[j] == x);
                }
            }
            assert(self@ =~= heard(all, now, timeout));
        }
    }

    /// Forgets the streams of all sessions when the listener stops.
    pub fn stop(&self, state: &mut AppState)
        requires
            self.wf(),
            old(state).wf(),
        ensures
            final(state).wf(),
            final(state)@ == (AppView {
                streams: old(state)@.streams.remove_keys(ids_of(self@, self@.dom())),
                active: old(state)@.active.remove_keys(ids_of(self@, self@.dom())),
                ..old(state)@
            }),
    {
        let ghost all = self@;
        let ghost list = self.sessions.key_list();
        let ghost before = state@;
        proof {
            self.sessions.lemma_key_list();
        }
        let keys = self.sessions.keys();
        let mut i: usize = 0;
        let ghost mut gone: Set<Seq<char>> = Set::empty();
        assert(ids_of(all, gone) =~= Set::<u128>::empty());
        assert(before.streams.remove_keys(ids_of(all, gone)) =~= before.streams);
        assert(before.active.remove_keys(ids_of(all, gone)) =~= before.active);
        while i < keys.len()
            invariant
                i <= keys@.len(),
                self.wf(),
                state.wf(),
                all == self@,
                key_views(keys@) == list,
                forall|k: Seq<char>| all.contains_key(k) <==> list.contains(k),
                forall|k: Seq<char>| #[trigger]
                    gone.contains(k) <==> exists|j: int| 0 <= j < i && #[trigger] list[j] == k,
                state@ == (AppView {
                    streams: before.streams.remove_keys(ids_of(all, gone)),
                    active: before.active.remove_keys(ids_of(all, gone)),
                    ..before
                }),
            decreases keys@.len() - i,
        {
            let ghost k = list[i as int];
            let ghost left = gone;
            assert(key_views(keys@)[i as int] == k);
            assert(list.contains(k));
            if let Some(session) = self.sessions.get(&keys[i]) {
                state.streams.remove(&session.id);
                state.active.remove(&session.id);
                proof {
                    gone = gone.insert(k);
                    assert(ids_of(all, gone) =~= ids_of(all, left).insert(session.id)) by {
                        assert forall|id: u128|
                            ids_of(all, gone).contains(id) <==> ids_of(all, left).insert(
                                session.id,
                            ).contains(id) by {
                            if ids_of(all, left).contains(id) {
                                let x = choose|x: Seq<char>|
                                    left.contains(x) && #[trigger] all.contains_key(x) && all[x].id
                                        == id;
                                assert(gone.contains(x) && all.contains_key(x));
                            }
                            if id == session.id {
                                assert(gone.contains(k) && all.contains_key(k));
                            }
                        }
                    }
                    assert(state.streams@ =~= before.streams.remove_keys(ids_of(all, gone)));
                    assert(state.active@ =~= before.active.remove_keys(ids_of(all, gone)));
                    assert(dated(state.active@));
                }
            }
            assert forall|x: Seq<char>| #[trigger]
                gone.contains(x) <==> exists|j: int| 0 <= j < i + 1 && #[trigger] list[j] == x by {
                if left.contains(x) {
                    let j = choose|j: int| 0 <= j < i && #[trigger] list[j] == x;
                    assert(list[j] == x);
                }
                if x == k {
                    assert(list[i as int] == x);
                }
            }
            i += 1;
        }
        proof {
            assert(gone =~= all.dom()) by {
                assert forall|x: Seq<char>| all.dom().contains(x) implies gone.contains(x) by {
                    assert(list.contains(x));
                    let j = list.index_of(x);
                    assert(list[j] == x);
                }
                assert forall|x: Seq<char>| gone.contains(x) implies all.dom().contains(x) by {
                    let j = choose|j: int| 0 <= j < i && #[trigger] list[j] == x;
                    assert(list.contains(list[j]));
                }
            }
        }
    }
}

/// A counter that went down so many times, through zero where need be.
pub open spec fn less(n: u64, times: nat) -> u64 {
    ((n - times) % 0x1_0000_0000_0000_0000) as u64
}

proof fn lemma_less(n: u64, times: nat)
    ensures
        less(n, times + 1) == less(n, times).wrapping_sub(1),
{
}

/// What a sweep leaves of what the relay knows.
pub open spec fn swept(s: AppView, sessions: Map<Seq<char>, Session>, now: u128) -> AppView {
    let gone = silent_keys(sessions, now, s.config.udp_session_timeout);
    AppView {
        streams: s.streams.remove_keys(ids_of(sessions, gone)),
        active: s.active.remove_keys(ids_of(sessions, gone)),
        counters: Counters {
            active_udp: less(s.counters.active_udp, gone.len()),
            ..s.counters
        },
        ..s
    }
}

/// What a datagram leaves of the sessions, and what to do about it.
pub open spec fn received(
    sessions: Map<Seq<char>, Session>,
    t: TunnelView,
    peer: SocketAddr,
    now: u128,
) -> (Map<Seq<char>, Session>, UdpStep) {
    let key = socket_text(peer);
    if !admits(t, peer.ip) {
        (sessions, UdpStep::Drop)
    } else if sessions.contains_key(key) {
        (
            sessions.insert(key, Session { last_seen: now, ..sessions[key] }),
            UdpStep::Forward(sessions[key].id),
        )
    } else {
        (sessions, UdpStep::Open)
    }
}

/// Counts a session that could not be opened.
pub fn open_failed(state: &mut AppState)
    requires
        old(state).wf(),
    ensures
        final(state).wf(),
        final(state)@ == (AppView {
            counters: Counters {
                failed: inc(old(state)@.counters.failed),
                ..old(state)@.counters
            },
            ..old(state)@
        }),
{
    state.counters.add_failed();
}

/// The frame that carries a datagram, and the carrier to send it on. Nothing where the agent is
/// away.
pub fn forward(state: &AppState, tunnel: &Tunnel, session_id: u128, bytes: &[u8]) -> (r: Option<
    (u64, Vec<u8>),
>)
    requires
        state.wf(),
    ensures
        r is Some <==> state@.agents.contains_key(tunnel.agent_id),
        r matches Some((channel, frame)) ==> channel == state@.agents[tunnel.agent_id].channel
            && frame@ == frame_bytes(CARRIER_FRAME_DATAGRAM, session_id, bytes@),
        passes_on(r, state@, tunnel.agent_id, session_id, bytes@),
{
    match state.agents.get(&tunnel.agent_id) {
        Some(peer) => Some(
            (peer.channel, encode_carrier_frame(CARRIER_FRAME_DATAGRAM, session_id, bytes)),
        ),
        None => None,
    }
}

/// The datagram that a frame from the agent sends back to the source.
pub fn reply(frame: InboundCarrierFrame) -> (r: Option<Vec<u8>>)
    ensures
        r == (if frame.kind == CARRIER_FRAME_DATAGRAM {
            Some(frame.payload)
        } else {
            None
        }),
        r == reply_of(frame),
{
    if frame.kind == CARRIER_FRAME_DATAGRAM {
        Some(frame.payload)
    } else {
        None
    }
}

/// Counts the bytes of a datagram that went back to its source.
pub fn replied(state: &mut AppState, count: u64)
    requires
        old(state).wf(),
    ensures
        final(state).wf(),
        final(state)@ == (AppView {
            counters: Counters {
                bytes_up: old(state)@.counters.bytes_up.wrapping_add(count),
                ..old(state)@.counters
            },
            ..old(state)@
        }),
{
    state.counters.add_up(count);
}

/// A source that is not allowed neither opens a session nor keeps one alive.
pub proof fn law_strangers_leave_no_trace(
    sessions: Map<Seq<char>, Session>,
    t: TunnelView,
    peer: SocketAddr,
    now: u128,
)
    requires
        !admits(t, peer.ip),
    ensures
        received(sessions, t, peer, now) == (sessions, UdpStep::Drop),
{
}

/// The datagrams of a source leave the sessions of all others alone.
pub proof fn law_sources_have_their_own_sessions(
    sessions: Map<Seq<char>, Session>,
    t: TunnelView,
    peer: SocketAddr,
    other: SocketAddr,
    now: u128,
)
    requires
        peer.wf(),
        other.wf(),
        peer != other,
    ensures
        ({
            let after = received(sessions, t, peer, now).0;
            &&& after.contains_key(socket_text(other)) == sessions.contains_key(socket_text(other))
            &&& sessions.contains_key(socket_text(other)) ==> after[socket_text(other)]
                == sessions[socket_text(other)]
        }),
{
    law_socket_addresses_are_read_back(peer);
    law_socket_addresses_are_read_back(other);
}

/// The datagrams of one source share a session for as long as they keep coming in time, whatever is
/// swept between them.
pub proof fn law_sessions_last_while_heard(
    sessions: Map<Seq<char>, Session>,
    t: TunnelView,
    peer: SocketAddr,
    id: u128,
    opened: u128,
    swept_at: u128,
    later: u128,
    timeout: u64,
)
    requires
        admits(t, peer.ip),
        swept_at < instant_after(opened, timeout),
        timeout > 0,
    ensures
        received(
            heard(
                sessions.insert(socket_text(peer), Session { id, last_seen: opened }),
                swept_at,
                timeout,
            ),
            t,
            peer,
            later,
        ).1 == UdpStep::Forward(id),
{
}

/// A session that has been silent for the whole timeout is gone after a sweep.
pub proof fn law_silent_sessions_end(
    sessions: Map<Seq<char>, Session>,
    key: Seq<char>,
    now: u128,
    timeout: u64,
)
    requires
        sessions.contains_key(key),
        instant_after(sessions[key].last_seen, timeout) <= now,
    ensures
        !heard(sessions, now, timeout).contains_key(key),
{
}

/// A sweep takes the sessions that have been silent for as long as sessions may be, with their
/// streams and connections, and counts them out; what is still heard stays, as it is.
pub proof fn law_sweeps_take_the_silent(
    s: AppView,
    sessions: Map<Seq<char>, Session>,
    now: u128,
    key: Seq<char>,
    id: u128,
)
    requires
        s.config.udp_session_timeout > 0,
    ensures
        ({
            let timeout = s.config.udp_session_timeout;
            let left = heard(sessions, now, timeout);
            let t = swept(s, sessions, now);
            &&& left.contains_key(key) <==> sessions.contains_key(key) && now
                < sessions[key].last_seen + timeout * 1_000_000_000
            &&& left.contains_key(key) ==> left[key] == sessions[key]
            &&& sessions.contains_key(key) && !left.contains_key(key) ==> !t.streams.contains_key(
                sessions[key].id,
            ) && !t.active.contains_key(sessions[key].id)
            &&& (forall|k: Seq<char>| #[trigger]
                sessions.contains_key(k) && sessions[k].id == id ==> left.contains_key(k)) ==> (
            t.streams.contains_key(id) == s.streams.contains_key(id) && t.active.contains_key(id)
                == s.active.contains_key(id))
            &&& t == AppView {
                streams: t.streams,
                active: t.active,
                counters: Counters { active_udp: t.counters.active_udp, ..s.counters },
                ..s
            }
        }),
{
    let timeout = s.config.udp_session_timeout;
    let gone = silent_keys(sessions, now, timeout);
    let left = heard(sessions, now, timeout);
    if sessions.contains_key(key) && !left.contains_key(key) {
        assert(gone.contains(key));
        assert(ids_of(sessions, gone).contains(sessions[key].id));
    }
    if forall|k: Seq<char>| #[trigger]
        sessions.contains_key(k) && sessions[k].id == id ==> left.contains_key(k) {
        assert(!ids_of(sessions, gone).contains(id));
    }
}

/// As many sessions are counted out as there are silent ones.
pub proof fn law_sweeps_count_the_silent(
    s: AppView,
    sessions: Map<Seq<char>, Session>,
    now: u128,
)
    requires
        silent_keys(sessions, now, s.config.udp_session_timeout).len() <= s.counters.active_udp,
    ensures
        swept(s, sessions, now).counters.active_udp == s.counters.active_udp - silent_keys(
            sessions,
            now,
            s.config.udp_session_timeout,
        ).len(),
{
}

/// A datagram of a source that may come in goes to the session of that source, which is heard from
/// now; where there is none, one is opened first.
pub proof fn law_datagrams_go_to_their_session(
    sessions: Map<Seq<char>, Session>,
    t: TunnelView,
    peer: SocketAddr,
    now: u128,
)
    requires
        admits(t, peer.ip),
    ensures
        ({
            let key = socket_text(peer);
            let (left, step) = received(sessions, t, peer, now);
            &&& sessions.contains_key(key) ==> step == UdpStep::Forward(sessions[key].id)
                && left.contains_key(key) && left[key].id == sessions[key].id && left[key].last_seen
                == now && left.dom() == sessions.dom()
            &&& !sessions.contains_key(key) ==> step == UdpStep::Open && left == sessions
        }),
{
    let key = socket_text(peer);
    if sessions.contains_key(key) {
        assert(received(sessions, t, peer, now).0.dom() =~= sessions.dom());
    }
}

/// Whether a datagram is passed on to the agent of a tunnel, where that is there.
pub open spec fn passes_on(
    r: Option<(u64, Vec<u8>)>,
    s: AppView,
    agent_id: u128,
    session_id: u128,
    bytes: Seq<u8>,
) -> bool {
    if s.agents.contains_key(agent_id) {
        r matches Some((channel, frame)) && channel == s.agents[agent_id].channel && frame@
            == frame_bytes(CARRIER_FRAME_DATAGRAM, session_id, bytes)
    } else {
        r is None
    }
}

/// What is sent back to a source.
pub open spec fn reply_of(frame: InboundCarrierFrame) -> Option<Vec<u8>> {
    if frame.kind == CARRIER_FRAME_DATAGRAM {
        Some(frame.payload)
    } else {
        None
    }
}

/// A datagram goes to the agent of its tunnel, whole, under the identifier of its session; and what the
/// agent sends back in a datagram goes to the source as it is, and nothing else does.
pub proof fn law_datagrams_cross_whole(
    r: Option<(u64, Vec<u8>)>,
    s: AppView,
    agent_id: u128,
    session_id: u128,
    bytes: Seq<u8>,
    frame: InboundCarrierFrame,
)
    requires
        passes_on(r, s, agent_id, session_id, bytes),
    ensures
        r is Some <==> s.agents.contains_key(agent_id),
        r matches Some((channel, sent)) ==> channel == s.agents[agent_id].channel
            && crate::wire::frame_value(sent@) == Some((3u8, session_id, bytes)),
        frame.kind == 3 ==> reply_of(frame) == Some(frame.payload),
        frame.kind != 3 ==> reply_of(frame) is None,
{
    crate::wire::law_frame_round_trip(CARRIER_FRAME_DATAGRAM, session_id, bytes, Seq::empty());
}

/// The sessions with one that was opened for a source.
pub open spec fn with_session(
    sessions: Map<Seq<char>, Session>,
    peer: SocketAddr,
    id: u128,
    now: u128,
) -> Map<Seq<char>, Session> {
    sessions.insert(socket_text(peer), Session { id, last_seen: now })
}

/// The next datagram of a source goes to the session that was opened for it.
pub proof fn law_opened_sessions_are_used(
    sessions: Map<Seq<char>, Session>,
    t: TunnelView,
    peer: SocketAddr,
    id: u128,
    now: u128,
    later: u128,
)
    requires
        admits(t, peer.ip),
    ensures
        received(with_session(sessions, peer, id, now), t, peer, later).1 == UdpStep::Forward(id),
        with_session(sessions, peer, id, now)[socket_text(peer)].last_seen == now,
{
}

} // verus!
