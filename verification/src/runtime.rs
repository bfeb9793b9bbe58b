//! What an agent knows while it runs.
use crate::agent_config::AgentConfig;
use crate::protocol::{
    copy_location, copy_opt, tunnel_views, ActiveTransport, GeoLocation, MetricsSnapshot, Timestamp,
    TransportMode, Tunnel,
};
use crate::text;
use std::collections::VecDeque;
use vstd::prelude::*;

verus! {

/// How the agent is doing.
#[derive(Debug, Clone, Copy, PartialEq, Eq, Structural)]
pub enum AgentStatus {
    Unconfigured,
    Connecting,
    Online,
    Offline,
    Error,
}

/// A line of the log that the agent shows.
#[derive(Debug, Clone, PartialEq, Eq)]
pub struct EventEntry {
    pub at: Timestamp,
    pub level: String,
    pub message: String,
    pub peer_location: Option<GeoLocation>,
}

impl EventEntry {
    /// A line with the same contents.
    pub fn copied(&self) -> (r: EventEntry)
        ensures
            r == *self,
    {
        EventEntry {
            at: self.at,
            level: self.level.clone(),
            message: self.message.clone(),
            peer_location: copy_location(&self.peer_location),
        }
    }
}

/// What the agent shows of itself.
#[derive(Debug, Clone, PartialEq, Eq)]
pub struct AppSnapshot {
    pub configured: bool,
    pub server_url: Option<String>,
    pub status: AgentStatus,
    pub status_message: String,
    pub tunnels: Vec<Tunnel>,
    pub metrics: MetricsSnapshot,
    pub events: Vec<EventEntry>,
    pub active_transport: Option<ActiveTransport>,
    pub transport_fallback_reason: Option<String>,
    pub transport_mode: Option<TransportMode>,
}

/// What an agent knows while it runs. The lines of the log stand newest first.
pub struct RuntimeState {
    pub config: Option<AgentConfig>,
    pub status: AgentStatus,
    pub status_message: String,
    pub tunnels: Vec<Tunnel>,
    pub metrics: MetricsSnapshot,
    pub events: VecDeque<EventEntry>,
    pub active_transport: Option<ActiveTransport>,
    pub transport_fallback_reason: Option<String>,
}

/// What an agent knows, with lists as sequences.
#[verifier::ext_equal]
pub struct RuntimeView {
    pub config: Option<AgentConfig>,
    pub status: AgentStatus,
    pub status_message: Seq<char>,
    pub tunnels: Seq<Tunnel>,
    pub metrics: MetricsSnapshot,
    pub events: Seq<EventEntry>,
    pub active_transport: Option<ActiveTransport>,
    pub transport_fallback_reason: Option<String>,
}

/// What the tray icon shows.
#[derive(Debug, Clone, PartialEq, Eq)]
pub struct Tray {
    pub title: String,
    pub tooltip: String,
}

/// The dot that stands for a state.
pub open spec fn status_symbol(status: AgentStatus) -> Seq<char> {
    match status {
        AgentStatus::Online => "🟢"@,
        AgentStatus::Connecting => "🟡"@,
        AgentStatus::Offline => "🔴"@,
        AgentStatus::Error => "🔴"@,
        AgentStatus::Unconfigured => "⚪"@,
    }
}

/// The dot that stands for a state.
pub fn tray_status_symbol(status: AgentStatus) -> (r: &'static str)
    ensures
        r@ == status_symbol(status),
{
    match status {
        AgentStatus::Online => "🟢",
        AgentStatus::Connecting => "🟡",
        AgentStatus::Offline => "🔴",
        AgentStatus::Error => "🔴",
        AgentStatus::Unconfigured => "⚪",
    }
}

/// How many lines the log holds.
pub const MAX_EVENTS: usize = 200;

/// A log with one more line: the oldest leaves where it is full.
pub open spec fn logged(events: Seq<EventEntry>, entry: EventEntry) -> Seq<EventEntry> {
    let all = seq![entry] + events;
    if all.len() > MAX_EVENTS {
        all.take(MAX_EVENTS as int)
    } else {
        all
    }
}

impl RuntimeState {
    pub open spec fn view(&self) -> RuntimeView {
        RuntimeView {
            config: self.config,
            status: self.status,
            status_message: self.status_message@,
            tunnels: self.tunnels@,
            metrics: self.metrics,
            events: self.events@,
            active_transport: self.active_transport,
            transport_fallback_reason: self.transport_fallback_reason,
        }
    }

    /// The log is not over its limit.
    pub open spec fn wf(&self) -> bool {
        self.events@.len() <= MAX_EVENTS
    }

    /// An agent that knows nothing yet.
    pub fn new() -> (r: Self)
        ensures
            r.wf(),
            r@ == (RuntimeView {
                config: None,
                status: AgentStatus::Unconfigured,
                status_message: "尚未连接服务器"@,
                tunnels: Seq::empty(),
                metrics: MetricsSnapshot::zero(),
                events: Seq::empty(),
                active_transport: None,
                transport_fallback_reason: None,
            }),
    {
        RuntimeState {
            config: None,
            status: AgentStatus::Unconfigured,
            status_message: "尚未连接服务器".to_owned(),
            tunnels: Vec::new(),
            metrics: MetricsSnapshot::default(),
            events: VecDeque::new(),
            active_transport: None,
            transport_fallback_reason: None,
        }
    }

    /// Sets the state of the agent; hands back what the tray icon shows.
    pub fn set_status(&mut self, status: AgentStatus, message: &str) -> (r: Tray)
        requires
            old(self).wf(),
        ensures
            final(self).wf(),
            final(self)@ == (RuntimeView { status, status_message: message@, ..old(self)@ }),
            r.title@ == status_symbol(status),
            r.tooltip@ == "TunnelBridge — "@ + message@,
    {
        self.status = status;
        self.status_message = message.to_owned();
        Tray {
            title: tray_status_symbol(status).to_owned(),
            tooltip: text::join("TunnelBridge — ", message),
        }
    }

    /// Sets the carrier in use, and why it is not the one that was wanted.
    pub fn set_transport(&mut self, transport: ActiveTransport, fallback_reason: Option<String>)
        requires
            old(self).wf(),
        ensures
            final(self).wf(),
            final(self)@ == (RuntimeView {
                active_transport: Some(transport),
                transport_fallback_reason: fallback_reason,
                ..old(self)@
            }),
    {
        self.active_transport = Some(transport);
        self.transport_fallback_reason = fallback_reason;
    }

    /// Adds a line about a source to the log.
    pub fn log_with_location(
        &mut self,
        at: Timestamp,
        level: &str,
        message: &str,
        peer_location: Option<GeoLocation>,
    )
        requires
            old(self).wf(),
        ensures
            final(self).wf(),
            final(self)@.events.len() > 0,
            line_says(final(self)@.events[0], at, level@, message@, peer_location),
            final(self)@ == (RuntimeView {
                events: logged(old(self)@.events, final(self)@.events[0]),
                ..old(self)@
            }),
    {
        let entry = EventEntry {
            at,
            level: level.to_owned(),
            message: message.to_owned(),
            peer_location,
        };
        let ghost before = self.events@;
        self.events.push_front(entry);
        assert(self.events@ =~= seq![entry] + before);
        self.events.truncate(MAX_EVENTS);
        assert(self.events@ =~= logged(before, entry));
    }

    /// Adds a line to the log.
    pub fn log(&mut self, at: Timestamp, level: &str, message: &str)
        requires
            old(self).wf(),
        ensures
            final(self).wf(),
            final(self)@.events.len() > 0,
            line_says(final(self)@.events[0], at, level@, message@, None),
            final(self)@ == (RuntimeView {
                events: logged(old(self)@.events, final(self)@.events[0]),
                ..old(self)@
            }),
    {
        self.log_with_location(at, level, message, None);
    }

    /// What the agent shows of itself.
    pub fn snapshot(&self) -> (r: AppSnapshot)
        requires
            self.wf(),
        ensures
            r.configured == (self.config is Some),
            match self.config {
                Some(c) => r.server_url == Some(c.server_url) && r.transport_mode == Some(
                    c.transport_mode,
                ),
                None => r.server_url is None && r.transport_mode is None,
            },
            r.status == self.status,
            r.status_message == self.status_message,
            tunnel_views(r.tunnels@) == tunnel_views(self.tunnels@),
            r.metrics == self.metrics,
            r.events@ == self.events@,
            r.active_transport == self.active_transport,
            r.transport_fallback_reason == self.transport_fallback_reason,
            pictures(r, self@),
    {
        let mut tunnels: Vec<Tunnel> = Vec::new();
        let mut i: usize = 0;
        while i < self.tunnels.len()
            invariant
                i <= self.tunnels@.len(),
                tunnels@.len() == i,
                forall|k: int| 0 <= k < i ==> (#[trigger] tunnels@[k])@ == self.tunnels@[k]@,
            decreases self.tunnels@.len() - i,
        {
            tunnels.push(self.tunnels[i].copied());
            i += 1;
        }
        assert(tunnel_views(tunnels@) =~= tunnel_views(self.tunnels@));
        let mut events: Vec<EventEntry> = Vec::new();
        let mut k: usize = 0;
        while k < self.events.len()
            invariant
                k <= self.events@.len(),
                events@ == self.events@.take(k as int),
            decreases self.events@.len() - k,
        {
            events.push(self.events[k].copied());
            assert(events@ =~= self.events@.take(k + 1));
            k += 1;
        }
        assert(self.events@.take(k as int) =~= self.events@);
        let (server_url, transport_mode) = match &self.config {
            Some(config) => (Some(config.server_url.clone()), Some(config.transport_mode)),
            None => (None, None),
        };
        AppSnapshot {
            configured: self.config.is_some(),
            server_url,
            status: self.status,
            status_message: self.status_message.clone(),
            tunnels,
            metrics: self.metrics,
            events,
            active_transport: self.active_transport,
            transport_fallback_reason: copy_opt(&self.transport_fallback_reason),
            transport_mode,
        }
    }
}

/// Whether a line says something.
pub open spec fn line_says(
    entry: EventEntry,
    at: Timestamp,
    level: Seq<char>,
    message: Seq<char>,
    location: Option<GeoLocation>,
) -> bool {
    entry.at == at && entry.level@ == level && entry.message@ == message && entry.peer_location
        == location
}

/// A log that takes a run of lines, the last of them newest.
pub open spec fn logged_all(events: Seq<EventEntry>, entries: Seq<EventEntry>) -> Seq<EventEntry>
    decreases entries.len(),
{
    if entries.len() == 0 {
        events
    } else {
        logged(logged_all(events, entries.drop_last()), entries.last())
    }
}

/// The log holds the newest lines, newest first, and never more than two hundred.
pub proof fn law_log_keeps_the_newest(entries: Seq<EventEntry>)
    ensures
        logged_all(Seq::empty(), entries).len() == if entries.len() <= MAX_EVENTS {
            entries.len() as int
        } else {
            MAX_EVENTS as int
        },
        forall|i: int|
            0 <= i < logged_all(Seq::empty(), entries).len() ==> #[trigger] logged_all(
                Seq::empty(),
                entries,
            )[i] == entries[entries.len() - 1 - i],
    decreases entries.len(),
{
    if entries.len() > 0 {
        law_log_keeps_the_newest(entries.drop_last());
        let before = logged_all(Seq::empty(), entries.drop_last());
        let all = seq![entries.last()] + before;
        assert forall|i: int|
            0 <= i < logged_all(Seq::empty(), entries).len() implies #[trigger] logged_all(
            Seq::empty(),
            entries,
        )[i] == entries[entries.len() - 1 - i] by {
            if i > 0 {
                assert(all[i] == before[i - 1]);
            }
        }
    }
}

/// A new line stands in front of the log, and the lines that were there follow it in order, as many as
/// are kept: two hundred with it.
pub proof fn law_new_lines_come_first(events: Seq<EventEntry>, entry: EventEntry)
    requires
        events.len() <= 200,
    ensures
        logged(events, entry).len() == if events.len() < 200 {
            events.len() + 1
        } else {
            200
        },
        logged(events, entry)[0] == entry,
        forall|i: int|
            0 < i < logged(events, entry).len() ==> #[trigger] logged(events, entry)[i] == events[i
                - 1],
{
}

/// Whether a snapshot shows what an agent knows.
pub open spec fn pictures(r: AppSnapshot, s: RuntimeView) -> bool {
    &&& r.configured <==> s.config is Some
    &&& r.server_url is Some <==> s.config is Some
    &&& s.config matches Some(c) ==> r.server_url == Some(c.server_url) && r.transport_mode == Some(
        c.transport_mode,
    )
    &&& s.config is None ==> r.transport_mode is None
    &&& r.status == s.status && r.status_message@ == s.status_message
    &&& tunnel_views(r.tunnels@) == tunnel_views(s.tunnels)
    &&& r.metrics == s.metrics
    &&& r.events@ == s.events
    &&& r.active_transport == s.active_transport
    &&& r.transport_fallback_reason == s.transport_fallback_reason
}

/// A snapshot shows what is known at its time: the state and why, the relay and the mode where there are
/// settings, every tunnel and every line of the log.
pub proof fn law_snapshots_show_what_is_known(r: AppSnapshot, s: RuntimeView, i: int)
    requires
        pictures(r, s),
    ensures
        r.configured == (s.config is Some),
        r.status == s.status,
        r.status_message@ == s.status_message,
        s.config matches Some(c) ==> r.server_url == Some(c.server_url) && r.transport_mode == Some(
            c.transport_mode,
        ),
        r.tunnels@.len() == s.tunnels.len(),
        0 <= i < s.tunnels.len() ==> r.tunnels@[i]@ == s.tunnels[i]@,
        r.events@ == s.events,
        r.metrics == s.metrics,
        r.active_transport == s.active_transport,
        r.transport_fallback_reason == s.transport_fallback_reason,
{
    assert(tunnel_views(r.tunnels@).len() == r.tunnels@.len());
    assert(tunnel_views(s.tunnels).len() == s.tunnels.len());
    if 0 <= i < s.tunnels.len() {
        assert(tunnel_views(r.tunnels@)[i] == r.tunnels@[i]@);
        assert(tunnel_views(s.tunnels)[i] == s.tunnels[i]@);
    }
}

/// A state is shown by the colour of its dot, and a line says when, how grave, what and from where.
pub proof fn law_dots_and_lines(
    entry: EventEntry,
    at: Timestamp,
    level: Seq<char>,
    message: Seq<char>,
    location: Option<GeoLocation>,
)
    ensures
        status_symbol(AgentStatus::Online) == "🟢"@,
        status_symbol(AgentStatus::Connecting) == "🟡"@,
        status_symbol(AgentStatus::Offline) == "🔴"@,
        status_symbol(AgentStatus::Error) == "🔴"@,
        status_symbol(AgentStatus::Unconfigured) == "⚪"@,
        line_says(entry, at, level, message, location) ==> entry.at == at && entry.level@ == level
            && entry.message@ == message && entry.peer_location == location,
{
}

} // verus!
