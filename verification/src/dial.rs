//! How an agent sets up a QUIC or KCP carrier: it makes sure of the certificate of the relay before
//! it looks for the relay, connects and greets.
use crate::agent::{
    carrier_port, check_pin, direct_greeting, greets, host_in, pins, port_for, relay_host,
    stored_certificate, unread_text,
};
use crate::agent_config::{certificate_account, fingerprint_account, url_view, AgentConfig};
use crate::ids::id_text;
use crate::protocol::{ActiveTransport, DirectCarrierAuth};
use crate::secrets::standard_base64;
use crate::text;
use crate::timing::QUIC_CONNECT_SECONDS;
use crate::transport_identity::{fingerprint_text, transport_name};
use vstd::prelude::*;

verus! {

/// How far an agent has come.
#[derive(Debug, Clone, Copy, PartialEq, Eq, Structural)]
pub enum DialStep {
    /// Nothing was done yet.
    Begun,
    /// The certificate that was kept is read.
    ReadingCertificate,
    /// The digest that was kept is read.
    ReadingFingerprint,
    /// The certificate is the one that was kept, and is about to be trusted.
    Trusting,
    /// The addresses of the relay are looked up.
    Resolving,
    /// The relay is connected to.
    Connecting,
    /// The relay is greeted.
    Greeting,
    /// The carrier is up, or will not come up.
    Over,
}

/// What an agent learns while it sets up a carrier.
#[derive(Debug, Clone, PartialEq, Eq)]
pub enum DialEvent {
    /// A carrier is wanted.
    Begin,
    /// The secret that was asked for.
    Secret(String),
    /// The certificate is trusted, and nothing else.
    Trusted,
    /// Whether the relay has an address.
    Resolved(bool),
    /// The relay was connected to.
    Connected,
    /// The relay did not answer in time.
    TimedOut,
    /// The greeting was sent.
    Greeted,
    /// What was asked for could not be done.
    Failed(String),
}

/// What an agent does to set up a carrier.
#[derive(Debug, Clone, PartialEq, Eq)]
pub enum DialAction {
    /// Read the certificate that is kept under an account.
    LoadCertificate(String),
    /// Read the digest that is kept under an account.
    LoadFingerprint(String),
    /// Trust a certificate, and nothing else.
    Trust(Vec<u8>),
    /// Look up the first address of a host, for a port.
    Resolve { host: String, port: u16 },
    /// Connect to the relay under a name, within so many seconds where there is a limit.
    Connect { name: String, limit: Option<u64> },
    /// Send the first record.
    Greet(DirectCarrierAuth),
    /// Use the carrier.
    Online,
    /// Give up.
    Fail(String),
    /// The event does not belong here.
    Misplaced,
}

/// An agent that sets up a carrier.
#[derive(Debug)]
pub struct Dialer {
    pub config: AgentConfig,
    pub token: String,
    pub transport: ActiveTransport,
    pub step: DialStep,
    pub certificate: Vec<u8>,
}

/// What an agent goes by, how far it has come, and the certificate that it read.
#[verifier::ext_equal]
pub struct DialView {
    pub config: AgentConfig,
    pub token: Seq<char>,
    pub transport: ActiveTransport,
    pub step: DialStep,
    pub certificate: Seq<u8>,
}

impl View for Dialer {
    type V = DialView;

    open spec fn view(&self) -> DialView {
        DialView {
            config: self.config,
            token: self.token@,
            transport: self.transport,
            step: self.step,
            certificate: self.certificate@,
        }
    }
}

/// Whether an agent gave up for a reason.
pub open spec fn gave_up(s: DialView, t: DialView, a: DialAction, reason: Seq<char>) -> bool {
    t == (DialView { step: DialStep::Over, ..s }) && (a matches DialAction::Fail(e) && e@ == reason)
}

/// What is said where the relay has no address.
pub open spec fn unresolved_text(transport: ActiveTransport) -> Seq<char> {
    if transport == ActiveTransport::Kcp {
        "无法解析 KCP 服务器地址"@
    } else {
        "无法解析服务器地址"@
    }
}

/// The seconds that a connection may take.
pub open spec fn connect_limit(transport: ActiveTransport) -> Option<u64> {
    if transport == ActiveTransport::Kcp {
        None
    } else {
        Some(QUIC_CONNECT_SECONDS)
    }
}

/// How an agent goes on, given what it learns, and what it does.
pub open spec fn dials(s: DialView, e: DialEvent, t: DialView, a: DialAction) -> bool {
    match (s.step, e) {
        (DialStep::Begun, DialEvent::Begin) => {
            &&& t == (DialView { step: DialStep::ReadingCertificate, ..s })
            &&& a matches DialAction::LoadCertificate(account)
            &&& account@ == id_text(s.config.installation_id) + ":transport-certificate"@
        },
        (DialStep::ReadingCertificate, DialEvent::Secret(stored)) => {
            if exists|der: Seq<u8>| text::trimmed(stored@) == #[trigger] standard_base64(der) {
                &&& t == (DialView {
                    step: DialStep::ReadingFingerprint,
                    certificate: t.certificate,
                    ..s
                })
                &&& text::trimmed(stored@) == standard_base64(t.certificate)
                &&& a matches DialAction::LoadFingerprint(account)
                &&& account@ == id_text(s.config.installation_id) + ":transport-fingerprint"@
            } else {
                gave_up(s, t, a, unread_text(s.transport, stored@))
            }
        },
        (DialStep::ReadingFingerprint, DialEvent::Secret(expected)) => {
            if fingerprint_text(s.certificate) == Some(expected@) {
                &&& t == (DialView { step: DialStep::Trusting, ..s })
                &&& a matches DialAction::Trust(der)
                &&& der@ == s.certificate
            } else {
                gave_up(s, t, a, "传输证书指纹与注册记录不匹配"@)
            }
        },
        (DialStep::Trusting, DialEvent::Trusted) => match host_in(url_view(s.config.server_url@)) {
            Ok(name) => {
                &&& t == (DialView { step: DialStep::Resolving, ..s })
                &&& a matches DialAction::Resolve { host, port }
                &&& host@ == name
                &&& port == port_for(s.config, s.transport)
            },
            Err(reason) => gave_up(s, t, a, reason),
        },
        (DialStep::Resolving, DialEvent::Resolved(found)) => if found {
            &&& t == (DialView { step: DialStep::Connecting, ..s })
            &&& a matches DialAction::Connect { name, limit }
            &&& name@ == "tunnelbridge-transport"@
            &&& limit == connect_limit(s.transport)
        } else {
            gave_up(s, t, a, unresolved_text(s.transport))
        },
        (DialStep::Connecting, DialEvent::Connected) => {
            &&& t == (DialView { step: DialStep::Greeting, ..s })
            &&& a matches DialAction::Greet(auth)
            &&& auth.token@ == s.token
            &&& greets(auth.hello, s.config, s.transport)
        },
        (DialStep::Connecting, DialEvent::TimedOut) => if connect_limit(s.transport) is Some {
            gave_up(s, t, a, "QUIC 连接超时"@)
        } else {
            t == s && a is Misplaced
        },
        (DialStep::Greeting, DialEvent::Greeted) => t == (DialView { step: DialStep::Over, ..s })
            && a is Online,
        (step, DialEvent::Failed(reason)) => if step == DialStep::Begun || step == DialStep::Over {
            t == s && a is Misplaced
        } else {
            gave_up(s, t, a, reason@)
        },
        _ => t == s && a is Misplaced,
    }
}

impl Dialer {
    /// An agent that has done nothing yet.
    pub fn new(config: AgentConfig, token: String, transport: ActiveTransport) -> (r: Dialer)
        ensures
            r@ == (DialView {
                config,
                token: token@,
                transport,
                step: DialStep::Begun,
                certificate: Seq::empty(),
            }),
    {
        Dialer { config, token, transport, step: DialStep::Begun, certificate: Vec::new() }
    }

    /// Gives up for a reason.
    fn give_up(&mut self, reason: String) -> (r: DialAction)
        ensures
            gave_up(old(self)@, final(self)@, r, reason@),
    {
        self.step = DialStep::Over;
        DialAction::Fail(reason)
    }

    /// What to do next, given what was learned.
    pub fn next(&mut self, event: DialEvent) -> (r: DialAction)
        ensures
            dials(old(self)@, event, final(self)@, r),
    {
        match (self.step, event) {
            (DialStep::Begun, DialEvent::Begin) => {
                self.step = DialStep::ReadingCertificate;
                DialAction::LoadCertificate(certificate_account(self.config.installation_id))
            },
            (DialStep::ReadingCertificate, DialEvent::Secret(stored)) => match stored_certificate(
                self.transport,
                stored.as_str(),
            ) {
                Ok(der) => {
                    self.certificate = der;
                    self.step = DialStep::ReadingFingerprint;
                    DialAction::LoadFingerprint(fingerprint_account(self.config.installation_id))
                },
                Err(e) => self.give_up(e),
            },
            (DialStep::ReadingFingerprint, DialEvent::Secret(expected)) => match check_pin(
                self.certificate.as_slice(),
                expected.as_str(),
            ) {
                Ok(()) => {
                    self.step = DialStep::Trusting;
                    DialAction::Trust(self.certificate.clone())
                },
                Err(e) => self.give_up(e),
            },
            (DialStep::Trusting, DialEvent::Trusted) => match relay_host(&self.config) {
                Ok(host) => {
                    self.step = DialStep::Resolving;
                    DialAction::Resolve { host, port: carrier_port(&self.config, self.transport) }
                },
                Err(e) => self.give_up(e),
            },
            (DialStep::Resolving, DialEvent::Resolved(found)) => if found {
                self.step = DialStep::Connecting;
                let limit: Option<u64> = match self.transport {
                    ActiveTransport::Kcp => None,
                    _ => Some(QUIC_CONNECT_SECONDS),
                };
                DialAction::Connect { name: transport_name().to_owned(), limit }
            } else {
                match self.transport {
                    ActiveTransport::Kcp => self.give_up("无法解析 KCP 服务器地址".to_owned()),
                    _ => self.give_up("无法解析服务器地址".to_owned()),
                }
            },
            (DialStep::Connecting, DialEvent::Connected) => {
                self.step = DialStep::Greeting;
                DialAction::Greet(
                    direct_greeting(&self.config, self.token.as_str(), self.transport),
                )
            },
            (DialStep::Connecting, DialEvent::TimedOut) => match self.transport {
                ActiveTransport::Kcp => DialAction::Misplaced,
                _ => self.give_up("QUIC 连接超时".to_owned()),
            },
            (DialStep::Greeting, DialEvent::Greeted) => {
                self.step = DialStep::Over;
                DialAction::Online
            },
            (step, DialEvent::Failed(reason)) => match step {
                DialStep::Begun | DialStep::Over => DialAction::Misplaced,
                _ => self.give_up(reason),
            },
            _ => DialAction::Misplaced,
        }
    }
}

/// Whether an agent that begins anew learns and does these things, in this order, while it comes
/// this far.
pub open spec fn dialed(
    steps: Seq<DialView>,
    events: Seq<DialEvent>,
    actions: Seq<DialAction>,
) -> bool {
    &&& steps.len() == events.len() + 1
    &&& actions.len() == events.len()
    &&& steps[0].step == DialStep::Begun
    &&& forall|i: int|
        0 <= i < events.len() ==> dials(
            steps[i],
            #[trigger] events[i],
            steps[i + 1],
            actions[i],
        )
}

/// Whether something goes out to the network.
pub open spec fn goes_out(a: DialAction) -> bool {
    a is Resolve || a is Connect || a is Greet || a is Online
}

/// Whether a certificate was read before, with a digest read after it that is the one of its public
/// key, and was then trusted.
pub open spec fn pinned_before(
    events: Seq<DialEvent>,
    actions: Seq<DialAction>,
    n: int,
    der: Seq<u8>,
) -> bool {
    exists|i: int, j: int| #[trigger]
        pinned_at(events, actions, i, j, der) && 0 <= i < j < n
}

/// Whether a certificate was read, its digest was read, and it was trusted for it.
pub open spec fn pinned_at(
    events: Seq<DialEvent>,
    actions: Seq<DialAction>,
    i: int,
    j: int,
    der: Seq<u8>,
) -> bool {
    events[i] matches DialEvent::Secret(stored) && (events[j] matches DialEvent::Secret(expected)
        && pins(stored@, expected@, der)) && (actions[j] matches DialAction::Trust(trusted)
        && trusted@ == der)
}

/// What holds once an agent has come a step.
proof fn lemma_pinned(
    steps: Seq<DialView>,
    events: Seq<DialEvent>,
    actions: Seq<DialAction>,
    n: int,
)
    requires
        dialed(steps, events, actions),
        0 <= n < steps.len(),
    ensures
        match steps[n].step {
            DialStep::ReadingFingerprint => exists|i: int|
                0 <= i < n && (#[trigger] events[i] matches DialEvent::Secret(stored)
                    && text::trimmed(stored@) == standard_base64(steps[n].certificate)),
            DialStep::Trusting
            | DialStep::Resolving
            | DialStep::Connecting
            | DialStep::Greeting => pinned_before(events, actions, n, steps[n].certificate),
            _ => true,
        },
    decreases n,
{
    if n > 0 {
        let m = n - 1;
        lemma_pinned(steps, events, actions, m);
        let (s, e, t, a) = (steps[m], events[m], steps[n], actions[m]);
        assert(dials(s, e, t, a));
        if s.step == DialStep::ReadingFingerprint {
            let i = choose|i: int|
                0 <= i < m && (#[trigger] events[i] matches DialEvent::Secret(stored)
                    && text::trimmed(stored@) == standard_base64(s.certificate));
            if t.step == DialStep::Trusting {
                assert(pinned_at(events, actions, i, m, t.certificate));
            }
        } else if pinned_before(events, actions, m, s.certificate) && t.certificate
            == s.certificate {
            let (i, j) = choose|i: int, j: int| #[trigger]
                pinned_at(events, actions, i, j, s.certificate) && 0 <= i < j < m;
            assert(pinned_at(events, actions, i, j, t.certificate) && 0 <= i < j < n);
        }
    }
}

/// Whatever an agent learns, in whatever order, nothing goes out to the network before the
/// certificate that was kept at enrolment has been found to be the one whose digest was kept with
/// it, and before it alone is trusted: no name is looked up, nothing is connected to, and the token
/// is not sent.
pub proof fn law_nothing_goes_out_before_the_pin(
    steps: Seq<DialView>,
    events: Seq<DialEvent>,
    actions: Seq<DialAction>,
    n: int,
)
    requires
        dialed(steps, events, actions),
        0 <= n < actions.len(),
        goes_out(actions[n]),
    ensures
        pinned_before(events, actions, n, steps[n].certificate),
{
    lemma_pinned(steps, events, actions, n);
    assert(dials(steps[n], events[n], steps[n + 1], actions[n]));
}

/// A carrier that has come up or was given up does nothing more.
pub proof fn law_the_end_is_the_end(
    s: DialView,
    e: DialEvent,
    t: DialView,
    a: DialAction,
)
    requires
        dials(s, e, t, a),
        s.step == DialStep::Over,
    ensures
        t == s,
        a is Misplaced,
{
}

/// An agent reads the certificate and the digest of its own installation, looks for the host of its
/// relay at the port of the carrier, connects under the name of the relay's certificate, over QUIC
/// within five seconds, and greets with its own token.
pub proof fn law_agents_dial_their_relay(s: DialView, e: DialEvent, t: DialView, a: DialAction)
    requires
        dials(s, e, t, a),
    ensures
        a matches DialAction::LoadCertificate(account) ==> account@ == id_text(
            s.config.installation_id,
        ) + ":transport-certificate"@,
        a matches DialAction::LoadFingerprint(account) ==> account@ == id_text(
            s.config.installation_id,
        ) + ":transport-fingerprint"@,
        a matches DialAction::Resolve { host, port } ==> host_in(url_view(s.config.server_url@))
            == Ok::<Seq<char>, Seq<char>>(host@) && (s.transport == ActiveTransport::Kcp
            && s.config.kcp_port != 0 ==> port == s.config.kcp_port) && (s.transport
            == ActiveTransport::Quic && s.config.quic_port != 0 ==> port == s.config.quic_port),
        a matches DialAction::Connect { name, limit } ==> name@ == "tunnelbridge-transport"@ && (
        s.transport == ActiveTransport::Quic ==> limit == Some(5u64)) && (s.transport
            == ActiveTransport::Kcp ==> limit is None),
        a matches DialAction::Greet(auth) ==> auth.token@ == s.token && greets(
            auth.hello,
            s.config,
            s.transport,
        ),
        a matches DialAction::Trust(der) ==> der@ == s.certificate,
        e matches DialEvent::Failed(reason) ==> (a matches DialAction::Fail(why) ==> why@
            == reason@),
        t.config == s.config && t.token == s.token && t.transport == s.transport,
        a is Online ==> s.step == DialStep::Greeting,
        a is Greet ==> s.step == DialStep::Connecting,
        a is Connect ==> s.step == DialStep::Resolving,
{
}

/// An agent whose secrets fit, whose relay has an address and answers, comes online: each step leads to
/// the next.
pub proof fn law_dialling_comes_through(s: DialView, e: DialEvent, t: DialView, a: DialAction)
    requires
        dials(s, e, t, a),
    ensures
        s.step == DialStep::Begun && e is Begin ==> t.step == DialStep::ReadingCertificate
            && a is LoadCertificate,
        s.step == DialStep::ReadingFingerprint && (e matches DialEvent::Secret(text)
            && fingerprint_text(s.certificate) == Some(text@)) ==> t.step == DialStep::Trusting
            && a is Trust,
        s.step == DialStep::Trusting && e is Trusted && host_in(
            url_view(s.config.server_url@),
        ) is Ok ==> t.step == DialStep::Resolving && a is Resolve,
        s.step == DialStep::Resolving && e == DialEvent::Resolved(true) ==> t.step
            == DialStep::Connecting && a is Connect,
        s.step == DialStep::Resolving && e == DialEvent::Resolved(false) ==> t.step
            == DialStep::Over && a is Fail,
        s.step == DialStep::Connecting && e is Connected ==> t.step == DialStep::Greeting
            && a is Greet,
        s.step == DialStep::Greeting && e is Greeted ==> t.step == DialStep::Over && a is Online,
{
}

/// An agent that gives up says why: its relay has no address, the pinned certificate is not the one that
/// was enrolled, or QUIC did not answer in time. KCP has no such limit.
pub proof fn law_dialling_fails_for_a_reason(s: DialView, e: DialEvent, t: DialView, a: DialAction)
    requires
        dials(s, e, t, a),
    ensures
        unresolved_text(ActiveTransport::Kcp) == "无法解析 KCP 服务器地址"@,
        unresolved_text(ActiveTransport::Quic) == "无法解析服务器地址"@,
        s.step == DialStep::Resolving && e == DialEvent::Resolved(false) ==> (
        a matches DialAction::Fail(why) && why@ == unresolved_text(s.transport)),
        s.step == DialStep::ReadingFingerprint && (e matches DialEvent::Secret(text)
            && fingerprint_text(s.certificate) != Some(text@)) ==> t.step == DialStep::Over && (
        a matches DialAction::Fail(why) && why@ == "传输证书指纹与注册记录不匹配"@),
        s.step == DialStep::Connecting && e is TimedOut && s.transport == ActiveTransport::Quic
            ==> t.step == DialStep::Over && (a matches DialAction::Fail(why) && why@
            == "QUIC 连接超时"@),
        s.step == DialStep::Connecting && e is TimedOut && s.transport == ActiveTransport::Kcp
            ==> a is Misplaced && t == s,
{
}

} // verus!
