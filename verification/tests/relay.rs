use tunnelbridge::auth::StoredDevice;
use tunnelbridge::carrier::{
    accept, attach_as, carrier_step, detach, direct_auth, direct_token, first_record,
    prefers_datagram, run_control_socket, server_capabilities, sort_record, CarrierAction,
    CarrierEvent, CarrierSession, RecordBody,
};
use tunnelbridge::config::Config;
use tunnelbridge::flow::{
    accept_public_connection, open_session, open_virtual_stream, Connection, FlowAction, FlowEvent,
    Phase,
};
use tunnelbridge::gateway::{
    acknowledge_connection, bridge_down, bridge_result, bridge_up, finish, idle_reason, let_in,
    listener_failed, parse_forwarded_ip, reconcile_listener, reset_reason, restore_listeners,
    route_carrier_frame, sent_down, start_listener, stop_listener, sync_agent, wrote_up, AckOutcome,
    BridgeStep, Flow, ListenPlan, ListenerChange,
};
use tunnelbridge::net::{parse_cidr, parse_ip};
use tunnelbridge::protocol::{
    AccessMode, ActiveTransport, AgentControlMessage, DirectCarrierAuth, GeoLocation, LocalScheme,
    Timestamp, Tunnel, TunnelKind, TunnelStatus, PROTOCOL_VERSION,
};
use tunnelbridge::rows::tunnel_row;
use tunnelbridge::secrets::hash_token;
use tunnelbridge::socket::{parse_socket, SocketAddr};
use tunnelbridge::state::{AppState, InboundCarrierFrame};
use tunnelbridge::udp::{forward, open_failed, replied, reply, UdpListener, UdpStep};
use tunnelbridge::wire::{
    decode_carrier_frame, encode_carrier_frame, CARRIER_FRAME_DATA, CARRIER_FRAME_DATAGRAM,
    CARRIER_FRAME_FIN, CARRIER_FRAME_RESET, RECORD_BINARY, RECORD_CONTROL,
};

const SECOND: u128 = 1_000_000_000;
const AGENT: u128 = 77;
const WALL: Timestamp = Timestamp { seconds: 1_700_000_000, nanos: 0 };

fn config() -> Config {
    Config {
        listen_addr: parse_socket("127.0.0.1:0").unwrap(),
        database_url: "sqlite://test.db?mode=rwc".into(),
        admin_dist: "missing".into(),
        admin_password: Some("integration-test-password".into()),
        port_start: 20000,
        port_end: 20000,
        ticket_ttl: 5,
        connect_timeout: 2,
        idle_timeout: 5,
        session_ttl: 60,
        audit_retention_days: 30,
        secure_cookies: false,
        geoip_url: "off".into(),
        web_base_domain: "tunnel.test".into(),
        quic_port: 443,
        quic_listen_port: 7443,
        kcp_port: 4000,
        udp_session_timeout: 2,
        transport_cert_dir: "transport".into(),
        trusted_proxy_cidrs: vec![parse_cidr("127.0.0.0/8").unwrap()],
    }
}

fn tunnel(kind: TunnelKind) -> Tunnel {
    Tunnel {
        id: 1,
        agent_id: AGENT,
        name: "echo".into(),
        local_host: "127.0.0.1".into(),
        local_port: 9,
        kind,
        local_scheme: match kind {
            TunnelKind::Tcp => LocalScheme::Tcp,
            TunnelKind::Udp => LocalScheme::Udp,
            TunnelKind::Web => LocalScheme::Http,
        },
        remote_port: if kind == TunnelKind::Web { None } else { Some(20000) },
        hostname: if kind == TunnelKind::Web { Some("echo.tunnel.test".into()) } else { None },
        access_mode: AccessMode::Public,
        allowed_cidrs: vec![],
        enabled: true,
        status: TunnelStatus::Starting,
        created_at: WALL,
        updated_at: WALL,
    }
}

fn peer() -> SocketAddr {
    parse_socket("203.0.113.7:5555").unwrap()
}

fn online() -> AppState {
    let mut state = AppState::new(config());
    attach_as(&mut state, AGENT, 500, ActiveTransport::Wss, 42, WALL);
    state
}

fn place() -> Option<GeoLocation> {
    Some(GeoLocation { country_code: "US".into(), country_name: "United States".into() })
}

fn located() -> FlowEvent {
    FlowEvent::Located { location: place(), wall: WALL }
}

fn prepared(now: u128) -> FlowEvent {
    FlowEvent::Prepared { stream: 8, ack: 9, now, wall: WALL }
}

/// Brings a stream to where its offer was sent.
fn offered(state: &mut AppState, connection: Connection, now: u128) -> (Connection, u128, String) {
    let known = state.pending.len();
    let (connection, action) = connection.next(state, FlowEvent::Start);
    let (connection, action) = if connection.flow == Flow::Tcp {
        assert_eq!(action, FlowAction::Locate(peer().ip));
        let (connection, action) = connection.next(state, located());
        assert_eq!(action, FlowAction::Prepare);
        assert_eq!(state.pending.len(), known);
        connection.next(state, prepared(now))
    } else {
        assert_eq!(action, FlowAction::Prepare);
        assert_eq!(state.pending.len(), known);
        let (connection, action) = connection.next(state, prepared(now));
        assert_eq!(action, FlowAction::Locate(peer().ip));
        assert_eq!((state.pending.len(), state.streams.len()), (known + 1, known + 1));
        connection.next(state, located())
    };
    let FlowAction::Offer { channel, id, message } = action else { panic!("no offer") };
    assert_eq!(channel, 42);
    let ticket = match message {
        AgentControlMessage::OpenConnection {
            connection_id, tunnel, peer_addr, peer_location, ticket, expires_at,
        } => {
            assert_eq!((connection_id, tunnel.id), (id, 1));
            assert_eq!(peer_addr, "203.0.113.7:5555");
            assert_eq!(peer_location, place());
            assert_eq!(expires_at, Timestamp { seconds: WALL.seconds + 5, nanos: 0 });
            ticket
        }
        AgentControlMessage::OpenUdpSession { session_id, ticket, .. } => {
            assert_eq!(session_id, id);
            ticket
        }
        other => panic!("{other:?}"),
    };
    assert_eq!(ticket.len(), 43);
    assert_eq!(state.pending.get(&id).unwrap().ticket_hash, hash_token(&ticket));
    let (connection, action) = connection.next(state, FlowEvent::Handed(true));
    assert_eq!(action, FlowAction::Await);
    (connection, id, ticket)
}

#[test]
fn relays_real_tcp_bytes_through_authenticated_websockets() {
    let mut state = online();
    let connection = accept_public_connection(tunnel(TunnelKind::Tcp), peer());
    let (connection, id, ticket) = offered(&mut state, connection, 0);
    let answer =
        acknowledge_connection(&mut state, id, AGENT, Some(&ticket), true, None, SECOND).unwrap();
    assert_eq!((answer.ack, answer.result), (9, Ok(())));
    let event = FlowEvent::Answered { outcome: AckOutcome::Accepted, wall: WALL };
    let (connection, action) = connection.next(&mut state, event);
    assert_eq!(action, FlowAction::Bridge { channel: 42, id });
    assert_eq!(state.metrics().active_connections, 1);

    let (frame, last) = bridge_up(id, b"tunnelbridge");
    assert!(!last);
    assert_eq!(
        decode_carrier_frame(&frame),
        Some((CARRIER_FRAME_DATA, id, b"tunnelbridge".to_vec()))
    );
    sent_down(&mut state, id, 12);
    assert!(acknowledge_connection(&mut state, id, AGENT, Some(&ticket), true, None, SECOND).is_none());
    let (stream, inbound) = route_carrier_frame(&state, &frame).unwrap();
    assert_eq!(stream, 8);
    assert_eq!(inbound.payload, b"tunnelbridge");
    assert_eq!(bridge_down(&inbound), BridgeStep::Write);
    wrote_up(&mut state, id, 12);
    let active = state.active.get(&id).unwrap();
    assert_eq!((active.bytes_up, active.bytes_down), (12, 12));
    assert_eq!(active.transport, Some(ActiveTransport::Wss));

    let end = Timestamp { seconds: WALL.seconds + 1, nanos: 0 };
    let (connection, action) = connection.next(&mut state, FlowEvent::Ended { wall: end });
    let FlowAction::Record(row) = action else { panic!("no record") };
    assert_eq!((row.bytes_up, row.bytes_down), (12, 12));
    assert_eq!(row.opened_at, "2023-11-14T22:13:20+00:00");
    assert_eq!(row.closed_at, "2023-11-14T22:13:21+00:00");
    assert_eq!(connection.phase, Phase::Done);
    assert!(route_carrier_frame(&state, &frame).is_none());
    let metrics = state.metrics();
    assert_eq!((metrics.active_connections, metrics.bytes_up, metrics.bytes_down), (0, 12, 12));
}

#[test]
fn a_ticket_opens_once_in_time_for_its_agent() {
    let mut state = online();
    let connection = accept_public_connection(tunnel(TunnelKind::Tcp), peer());
    let (_, id, ticket) = offered(&mut state, connection, 0);
    let soon = SECOND;
    assert!(acknowledge_connection(&mut state, id, AGENT, None, true, None, soon).is_none());
    assert!(acknowledge_connection(&mut state, id, AGENT, Some("x"), true, None, soon).is_none());
    assert!(acknowledge_connection(&mut state, id, 78, Some(&ticket), true, None, soon).is_none());
    assert!(acknowledge_connection(&mut state, 5, AGENT, Some(&ticket), true, None, soon).is_none());
    let late = 5 * SECOND;
    assert!(acknowledge_connection(&mut state, id, AGENT, Some(&ticket), true, None, late).is_none());
    let refused = acknowledge_connection(&mut state, id, AGENT, Some(&ticket), false, None, late - 1);
    assert_eq!(refused.unwrap().result, Err("local target rejected connection".into()));
    assert!(acknowledge_connection(&mut state, id, AGENT, Some(&ticket), true, None, soon).is_none());
}

#[test]
fn refused_and_unanswered_offers_are_forgotten() {
    for (flow, make) in [
        (Flow::Tcp, accept_public_connection as fn(Tunnel, SocketAddr) -> Connection),
        (Flow::Web, open_virtual_stream),
        (Flow::Udp, open_session),
    ] {
        let mut state = online();
        let (connection, id, _) = offered(&mut state, make(tunnel(TunnelKind::Tcp), peer()), 0);
        let outcome = AckOutcome::Rejected("no".into());
        let (connection, action) =
            connection.next(&mut state, FlowEvent::Answered { outcome, wall: WALL });
        let wanted = if flow == Flow::Tcp { "agent rejected connection: no" } else { "no" };
        assert_eq!(action, FlowAction::Fail(wanted.into()));
        assert_eq!(connection.phase, Phase::Done);
        assert!(!state.pending.contains_key(&id) && !state.streams.contains_key(&id));
        assert_eq!(state.counters.failed, 0);

        let (connection, id, _) = offered(&mut state, make(tunnel(TunnelKind::Tcp), peer()), 0);
        let event = FlowEvent::Answered { outcome: AckOutcome::TimedOut, wall: WALL };
        let (_, action) = connection.next(&mut state, event);
        let wanted = match flow {
            Flow::Tcp => "agent multiplexed stream timed out",
            Flow::Web => "web stream acknowledgement timed out",
            Flow::Udp => "UDP session acknowledgement timed out",
        };
        assert_eq!(action, FlowAction::Fail(wanted.into()));
        assert!(!state.pending.contains_key(&id) && !state.streams.contains_key(&id));
        assert_eq!(state.counters.failed, if flow == Flow::Tcp { 1 } else { 0 });
    }
}

#[test]
fn strangers_and_offline_agents_are_turned_away() {
    let mut state = online();
    let mut closed = tunnel(TunnelKind::Tcp);
    closed.access_mode = AccessMode::Allowlist;
    closed.allowed_cidrs = vec![parse_cidr("10.0.0.0/8").unwrap()];
    let (connection, action) =
        accept_public_connection(closed.clone(), peer()).next(&mut state, FlowEvent::Start);
    assert_eq!(action, FlowAction::Fail("source 203.0.113.7 is not allowed".into()));
    assert_eq!(connection.phase, Phase::Done);
    assert_eq!(state.counters.rejected, 1);
    assert!(let_in(&mut state, &closed, parse_ip("::ffff:10.9.9.9").unwrap(), Flow::Web).is_ok());
    let mut offline = AppState::new(config());
    for flow in [Flow::Tcp, Flow::Web, Flow::Udp] {
        assert_eq!(
            let_in(&mut offline, &tunnel(TunnelKind::Tcp), peer().ip, flow),
            Err("agent is offline".into())
        );
    }
    assert_eq!(offline.counters.failed, 1);
}

#[test]
fn unsent_offers_and_misplaced_events_are_answered() {
    let mut state = online();
    let (connection, _) =
        open_virtual_stream(tunnel(TunnelKind::Web), peer()).next(&mut state, FlowEvent::Start);
    let (connection, _) = connection.next_as(&mut state, prepared(0), 3, "t".into());
    assert_eq!(state.streams.get(&3), Some(&8));
    assert_eq!(state.pending.get(&3).unwrap().ticket_hash, hash_token("t"));
    let (connection, action) = connection.next_as(&mut state, located(), 5, "u".into());
    let FlowAction::Offer { id: 3, message, .. } = action else { panic!("no offer") };
    let AgentControlMessage::OpenConnection { ticket, .. } = message else { panic!("no offer") };
    assert_eq!(ticket, "t");
    let (same, action) = connection.clone().next(&mut state, FlowEvent::Start);
    assert_eq!((&same, action), (&connection, FlowAction::Misplaced));
    let (connection, action) = connection.next(&mut state, FlowEvent::Handed(false));
    assert_eq!(action, FlowAction::Fail("channel closed".into()));
    assert_eq!(connection.phase, Phase::Done);
    assert_eq!(state.streams.get(&3), Some(&8));
    let (connection, _) =
        accept_public_connection(tunnel(TunnelKind::Tcp), peer()).next(&mut state, FlowEvent::Start);
    let (connection, _) = connection.next(&mut state, located());
    let (connection, _) = connection.next_as(&mut state, prepared(0), 4, "t".into());
    let (_, action) = connection.next(&mut state, FlowEvent::Handed(false));
    assert_eq!(action, FlowAction::Fail("send open connection to agent".into()));
}

#[test]
fn web_streams_leave_no_record() {
    let mut state = online();
    let connection = open_virtual_stream(tunnel(TunnelKind::Web), peer());
    let (connection, id, _) = offered(&mut state, connection, 0);
    let event = FlowEvent::Answered { outcome: AckOutcome::Accepted, wall: WALL };
    let (connection, action) = connection.next(&mut state, event);
    assert_eq!(action, FlowAction::Bridge { channel: 42, id });
    let (_, action) = connection.next(&mut state, FlowEvent::Ended { wall: WALL });
    assert_eq!(action, FlowAction::Finish);
    assert!(!state.active.contains_key(&id) && !state.streams.contains_key(&id));
    assert!(finish(&mut state, Flow::Tcp, id, WALL).is_none());
}

#[test]
fn frames_are_sorted_by_what_they_carry() {
    let frame = |kind: u8| InboundCarrierFrame { kind, payload: b"x".to_vec() };
    assert_eq!(bridge_down(&frame(CARRIER_FRAME_DATA)), BridgeStep::Write);
    assert_eq!(bridge_down(&frame(CARRIER_FRAME_FIN)), BridgeStep::Finish);
    assert_eq!(bridge_down(&frame(CARRIER_FRAME_RESET)), BridgeStep::Reset);
    assert_eq!(bridge_down(&frame(CARRIER_FRAME_DATAGRAM)), BridgeStep::Skip);
    assert_eq!(bridge_down(&frame(200)), BridgeStep::Skip);
    let (end, last) = bridge_up(7, b"");
    assert!(last);
    assert_eq!(decode_carrier_frame(&end), Some((CARRIER_FRAME_FIN, 7, vec![])));
    assert_eq!(idle_reason(), "connection idle timeout");
    assert_eq!(reset_reason(), "agent reset stream");
    assert_eq!(bridge_result(Some("a".into()), Some("b".into())), Some("a".into()));
    assert_eq!(bridge_result(None, Some("b".into())), Some("b".into()));
    assert_eq!(bridge_result(None, None), None);
    assert_eq!(parse_forwarded_ip(None), None);
    assert_eq!(parse_forwarded_ip(Some("x, 1.2.3.4")), None);
    assert_eq!(parse_forwarded_ip(Some(" ::1 ,x")), parse_ip("::1"));
}

#[test]
fn a_new_carrier_takes_the_place_of_the_old_one() {
    let mut state = online();
    attach_as(&mut state, AGENT, 501, ActiveTransport::Quic, 43, WALL);
    assert_eq!(state.agents.get(&AGENT).unwrap().channel, 43);
    let metrics = state.metrics();
    assert_eq!((metrics.online_agents, metrics.wss_connections, metrics.quic_connections), (1, 1, 1));
    detach(&mut state, AGENT, 500, ActiveTransport::Wss);
    assert_eq!(state.agents.get(&AGENT).unwrap().session_id, 501);
    detach(&mut state, AGENT, 501, ActiveTransport::Quic);
    assert!(!state.agents.contains_key(&AGENT));
    let metrics = state.metrics();
    assert_eq!((metrics.online_agents, metrics.wss_connections, metrics.quic_connections), (0, 0, 0));
}

fn greeting(protocol_version: u16) -> AgentControlMessage {
    AgentControlMessage::Hello {
        protocol_version,
        agent_id: AGENT,
        name: "Mac".into(),
        capabilities: server_capabilities(),
        config_version: 0,
    }
}

#[test]
fn carriers_answer_their_agents() {
    let mut state = AppState::new(config());
    let (mut session, welcome) = run_control_socket(&mut state, AGENT, 42, WALL);
    assert!(matches!(
        welcome,
        AgentControlMessage::Welcome { protocol_version: PROTOCOL_VERSION, server_time: WALL, transport: Some(ActiveTransport::Wss), .. }
    ));
    let ping = CarrierEvent::Control(AgentControlMessage::Ping { sent_at: WALL });
    assert_eq!(
        session.handle(&mut state, ping, 0),
        CarrierAction::Reply(AgentControlMessage::Pong { sent_at: WALL })
    );
    assert_eq!(session.handle(&mut state, CarrierEvent::Garbled, 0), CarrierAction::Wait);
    assert_eq!(
        session.handle(&mut state, CarrierEvent::Control(greeting(PROTOCOL_VERSION)), 0),
        CarrierAction::Wait
    );
    assert_eq!(session.handle(&mut state, CarrierEvent::Frame(b"short".to_vec()), 0), CarrierAction::Wait);
    let ack = AgentControlMessage::ConnectionAck {
        connection_id: 6,
        accepted: true,
        error: None,
        ticket: Some("t".into()),
    };
    assert_eq!(session.handle(&mut state, CarrierEvent::Control(ack), 0), CarrierAction::Stray(6));
    assert!(session.open);
    let CarrierAction::ReplyAndLeave(AgentControlMessage::Error { code, message }) =
        session.handle(&mut state, CarrierEvent::Control(greeting(2)), 0)
    else {
        panic!("the version should not fit")
    };
    assert_eq!((code.as_str(), message.as_str()), ("protocol_mismatch", "server protocol is 1"));
    assert!(!session.open);
    assert!(!state.agents.contains_key(&AGENT));
    assert_eq!(state.counters.wss, 0);
}

#[test]
fn acknowledgements_and_frames_reach_their_streams() {
    let mut state = online();
    let connection = accept_public_connection(tunnel(TunnelKind::Tcp), peer());
    let (_, id, ticket) = offered(&mut state, connection, 0);
    let frame = encode_carrier_frame(CARRIER_FRAME_DATA, id, b"hi");
    assert_eq!(
        carrier_step(&mut state, AGENT, ActiveTransport::Kcp, CarrierEvent::Frame(frame), 0),
        CarrierAction::Deliver(8, InboundCarrierFrame { kind: CARRIER_FRAME_DATA, payload: b"hi".to_vec() })
    );
    let ack = AgentControlMessage::ConnectionAck {
        connection_id: id,
        accepted: false,
        error: Some("refused".into()),
        ticket: Some(ticket),
    };
    let CarrierAction::Acknowledge(answer) =
        carrier_step(&mut state, AGENT, ActiveTransport::Kcp, CarrierEvent::Control(ack), 0)
    else {
        panic!("no acknowledgement")
    };
    assert_eq!((answer.ack, answer.result), (9, Err("refused".into())));
    assert_eq!(
        carrier_step(&mut state, AGENT, ActiveTransport::Kcp, CarrierEvent::Closed, 0),
        CarrierAction::Leave
    );
}

#[test]
fn direct_carriers_need_a_live_device_and_the_version() {
    let auth = |version: u16| DirectCarrierAuth { token: "secret".into(), hello: greeting(version) };
    let row = |revoked: bool| {
        vec![StoredDevice {
            id: "00000000-0000-0000-0000-00000000004d".into(),
            name: "Mac".into(),
            token_hash: hash_token("secret"),
            revoked,
        }]
    };
    assert_eq!(direct_token(&auth(1)), hash_token("secret"));
    assert_eq!(direct_auth(&auth(1), &row(false)).unwrap().id, AGENT);
    assert_eq!(direct_auth(&auth(1), &row(true)).unwrap_err(), "invalid device token");
    assert_eq!(direct_auth(&auth(1), &vec![]).unwrap_err(), "invalid device token");
    assert_eq!(direct_auth(&auth(2), &row(false)).unwrap_err(), "protocol mismatch");
    let mut state = AppState::new(config());
    assert!(accept(&mut state, ActiveTransport::Kcp, &auth(2), &row(false), 1, WALL).is_err());
    assert_eq!(state.counters.kcp, 0);
    let (mut session, _): (CarrierSession, _) =
        accept(&mut state, ActiveTransport::Kcp, &auth(1), &row(false), 1, WALL).unwrap();
    assert_eq!(state.counters.kcp, 1);
    assert_eq!(session.handle(&mut state, CarrierEvent::Closed, 0), CarrierAction::Leave);
    assert_eq!(state.counters.kcp, 0);
    assert!(first_record(ActiveTransport::Quic, RECORD_CONTROL).is_ok());
    assert_eq!(
        first_record(ActiveTransport::Quic, RECORD_BINARY),
        Err("missing direct carrier auth".into())
    );
    assert_eq!(
        first_record(ActiveTransport::Kcp, RECORD_BINARY),
        Err("missing KCP carrier auth".into())
    );
    assert_eq!(sort_record(RECORD_BINARY, b"x".to_vec()), RecordBody::Frame(b"x".to_vec()));
    assert_eq!(sort_record(9, b"x".to_vec()), RecordBody::Control(b"x".to_vec()));
    assert!(prefers_datagram(&encode_carrier_frame(CARRIER_FRAME_DATAGRAM, 1, b"")));
    assert!(!prefers_datagram(&encode_carrier_frame(CARRIER_FRAME_DATA, 1, b"")));
    assert!(!prefers_datagram(&vec![]));
}

#[test]
fn listeners_follow_their_tunnels() {
    let mut state = AppState::new(config());
    let tcp = tunnel(TunnelKind::Tcp);
    assert_eq!(start_listener(&mut state, &tcp, 11), ListenPlan::Tcp(20000));
    assert_eq!(start_listener(&mut state, &Tunnel { id: 2, ..tunnel(TunnelKind::Udp) }, 12), ListenPlan::Udp(20000));
    assert_eq!(
        start_listener(&mut state, &Tunnel { id: 3, remote_port: None, ..tcp.clone() }, 13),
        ListenPlan::Nothing
    );
    assert_eq!(
        reconcile_listener(&mut state, &tcp),
        ListenerChange { cancel: Some(11), start: true }
    );
    assert_eq!(
        reconcile_listener(&mut state, &Tunnel { enabled: false, ..tcp.clone() }),
        ListenerChange { cancel: None, start: false }
    );
    assert_eq!(
        reconcile_listener(&mut state, &tunnel(TunnelKind::Web)),
        ListenerChange { cancel: None, start: false }
    );
    listener_failed(&mut state, 2);
    assert!(!state.listeners.contains_key(&2));
    assert_eq!(state.counters.failed, 1);
    assert_eq!(stop_listener(&mut state, 3), Some(13));
    assert_eq!(stop_listener(&mut state, 3), None);
    let rows = vec![
        tunnel_row(&tcp),
        tunnel_row(&Tunnel { id: 2, ..tunnel(TunnelKind::Web) }),
        tunnel_row(&Tunnel { id: 3, enabled: false, ..tunnel(TunnelKind::Udp) }),
        tunnel_row(&Tunnel { id: 4, ..tunnel(TunnelKind::Udp) }),
    ];
    let ids: Vec<u128> = restore_listeners(&rows).unwrap().iter().map(|t| t.id).collect();
    assert_eq!(ids, vec![1, 4]);
}

#[test]
fn agents_in_reach_are_told_their_tunnels() {
    let state = online();
    let (channel, message) = sync_agent(&state, AGENT, Some(vec![tunnel(TunnelKind::Tcp)])).unwrap();
    assert_eq!(channel, 42);
    let AgentControlMessage::ConfigSync { tunnels } = message else { panic!("no tunnels") };
    assert_eq!(tunnels, vec![tunnel(TunnelKind::Tcp)]);
    assert!(sync_agent(&state, AGENT, None).is_none());
    assert!(sync_agent(&state, 78, Some(vec![])).is_none());
}

#[test]
fn udp_sessions_last_while_they_are_heard() {
    let mut state = online();
    let mut udp = UdpListener::new();
    let tunnel = tunnel(TunnelKind::Udp);
    assert_eq!(udp.datagram(&mut state, &tunnel, peer(), 0), UdpStep::Open);
    let (connection, id, ticket) = offered(&mut state, open_session(tunnel.clone(), peer()), 0);
    acknowledge_connection(&mut state, id, AGENT, Some(&ticket), true, None, 0).unwrap();
    let event = FlowEvent::Answered { outcome: AckOutcome::Accepted, wall: WALL };
    let (connection, action) = connection.next(&mut state, event);
    assert_eq!(action, FlowAction::Locate(peer().ip));
    let event = FlowEvent::Relocated { location: None, wall: WALL };
    let (_, action) = connection.next(&mut state, event);
    assert_eq!(action, FlowAction::Bridge { channel: 42, id });
    udp.session_opened(peer(), id, 0);
    assert_eq!(state.metrics().active_udp_sessions, 1);
    let (channel, frame) = forward(&state, &tunnel, id, b"q").unwrap();
    assert_eq!(channel, 42);
    assert_eq!(decode_carrier_frame(&frame), Some((CARRIER_FRAME_DATAGRAM, id, b"q".to_vec())));
    udp.forwarded(&mut state, peer(), true, 1);
    assert_eq!(state.counters.bytes_down, 1);
    assert_eq!(udp.datagram(&mut state, &tunnel, peer(), SECOND), UdpStep::Forward(id));
    udp.sweep(&mut state, 3 * SECOND - 1);
    assert_eq!(udp.sessions.len(), 1);
    udp.sweep(&mut state, 3 * SECOND);
    assert_eq!(udp.sessions.len(), 0);
    assert!(!state.streams.contains_key(&id) && !state.active.contains_key(&id));
    assert_eq!(state.metrics().active_udp_sessions, 0);
}

#[test]
fn udp_sources_have_their_own_sessions() {
    let mut state = online();
    let mut udp = UdpListener::new();
    let tunnel = tunnel(TunnelKind::Udp);
    let others = ["203.0.113.7:5556", "203.0.113.8:5555", "[fe80::1%2]:5555", "[fe80::1%3]:5555"];
    udp.session_opened(peer(), 1, 0);
    for other in others {
        assert_eq!(udp.datagram(&mut state, &tunnel, parse_socket(other).unwrap(), 1), UdpStep::Open);
    }
    udp.session_opened(parse_socket(others[2]).unwrap(), 2, 0);
    assert_eq!(udp.datagram(&mut state, &tunnel, peer(), 1), UdpStep::Forward(1));
    assert_eq!(
        udp.datagram(&mut state, &tunnel, parse_socket(others[2]).unwrap(), 1),
        UdpStep::Forward(2)
    );
    assert_eq!(udp.datagram(&mut state, &tunnel, parse_socket(others[3]).unwrap(), 1), UdpStep::Open);
}

#[test]
fn udp_listeners_drop_strangers_and_broken_sessions() {
    let mut state = online();
    let mut udp = UdpListener::new();
    let mut closed = tunnel(TunnelKind::Udp);
    closed.access_mode = AccessMode::Allowlist;
    closed.allowed_cidrs = vec![parse_cidr("10.0.0.0/8").unwrap()];
    assert_eq!(udp.datagram(&mut state, &closed, peer(), 0), UdpStep::Drop);
    assert_eq!((state.counters.rejected, udp.sessions.len()), (1, 0));
    open_failed(&mut state);
    assert_eq!(state.counters.failed, 1);
    udp.session_opened(peer(), 5, 0);
    udp.forwarded(&mut state, peer(), false, 9);
    assert_eq!((udp.sessions.len(), state.counters.bytes_down), (0, 0));
    udp.session_opened(peer(), 5, 0);
    state.streams.insert(5, 1);
    udp.stop(&mut state);
    assert!(!state.streams.contains_key(&5));
    assert!(forward(&AppState::new(config()), &closed, 5, b"x").is_none());
    let frame = |kind: u8| InboundCarrierFrame { kind, payload: b"r".to_vec() };
    assert_eq!(reply(frame(CARRIER_FRAME_DATAGRAM)), Some(b"r".to_vec()));
    assert_eq!(reply(frame(CARRIER_FRAME_DATA)), None);
    replied(&mut state, 3);
    assert_eq!(state.counters.bytes_up, 3);
}

#[test]
fn traffic_is_counted_either_way() {
    let mut counters = AppState::new(config()).counters;
    for (up, down) in [(3, 5), (u64::MAX, 7), (10, u64::MAX)] {
        counters.add_up(up);
        counters.add_down(down);
    }
    assert_eq!((counters.bytes_up, counters.bytes_down), (12, 11));
    assert_eq!((counters.rejected, counters.failed, counters.http_requests), (0, 0, 0));
}
