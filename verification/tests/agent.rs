use tunnelbridge::agent::{
    accept, agent_step, backoff, carrier_ended, carrier_online, carrier_port, check_pin, count_down, count_up,
    datagram_frame, decline, direct_greeting, dispatch_control_message, hello, host_of_parts,
    idle_reason, needs_tls, relay_host, reset_reason, route_local_frame,
    run_carrier, run_kcp_carrier, run_quic_carrier, run_wss_carrier, stored_certificate,
    stream_ended, udp_ended,
    websocket_scheme, websocket_url, websocket_within_bounds, AgentAction, AgentEvent, CarrierEnd, LocalStreams,
};
use tunnelbridge::agent_config::{
    certificate_account, check_url, fingerprint_account, is_loopback_host, normalize_server_url,
    normalize_within_bounds, server_address, token_account, url_fits, AgentConfig, UrlParts,
};
use tunnelbridge::commands::{
    check_entry, check_for_updates, check_server, check_within_bounds, configure_as, configure_server, create_tunnel,
    credentials, delete_tunnel, mode_changed, refresh_tunnels, request_url, response_error,
    server_configured, set_all_enabled, set_transport_mode, switch_request, tunnel_path,
    tunnels_path,
};
use tunnelbridge::carrier::server_capabilities;
use tunnelbridge::dial::{DialAction, DialEvent, Dialer};
use tunnelbridge::local::{
    open_multiplexed_stream, open_udp_session, LocalAction, LocalEvent, LocalPhase, TlsFault,
};
use tunnelbridge::protocol::{
    AccessMode, ActiveTransport, AgentControlMessage, AgentEnrollmentResponse, ApiError,
    GeoLocation, LocalScheme, Timestamp, TransportMode, Tunnel, TunnelKind, TunnelStatus,
};
use tunnelbridge::reconnect::{Attempt, ReconnectAction, ReconnectEvent, Reconnector};
use tunnelbridge::runtime::{AgentStatus, RuntimeState, Tray};
use tunnelbridge::state::InboundCarrierFrame;
use tunnelbridge::timing::QUIC_CONNECT_SECONDS;
use tunnelbridge::transport_identity::{certificate_base64, create, load, TransportIdentity};
use tunnelbridge::wire::{
    decode_carrier_frame, encode_carrier_frame, CARRIER_FRAME_DATA, CARRIER_FRAME_DATAGRAM,
};

const AT: Timestamp = Timestamp { seconds: 1_700_000_000, nanos: 0 };

fn config(transport_mode: TransportMode) -> AgentConfig {
    AgentConfig {
        server_url: "https://relay.example.com".into(),
        device_name: "Mac".into(),
        installation_id: 7,
        transport_mode,
        quic_port: 443,
        kcp_port: 4000,
    }
}

fn tunnel(id: u128, enabled: bool) -> Tunnel {
    Tunnel {
        id,
        agent_id: 77,
        name: "echo".into(),
        local_host: "127.0.0.1".into(),
        local_port: 9,
        kind: TunnelKind::Tcp,
        local_scheme: LocalScheme::Tcp,
        remote_port: Some(20000),
        hostname: None,
        access_mode: AccessMode::Public,
        allowed_cidrs: vec![],
        enabled,
        status: TunnelStatus::Online,
        created_at: AT,
        updated_at: AT,
    }
}

fn last(state: &RuntimeState) -> (String, String) {
    let entry = &state.events[0];
    (entry.level.clone(), entry.message.clone())
}

#[test]
fn delays_grow_to_a_minute() {
    assert_eq!(backoff(0, 0), (1, 2_000));
    assert_eq!(backoff(1, 7), (2, 4_007));
    assert_eq!(backoff(4, 1_000), (5, 33_000));
    assert_eq!(backoff(5, 0), (6, 60_000));
    assert_eq!(backoff(7, 0), (8, 60_000));
    assert_eq!(backoff(8, 1_000), (8, 61_000));
    assert_eq!(backoff(u32::MAX, 0), (8, 60_000));
}

#[test]
fn an_agent_tries_again_after_its_carrier_fell() {
    let mut state = RuntimeState::new();
    state.config = Some(config(TransportMode::Auto));
    let (agent, action, _) =
        Reconnector::new().next_as(&mut state, ReconnectEvent::Begin { cancelled: false }, AT, 0);
    assert_eq!(action, ReconnectAction::LoadToken(7));
    let (agent, action, tray) = agent.next_as(&mut state, ReconnectEvent::Token("t".into()), AT, 0);
    assert!(matches!(action, ReconnectAction::Run { transport: ActiveTransport::Quic, .. }));
    assert_eq!(
        tray,
        Some(Tray { title: "🟡".into(), tooltip: "TunnelBridge — 正在建立加密控制通道".into() })
    );
    let failed = |reason: &str| ReconnectEvent::Ended {
        end: CarrierEnd::Failed(reason.into()),
        cancelled: false,
    };
    let (agent, action, _) = agent.next_as(&mut state, failed("blocked"), AT, 0);
    assert!(matches!(action, ReconnectAction::Run { transport: ActiveTransport::Wss, .. }));
    assert_eq!(last(&state), ("warn".into(), "QUIC 不可用：blocked，已回退 WSS".into()));
    assert_eq!(state.transport_fallback_reason.as_deref(), Some("QUIC 不可用：blocked"));
    let (agent, action, tray) = agent.next_as(&mut state, failed("down"), AT, 500);
    assert_eq!(action, ReconnectAction::Sleep(2_500));
    assert_eq!(last(&state), ("warn".into(), "连接失败：down".into()));
    assert_eq!(tray.unwrap().title, "🔴");
    assert_eq!((agent.attempt, &agent.at), (1, &Attempt::Idle));
    let (agent, action, _) =
        agent.next(&mut state, ReconnectEvent::Begin { cancelled: true }, AT);
    assert_eq!((action, agent.at), (ReconnectAction::Stop, Attempt::Stopped));
}

#[test]
fn an_agent_stops_without_settings_or_token() {
    let mut state = RuntimeState::new();
    let (agent, action, tray) =
        Reconnector::new().next(&mut state, ReconnectEvent::Begin { cancelled: false }, AT);
    assert_eq!((action, agent.at), (ReconnectAction::Stop, Attempt::Stopped));
    assert_eq!(tray.unwrap().tooltip, "TunnelBridge — 尚未连接服务器");
    state.config = Some(config(TransportMode::Kcp));
    let (agent, _, _) =
        Reconnector::new().next(&mut state, ReconnectEvent::Begin { cancelled: false }, AT);
    let (same, action, _) =
        agent.clone().next(&mut state, ReconnectEvent::Begin { cancelled: false }, AT);
    assert_eq!((&same, action), (&agent, ReconnectAction::Misplaced));
    let (_, action, tray) = agent.next(&mut state, ReconnectEvent::NoToken("locked".into()), AT);
    assert_eq!(action, ReconnectAction::Stop);
    assert_eq!(tray.unwrap().tooltip, "TunnelBridge — 无法读取设备令牌");
    assert_eq!(last(&state), ("error".into(), "locked".into()));
    assert_eq!(state.status, AgentStatus::Error);
}

#[test]
fn only_quic_falls_back() {
    let mut state = RuntimeState::new();
    let end = CarrierEnd::Failed("x".into());
    for mode in [TransportMode::Quic, TransportMode::Kcp, TransportMode::Wss] {
        assert_eq!(run_carrier(&mut state, mode, &end, false, AT), None);
    }
    assert_eq!(run_carrier(&mut state, TransportMode::Auto, &CarrierEnd::Closed, true, AT), None);
    assert_eq!(
        run_carrier(&mut state, TransportMode::Auto, &CarrierEnd::Closed, false, AT),
        Some(ActiveTransport::Wss)
    );
    assert!(state.events.is_empty());
    assert!(carrier_ended(&mut state, AT, CarrierEnd::Closed, true).is_none());
    assert!(carrier_ended(&mut state, AT, CarrierEnd::Closed, false).is_some());
    assert_eq!(last(&state), ("warn".into(), "控制通道已关闭".into()));
}

fn hostless() -> UrlParts {
    UrlParts { scheme: "https".into(), host: None, port: None, text: "https:".into() }
}

#[test]
fn relays_are_reached_at_their_address() {
    assert_eq!(
        websocket_url("https://relay.example.com", "/api/v2/agent/carrier").unwrap(),
        "wss://relay.example.com/api/v2/agent/carrier"
    );
    assert_eq!(websocket_url("http://127.0.0.1:8080", "/x").unwrap(), "ws://127.0.0.1:8080/x");
    assert_eq!(websocket_url("nonsense", "/x").unwrap_err(), "relative URL without a base");
    for url in ["https://relay.example.com", "http://127.0.0.1:8080", "nonsense"] {
        assert_eq!(websocket_within_bounds(url, "/x"), Some(websocket_url(url, "/x")));
    }
    let mut nonsense = config(TransportMode::Auto);
    nonsense.server_url = "nonsense".into();
    assert_eq!(relay_host(&nonsense).unwrap_err(), "relative URL without a base");
    assert_eq!(websocket_scheme("https"), "wss");
    assert_eq!(websocket_scheme("http"), "ws");
    assert_eq!(relay_host(&config(TransportMode::Auto)).unwrap(), "relay.example.com");
    assert_eq!(host_of_parts(Err("bad".into())), Err("bad".into()));
    assert_eq!(host_of_parts(Ok(hostless())), Err("服务器地址缺少主机".into()));
    let mut settings = config(TransportMode::Auto);
    settings.quic_port = 0;
    settings.kcp_port = 4001;
    assert_eq!(carrier_port(&settings, ActiveTransport::Quic), 443);
    assert_eq!(carrier_port(&settings, ActiveTransport::Kcp), 4001);
    settings.kcp_port = 0;
    assert_eq!(carrier_port(&settings, ActiveTransport::Kcp), 4000);
}

#[test]
fn addresses_of_relays_are_brought_into_form() {
    let form = |value: &str| normalize_server_url(value);
    assert_eq!(form(" https://Relay.example.com/a?b=c#d ").unwrap(), "https://relay.example.com");
    assert_eq!(form("http://localhost:8080/").unwrap(), "http://localhost:8080");
    assert_eq!(form("https://relay.example.com:443").unwrap(), "https://relay.example.com");
    let https = "服务器必须使用 HTTPS；仅本机开发地址允许 HTTP";
    assert_eq!(form("http://10.0.0.1").unwrap_err(), https);
    assert_eq!(form("ftp://relay.example.com").unwrap_err(), https);
    assert_eq!(form("relay").unwrap_err(), "服务器地址格式无效");
    for (value, kept) in [
        ("https://user@relay.example.com:8443/a/b/?c#d", "https://user@relay.example.com:8443"),
        ("HTTPS://[2001:DB8::1]:8443//", "https://[2001:db8::1]:8443"),
        ("http://127.0.0.1:80", "http://127.0.0.1"),
    ] {
        assert_eq!(form(value).unwrap(), kept);
        assert_eq!(form(kept).unwrap(), kept);
    }
    assert_eq!(normalize_within_bounds("relay"), Some(form("relay")));
    assert_eq!(normalize_within_bounds("https://relay/x?y#z"), Some(Ok("https://relay".into())));
    assert!(url_fits("https://relay/", 0) && url_fits("https://relay/", 0xffff_ffff - 14));
    assert!(!url_fits("https://relay/", 0xffff_ffff - 13));
    assert!(url_fits("https://relay/?query", 0xffff_ffff - 14));
    assert!(url_fits("https://relay/#fragment?", 0xffff_ffff - 14));
    assert!(!url_fits("https://relay/?query#", 0xffff_ffff - 14));
    assert_eq!(check_url(&Ok(hostless())), Some("服务器地址缺少主机名".into()));
    assert_eq!(check_url(&Err("bad".into())), Some("服务器地址格式无效".into()));
    let bare = Some("https:".to_owned());
    assert_eq!(server_address(Ok(hostless()), bare.clone()), Err("服务器地址缺少主机名".into()));
    assert_eq!(server_address(Err("bad".into()), bare), Err("服务器地址格式无效".into()));
    let parts = UrlParts { host: Some("relay".into()), ..hostless() };
    assert_eq!(server_address(Ok(parts), Some("https://relay/".into())).unwrap(), "https://relay");
    assert!(is_loopback_host("localhost") && is_loopback_host("127.1.2.3") && is_loopback_host("::1"));
    assert!(!is_loopback_host("[::1]") && !is_loopback_host("Localhost"));
    assert_eq!(token_account(7), "00000000-0000-0000-0000-000000000007");
    assert_eq!(
        fingerprint_account(7),
        "00000000-0000-0000-0000-000000000007:transport-fingerprint"
    );
    assert_eq!(
        certificate_account(7),
        "00000000-0000-0000-0000-000000000007:transport-certificate"
    );
    let mut names: Vec<String> = vec![];
    for id in [7, 8] {
        for name in [token_account(id), fingerprint_account(id), certificate_account(id)] {
            assert!(!names.contains(&name));
            names.push(name);
        }
    }
}

fn identity() -> TransportIdentity {
    let (certificate, key) = create().unwrap();
    load(certificate.as_bytes(), key.into_bytes()).unwrap()
}

const MISMATCH: &str = "传输证书指纹与注册记录不匹配";

#[test]
fn pinned_certificates_must_fit_their_fingerprint() {
    let relay = identity();
    let text = format!(" {}\n", certificate_base64(Some(&relay)).unwrap());
    let der = stored_certificate(ActiveTransport::Quic, &text).unwrap();
    assert_eq!(der, relay.certificate);
    assert_eq!(check_pin(&der, &relay.fingerprint), Ok(()));
    assert_eq!(check_pin(&der, "other"), Err(MISMATCH.into()));
    assert_eq!(check_pin(&identity().certificate, &relay.fingerprint), Err(MISMATCH.into()));
    assert_eq!(check_pin(b"abc", &relay.fingerprint), Err(MISMATCH.into()));
    assert_eq!(
        stored_certificate(ActiveTransport::Kcp, "Y*Jj"),
        Err("Invalid symbol 42, offset 1.".into())
    );
    assert_eq!(
        stored_certificate(ActiveTransport::Quic, "Y*Jj"),
        Err("解析固定的传输证书: Invalid symbol 42, offset 1.".into())
    );
    assert!(stored_certificate(ActiveTransport::Kcp, "YWJj=").is_err());
}

fn dialer(transport: ActiveTransport) -> Dialer {
    let mut dialer = Dialer::new(config(TransportMode::Auto), "token".into(), transport);
    assert_eq!(
        dialer.next(DialEvent::Begin),
        DialAction::LoadCertificate(certificate_account(7))
    );
    dialer
}

#[test]
fn nothing_goes_out_before_the_certificate_is_known() {
    let relay = identity();
    let stored = certificate_base64(Some(&relay)).unwrap();
    for (transport, port, limit) in [
        (ActiveTransport::Quic, 443, Some(QUIC_CONNECT_SECONDS)),
        (ActiveTransport::Kcp, 4000, None),
    ] {
        let mut dialer = dialer(transport);
        for early in [DialEvent::Trusted, DialEvent::Resolved(true), DialEvent::Connected, DialEvent::Greeted] {
            assert_eq!(dialer.next(early), DialAction::Misplaced);
        }
        assert_eq!(
            dialer.next(DialEvent::Secret(stored.clone())),
            DialAction::LoadFingerprint(fingerprint_account(7))
        );
        assert_eq!(dialer.next(DialEvent::Resolved(true)), DialAction::Misplaced);
        assert_eq!(
            dialer.next(DialEvent::Secret(relay.fingerprint.clone())),
            DialAction::Trust(relay.certificate.clone())
        );
        assert_eq!(
            dialer.next(DialEvent::Trusted),
            DialAction::Resolve { host: "relay.example.com".into(), port }
        );
        assert_eq!(
            dialer.next(DialEvent::Resolved(true)),
            DialAction::Connect { name: "tunnelbridge-transport".into(), limit }
        );
        let greeting = direct_greeting(&config(TransportMode::Auto), "token", transport);
        assert_eq!(dialer.next(DialEvent::Connected), DialAction::Greet(greeting));
        assert_eq!(dialer.next(DialEvent::Greeted), DialAction::Online);
        assert_eq!(dialer.next(DialEvent::Begin), DialAction::Misplaced);
    }
}

#[test]
fn carriers_that_do_not_come_up_say_why() {
    let relay = identity();
    let stored = certificate_base64(Some(&relay)).unwrap();
    let fail = |reason: &str| DialAction::Fail(reason.into());
    let mut unread = dialer(ActiveTransport::Kcp);
    assert_eq!(
        unread.next(DialEvent::Secret("Y*Jj".into())),
        fail("Invalid symbol 42, offset 1.")
    );
    let mut other = dialer(ActiveTransport::Quic);
    other.next(DialEvent::Secret(stored.clone()));
    assert_eq!(other.next(DialEvent::Secret(identity().fingerprint)), fail(MISMATCH));
    assert_eq!(other.next(DialEvent::Secret(relay.fingerprint.clone())), DialAction::Misplaced);
    assert_eq!(dialer(ActiveTransport::Quic).next(DialEvent::Failed("locked".into())), fail("locked"));
    let trusted = |transport: ActiveTransport| {
        let mut dialer = dialer(transport);
        dialer.next(DialEvent::Secret(stored.clone()));
        dialer.next(DialEvent::Secret(relay.fingerprint.clone()));
        dialer
    };
    let mut nowhere = trusted(ActiveTransport::Kcp);
    nowhere.config.server_url = "nonsense".into();
    assert_eq!(nowhere.next(DialEvent::Trusted), fail("relative URL without a base"));
    let mut unresolved = trusted(ActiveTransport::Kcp);
    unresolved.next(DialEvent::Trusted);
    assert_eq!(unresolved.next(DialEvent::Resolved(false)), fail("无法解析 KCP 服务器地址"));
    let mut unresolved = trusted(ActiveTransport::Quic);
    unresolved.next(DialEvent::Trusted);
    assert_eq!(unresolved.next(DialEvent::Resolved(false)), fail("无法解析服务器地址"));
    let mut late = trusted(ActiveTransport::Quic);
    late.next(DialEvent::Trusted);
    late.next(DialEvent::Resolved(true));
    assert_eq!(late.next(DialEvent::TimedOut), fail("QUIC 连接超时"));
}

#[test]
fn agents_greet_with_what_they_can() {
    let transports = |message: AgentControlMessage| match message {
        AgentControlMessage::Hello { protocol_version: 1, agent_id: 7, name, capabilities, config_version: 0 } => {
            assert_eq!(name, "Mac");
            assert_eq!(capabilities.tunnel_kinds, vec![TunnelKind::Tcp, TunnelKind::Udp, TunnelKind::Web]);
            capabilities.transports
        }
        other => panic!("{other:?}"),
    };
    let settings = config(TransportMode::Auto);
    assert_eq!(transports(hello(&settings, ActiveTransport::Wss)), vec![ActiveTransport::Wss]);
    assert_eq!(transports(hello(&settings, ActiveTransport::Kcp)), vec![ActiveTransport::Kcp]);
    let auth = direct_greeting(&settings, "secret", ActiveTransport::Quic);
    assert_eq!(auth.token, "secret");
    assert_eq!(transports(auth.hello), vec![ActiveTransport::Quic, ActiveTransport::Wss]);
}

#[test]
fn agents_do_as_the_relay_says() {
    let mut state = RuntimeState::new();
    let streams = LocalStreams::new();
    let tray = carrier_online(&mut state, ActiveTransport::Quic, AT);
    assert_eq!(tray.title, "🟢");
    assert_eq!(last(&state), ("info".into(), "已通过 QUIC 连接中继服务器".into()));
    let welcome = |protocol_version: u16, transport: Option<ActiveTransport>| {
        AgentEvent::Control(AgentControlMessage::Welcome {
            protocol_version,
            server_time: AT,
            capabilities: server_capabilities(),
            transport,
        })
    };
    let auto = TransportMode::Auto;
    assert_eq!(run_kcp_carrier(&mut state, &streams, auto, welcome(1, None), AT), AgentAction::Wait);
    assert_eq!(state.active_transport, Some(ActiveTransport::Quic));
    assert_eq!(run_wss_carrier(&mut state, &streams, auto, welcome(1, None), AT), AgentAction::Wait);
    assert_eq!(state.active_transport, Some(ActiveTransport::Wss));
    assert_eq!(
        run_wss_carrier(&mut state, &streams, auto, welcome(3, None), AT),
        AgentAction::Fail { close: false, reason: "协议版本不兼容：服务器 3，客户端 1".into() }
    );
    assert_eq!(
        run_quic_carrier(&mut state, &streams, auto, welcome(3, None), AT),
        AgentAction::Fail { close: false, reason: "协议版本不兼容".into() }
    );
    let sync = AgentControlMessage::ConfigSync { tunnels: vec![tunnel(1, true)] };
    dispatch_control_message(&mut state, ActiveTransport::Wss, sync, AT);
    assert_eq!(state.tunnels, vec![tunnel(1, true)]);
    let error = AgentControlMessage::Error { code: "c".into(), message: "m".into() };
    dispatch_control_message(&mut state, ActiveTransport::Wss, error, AT);
    assert_eq!(last(&state), ("error".into(), "服务器错误 c：m".into()));
    let step = |state: &mut RuntimeState, transport: ActiveTransport, event: AgentEvent| {
        agent_step(state, &LocalStreams::new(), transport, TransportMode::Auto, event, AT)
    };
    assert_eq!(
        step(&mut state, ActiveTransport::Kcp, AgentEvent::Heartbeat),
        AgentAction::Send(AgentControlMessage::Ping { sent_at: AT })
    );
    assert_eq!(
        step(&mut state, ActiveTransport::Wss, AgentEvent::PeerPing),
        AgentAction::Send(AgentControlMessage::Pong { sent_at: AT })
    );
    assert_eq!(
        step(&mut state, ActiveTransport::Wss, AgentEvent::Probe),
        AgentAction::Fail { close: true, reason: "定期重新探测 QUIC".into() }
    );
    assert_eq!(step(&mut state, ActiveTransport::Quic, AgentEvent::Probe), AgentAction::Wait);
    assert_eq!(step(&mut state, ActiveTransport::Wss, AgentEvent::Closed), AgentAction::End { close: false });
    assert_eq!(step(&mut state, ActiveTransport::Wss, AgentEvent::Cancelled), AgentAction::End { close: true });
}

#[test]
fn agents_take_the_streams_they_are_offered() {
    let mut state = RuntimeState::new();
    let mut streams = LocalStreams::new();
    let place = Some(GeoLocation { country_code: "US".into(), country_name: "United States".into() });
    let open = AgentControlMessage::OpenConnection {
        connection_id: 5,
        tunnel: tunnel(1, true),
        peer_addr: "203.0.113.7:5555".into(),
        peer_location: place.clone(),
        ticket: "ticket".into(),
        expires_at: AT,
    };
    assert_eq!(
        dispatch_control_message(&mut state, ActiveTransport::Wss, open.clone(), AT),
        AgentAction::Open { connection_id: 5, tunnel: tunnel(1, true), ticket: "ticket".into() }
    );
    assert_eq!(last(&state), ("info".into(), "echo 收到来自 203.0.113.7:5555 的连接".into()));
    assert_eq!(state.events[0].peer_location, place);
    assert_eq!(state.metrics.active_connections, 1);
    dispatch_control_message(&mut state, ActiveTransport::Quic, open, AT);
    assert_eq!(state.metrics.active_connections, 1);
    let frame = encode_carrier_frame(CARRIER_FRAME_DATA, 5, b"x");
    assert_eq!(route_local_frame(&streams, &frame), AgentAction::Wait);
    assert_eq!(
        accept(&mut streams, 5, 9, "ticket".into()),
        AgentControlMessage::ConnectionAck {
            connection_id: 5,
            accepted: true,
            error: None,
            ticket: Some("ticket".into()),
        }
    );
    assert_eq!(
        route_local_frame(&streams, &frame),
        AgentAction::Deliver(9, InboundCarrierFrame { kind: CARRIER_FRAME_DATA, payload: b"x".to_vec() })
    );
    streams.remove(5);
    assert_eq!(route_local_frame(&streams, &frame), AgentAction::Wait);
    stream_ended(&mut state, ActiveTransport::Wss, Some("broken".into()), AT);
    assert_eq!(last(&state), ("error".into(), "转发连接失败：broken".into()));
    assert_eq!((state.metrics.active_connections, state.metrics.failed_connections), (0, 1));
    stream_ended(&mut state, ActiveTransport::Wss, None, AT);
    assert_eq!((state.metrics.active_connections, state.metrics.failed_connections), (0, 1));
}

#[test]
fn agents_relay_datagrams() {
    let mut state = RuntimeState::new();
    let mut streams = LocalStreams::new();
    let open = AgentControlMessage::OpenUdpSession {
        session_id: 6,
        tunnel: tunnel(1, true),
        peer_addr: "203.0.113.7:5555".into(),
        peer_location: None,
        ticket: "ticket".into(),
        expires_at: AT,
    };
    assert_eq!(
        dispatch_control_message(&mut state, ActiveTransport::Kcp, open, AT),
        AgentAction::OpenUdp { session_id: 6, tunnel: tunnel(1, true), ticket: "ticket".into() }
    );
    assert_eq!(last(&state), ("info".into(), "echo 收到来自 203.0.113.7:5555 的 UDP 会话".into()));
    let declined = |udp: bool| match decline(6, "ticket".into(), "refused", udp) {
        AgentControlMessage::ConnectionAck { connection_id: 6, accepted: false, error, .. } => error.unwrap(),
        other => panic!("{other:?}"),
    };
    assert_eq!(declined(true), "连接本地 UDP 目标失败：refused");
    assert_eq!(declined(false), "连接本地目标失败：refused");
    assert_eq!(
        decode_carrier_frame(&datagram_frame(6, b"q")),
        Some((CARRIER_FRAME_DATAGRAM, 6, b"q".to_vec()))
    );
    accept(&mut streams, 6, 9, "ticket".into());
    udp_ended(&mut state, &mut streams, 6, Some("idle".into()), AT);
    assert_eq!(last(&state), ("error".into(), "UDP 转发失败：idle".into()));
    assert!(streams.streams.contains_key(&6));
    udp_ended(&mut state, &mut streams, 6, None, AT);
    assert!(!streams.streams.contains_key(&6));
    count_up(&mut state, 3);
    count_down(&mut state, 4);
    assert_eq!((state.metrics.bytes_up, state.metrics.bytes_down), (3, 4));
    assert_eq!(idle_reason(true), "UDP 会话空闲超时");
    assert_eq!(idle_reason(false), "连接空闲超时");
    assert_eq!(reset_reason(), "服务端重置了逻辑流");
    let mut web = tunnel(1, true);
    assert!(!needs_tls(&web));
    web.kind = TunnelKind::Web;
    web.local_scheme = LocalScheme::Https;
    assert!(needs_tls(&web));
}

#[test]
fn served_connections_go_from_offer_to_end() {
    let mut state = RuntimeState::new();
    let mut streams = LocalStreams::new();
    state.metrics.active_connections = 1;
    let wss = ActiveTransport::Wss;
    let stream = open_multiplexed_stream(5, tunnel(1, true), "ticket".into());
    let (stream, action) = stream.next(&mut state, &mut streams, wss, LocalEvent::Connected(9), AT);
    assert_eq!(
        action,
        LocalAction::Send(AgentControlMessage::ConnectionAck {
            connection_id: 5,
            accepted: true,
            error: None,
            ticket: Some("ticket".into()),
        })
    );
    assert_eq!(streams.streams.get(&5), Some(&9));
    let (same, action) = stream.clone().next(&mut state, &mut streams, wss, LocalEvent::Secured, AT);
    assert_eq!((&same, action), (&stream, LocalAction::Misplaced));
    let (stream, action) = stream.next(&mut state, &mut streams, wss, LocalEvent::Sent(true), AT);
    assert_eq!(action, LocalAction::Bridge);
    let ended = LocalEvent::Ended(Some("broken".into()));
    let (stream, action) = stream.next(&mut state, &mut streams, wss, ended, AT);
    assert_eq!((action, stream.phase), (LocalAction::Finish, LocalPhase::Done));
    assert_eq!(last(&state), ("error".into(), "转发连接失败：broken".into()));
    assert!(!streams.streams.contains_key(&5));
    assert_eq!((state.metrics.active_connections, state.metrics.failed_connections), (0, 1));
}

#[test]
fn targets_that_cannot_be_reached_are_declined() {
    let mut state = RuntimeState::new();
    let mut streams = LocalStreams::new();
    let quic = ActiveTransport::Quic;
    let stream = open_multiplexed_stream(5, tunnel(1, true), "ticket".into());
    let refused = LocalEvent::Refused("refused".into());
    let (stream, action) = stream.next(&mut state, &mut streams, quic, refused.clone(), AT);
    assert_eq!(action, LocalAction::Send(decline(5, "ticket".into(), "refused", false)));
    let (_, action) = stream.clone().next(&mut state, &mut streams, quic, LocalEvent::Sent(true), AT);
    assert_eq!(action, LocalAction::Finish);
    assert_eq!(
        last(&state),
        ("error".into(), "转发连接失败：连接本地目标 127.0.0.1:9: refused".into())
    );
    stream.next(&mut state, &mut streams, quic, LocalEvent::Sent(false), AT);
    assert_eq!(last(&state), ("error".into(), "转发连接失败：channel closed".into()));
    let session = open_udp_session(6, tunnel(1, true), "ticket".into());
    let (session, action) = session.next(&mut state, &mut streams, quic, refused, AT);
    assert_eq!(action, LocalAction::Send(decline(6, "ticket".into(), "refused", true)));
    session.next(&mut state, &mut streams, quic, LocalEvent::Sent(true), AT);
    assert_eq!(last(&state), ("error".into(), "UDP 转发失败：refused".into()));
    let session = open_udp_session(6, tunnel(1, true), "ticket".into());
    let unbound = LocalEvent::Unbound("no socket".into());
    let (_, action) = session.next(&mut state, &mut streams, quic, unbound, AT);
    assert_eq!(action, LocalAction::Finish);
    assert_eq!(last(&state), ("error".into(), "UDP 转发失败：no socket".into()));
    assert_eq!(streams.streams.len(), 0);
}

#[test]
fn targets_that_want_tls_are_secured_first() {
    let mut web = tunnel(1, true);
    web.kind = TunnelKind::Web;
    web.local_scheme = LocalScheme::Https;
    let mut state = RuntimeState::new();
    let mut streams = LocalStreams::new();
    let kcp = ActiveTransport::Kcp;
    let stream = open_multiplexed_stream(5, web, "ticket".into());
    let (stream, _) = stream.next(&mut state, &mut streams, kcp, LocalEvent::Connected(9), AT);
    let (stream, action) = stream.next(&mut state, &mut streams, kcp, LocalEvent::Sent(true), AT);
    assert_eq!(action, LocalAction::Secure);
    let (_, action) = stream.clone().next(&mut state, &mut streams, kcp, LocalEvent::Secured, AT);
    assert_eq!(action, LocalAction::Bridge);
    let name = LocalEvent::Unsecured(TlsFault::Name, "bad".into());
    stream.clone().next(&mut state, &mut streams, kcp, name, AT);
    assert_eq!(
        last(&state),
        ("error".into(), "转发连接失败：本地 HTTPS 主机名无法用于证书校验: bad".into())
    );
    let handshake = LocalEvent::Unsecured(TlsFault::Handshake, "bad".into());
    stream.next(&mut state, &mut streams, kcp, handshake, AT);
    assert_eq!(
        last(&state),
        ("error".into(), "转发连接失败：本地 HTTPS 证书校验失败: bad".into())
    );
    assert!(streams.streams.contains_key(&5));
}

#[test]
fn the_log_keeps_the_newest_lines() {
    let mut state = RuntimeState::new();
    for n in 0..205 {
        state.log(AT, "info", &format!("{n}"));
    }
    assert_eq!(state.events.len(), 200);
    assert_eq!(state.events[0].message, "204");
    assert_eq!(state.events[199].message, "5");
    state.tunnels = vec![tunnel(1, true)];
    state.config = Some(config(TransportMode::Kcp));
    let shown = state.snapshot();
    assert!(shown.configured);
    assert_eq!(shown.server_url.as_deref(), Some("https://relay.example.com"));
    assert_eq!(shown.transport_mode, Some(TransportMode::Kcp));
    assert_eq!((shown.events.len(), shown.tunnels), (200, vec![tunnel(1, true)]));
    assert!(!RuntimeState::new().snapshot().configured);
}

#[test]
fn settings_come_from_enrolment() {
    let token = "01234567890123456789";
    let entry = check_server(" https://relay.example.com/x ", " 01234567890123456789 ", " Mac ").unwrap();
    assert_eq!(entry.server_url, "https://relay.example.com");
    assert_eq!((entry.token.as_str(), entry.device_name.as_str()), (token, "Mac"));
    assert_eq!(check_server("https://r.test", "short", "Mac").unwrap_err(), "设备令牌格式无效");
    assert_eq!(
        check_within_bounds("https://r.test", "short", "Mac"),
        Some(Err("设备令牌格式无效".into()))
    );
    assert_eq!(
        check_server("https://r.test", token, " ").unwrap_err(),
        "设备名称需要包含 1 到 80 个字符"
    );
    assert_eq!(check_entry(Err("no".into()), token, "Mac").unwrap_err(), "no");
    let answer = AgentEnrollmentResponse {
        tunnels: vec![],
        transport_fingerprint: "f".into(),
        transport_certificate_der: "d".into(),
        quic_port: 1,
        kcp_port: 2,
        capabilities: server_capabilities(),
    };
    let mut state = RuntimeState::new();
    let made = configure_as(&state, &entry, &answer, 9);
    assert_eq!((made.installation_id, made.transport_mode), (9, TransportMode::Auto));
    assert_eq!((made.quic_port, made.kcp_port), (1, 2));
    assert_ne!(
        configure_server(&state, &entry, &answer).installation_id,
        configure_server(&state, &entry, &answer).installation_id
    );
    assert_eq!(credentials(&state).unwrap_err(), "尚未配置服务器");
    assert!(set_transport_mode(&state, TransportMode::Kcp).is_err());
    server_configured(&mut state, made, vec![tunnel(1, true)], AT);
    assert_eq!(last(&state), ("info".into(), "服务器配置已验证并保存".into()));
    let changed = set_transport_mode(&state, TransportMode::Kcp).unwrap();
    mode_changed(&mut state, changed, AT);
    assert_eq!(last(&state), ("info".into(), "承载策略已切换为 Kcp".into()));
    let again = configure_as(&state, &entry, &answer, 10);
    assert_eq!((again.installation_id, again.transport_mode), (9, TransportMode::Kcp));
}

#[test]
fn requests_name_their_tunnels() {
    assert_eq!(tunnels_path(), "/api/v1/agent/tunnels");
    assert_eq!(tunnel_path(1), "/api/v1/agent/tunnels/00000000-0000-0000-0000-000000000001");
    assert_eq!(request_url("https://r.test", "/x"), "https://r.test/x");
    let body = ApiError { code: "c".into(), message: "m".into() };
    assert_eq!(response_error(401, "401 Unauthorized", Some(body)), "m");
    assert_eq!(response_error(401, "401 Unauthorized", None), "设备令牌无效或已撤销");
    assert_eq!(response_error(500, "500 Internal Server Error", None), "服务器返回 500 Internal Server Error");
    let mut state = RuntimeState::new();
    refresh_tunnels(&mut state, vec![tunnel(1, true), tunnel(2, false), tunnel(3, true)]);
    assert_eq!(set_all_enabled(&state, true), vec![2]);
    assert_eq!(set_all_enabled(&state, false), vec![1, 3]);
    let request = switch_request(true);
    assert_eq!((request.enabled, request.name, request.remote_port), (Some(true), None, None));
    create_tunnel(&mut state, AT);
    assert_eq!(last(&state), ("info".into(), "已创建并同步新隧道".into()));
    delete_tunnel(&mut state, AT);
    assert_eq!(last(&state), ("info".into(), "隧道已删除，远程端口已释放".into()));
    assert_eq!(check_for_updates(Some("1.2.3")), "UPDATE_AVAILABLE:1.2.3");
    assert_eq!(check_for_updates(None), "当前已是最新版本");
}
