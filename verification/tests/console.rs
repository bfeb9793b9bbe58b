use tunnelbridge::api::{
    admin_metrics, admin_settings, agent_enrollment, audit, audit_limit, authorize, begin_login,
    change_password, check_delete, check_new_password, cleanup, create_device, create_device_as,
    decorate_tunnel, delete_device_permanently, inner_headers, list_audit, list_connections, list_devices, login,
    login_as, logout, me, original_uri, parse_optional_time, parse_time, password_changed, rate_key,
    require_trusted_proxy, revoke_device, stored_device, target_unavailable, tls_ask, tunnel_audit,
    tunnel_changed, tunnel_deleted, tunnel_ids, web_proxy, web_request_done, Actor, Admin, AuditRow,
    ChangePasswordRequest, DeviceListRow, LoginOutcome, TunnelAct,
};
use tunnelbridge::auth::{
    clear_session_cookie, cookie_value, create_session, device_key,
    login_allowed, require_admin, require_device, session_cookie, Header, Headers, Method, StoredDevice,
};
use tunnelbridge::carrier::attach_as;
use tunnelbridge::config::Config;
use tunnelbridge::der::subject_public_key_info;
use tunnelbridge::error::AppError;
use tunnelbridge::gateway::{start_listener, ListenerChange};
use tunnelbridge::net::{parse_cidr, parse_ip};
use tunnelbridge::protocol::{
    AccessMode, ActiveTransport, CreateDeviceRequest, LocalScheme, LoginRequest, Timestamp, Tunnel,
    TunnelKind, TunnelStatus,
};
use tunnelbridge::rows::tunnel_row;
use tunnelbridge::secrets::{hash_password, hash_token, verify_password};
use tunnelbridge::socket::parse_socket;
use tunnelbridge::state::{AdminSession, AppState, PendingConnection};
use tunnelbridge::transport_identity::{
    certificate, certificate_base64, certificate_fingerprint, create, fingerprint, identity_of, load,
    needs_certificate, private_key, transport_name, KeyDer,
};

const SECOND: u128 = 1_000_000_000;
const WALL: Timestamp = Timestamp { seconds: 1_700_000_000, nanos: 0 };
const DEVICE: &str = "00000000-0000-0000-0000-00000000004d";

fn config() -> Config {
    Config {
        listen_addr: parse_socket("127.0.0.1:0").unwrap(),
        database_url: "sqlite://test.db?mode=rwc".into(),
        admin_dist: "missing".into(),
        admin_password: Some("integration-test-password".into()),
        port_start: 20000,
        port_end: 20009,
        ticket_ttl: 5,
        connect_timeout: 2,
        idle_timeout: 6,
        session_ttl: 60,
        audit_retention_days: 30,
        secure_cookies: false,
        geoip_url: "off".into(),
        web_base_domain: "tunnel.test".into(),
        quic_port: 443,
        quic_listen_port: 7443,
        kcp_port: 4000,
        udp_session_timeout: 2,
        transport_cert_dir: "transport".into(),
        trusted_proxy_cidrs: vec![parse_cidr("127.0.0.0/8").unwrap()],
    }
}

fn headers() -> Headers {
    Headers {
        cookie: Header::Absent,
        csrf_token: Header::Absent,
        origin: Header::Absent,
        host: Header::Absent,
        authorization: Header::Absent,
        real_ip: Header::Absent,
        forwarded_for: Header::Absent,
        forwarded_host: Header::Absent,
    }
}

fn text(value: &str) -> Header {
    Header::Text(value.to_owned())
}

fn tunnel(kind: TunnelKind) -> Tunnel {
    Tunnel {
        id: 1,
        agent_id: 77,
        name: "echo".into(),
        local_host: "127.0.0.1".into(),
        local_port: 9,
        kind,
        local_scheme: if kind == TunnelKind::Web { LocalScheme::Http } else { LocalScheme::Tcp },
        remote_port: if kind == TunnelKind::Web { None } else { Some(20000) },
        hostname: if kind == TunnelKind::Web { Some("echo.tunnel.test".into()) } else { None },
        access_mode: AccessMode::Public,
        allowed_cidrs: vec![],
        enabled: true,
        status: TunnelStatus::Starting,
        created_at: WALL,
        updated_at: WALL,
    }
}

/// Signs in, and hands back the cookie and the token that go with the session.
fn signed_in(state: &mut AppState) -> (String, String) {
    let outcome = login_as(state, &"k".into(), "admin".into(), true, "sid".into(), "csrf".into(), 0);
    let LoginOutcome::Granted { response, cookie, .. } = outcome else { panic!("denied") };
    (cookie.split(';').next().unwrap().to_owned(), response.csrf_token)
}

fn admin(state: &mut AppState) -> Admin {
    let (cookie, _) = signed_in(state);
    authorize(state, &Headers { cookie: text(&cookie), ..headers() }, Method::Get, 0).unwrap()
}

#[test]
fn admin_mutations_require_a_valid_csrf_token() {
    let mut state = AppState::new(config());
    let hash = hash_password("integration-test-password").unwrap();
    let request = |password: &str| LoginRequest { username: "admin".into(), password: password.into() };
    let denied = login(&mut state, &"k".into(), request("wrong"), Some(hash.clone()), 0);
    assert_eq!(
        denied,
        LoginOutcome::Denied(audit("auth.login_failed", "admin", "invalid credentials"))
    );
    let denied = login(&mut state, &"k".into(), request("integration-test-password"), None, 0);
    assert!(matches!(denied, LoginOutcome::Denied(_)));
    let granted = login(&mut state, &"k".into(), request("integration-test-password"), Some(hash), 0);
    let LoginOutcome::Granted { response, cookie, audit: entry } = granted else {
        panic!("denied")
    };
    assert_eq!(entry, audit("auth.login", "admin", "administrator signed in"));
    assert_eq!(response.csrf_token.len(), 32);
    let cookie = cookie.split(';').next().unwrap().to_owned();
    let mut sent = Headers {
        cookie: text(&cookie),
        origin: text("http://127.0.0.1:8080"),
        host: text("127.0.0.1:8080"),
        ..headers()
    };
    assert_eq!(authorize(&mut state, &sent, Method::Post, 0).unwrap_err(), AppError::Forbidden);
    assert!(authorize(&mut state, &sent, Method::Get, 0).is_ok());
    sent.csrf_token = text("wrong");
    assert_eq!(authorize(&mut state, &sent, Method::Post, 0).unwrap_err(), AppError::Forbidden);
    sent.csrf_token = text(&response.csrf_token);
    let admin = authorize(&mut state, &sent, Method::Post, 0).unwrap();
    let made = create_device(&admin, CreateDeviceRequest { name: "csrf-test".into() }, WALL).unwrap();
    assert_eq!(made.response.name, "csrf-test");
    sent.origin = text("http://elsewhere.test");
    assert_eq!(authorize(&mut state, &sent, Method::Delete, 0).unwrap_err(), AppError::Forbidden);
    sent.origin = text("not an origin");
    assert_eq!(authorize(&mut state, &sent, Method::Patch, 0).unwrap_err(), AppError::Forbidden);
    sent.origin = text("HTTP://LOCALHOST");
    sent.host = text("localhost");
    assert!(authorize(&mut state, &sent, Method::Put, 0).is_ok());
    sent.origin = Header::Opaque;
    assert!(authorize(&mut state, &sent, Method::Put, 0).is_ok());
}

#[test]
fn sessions_end() {
    let mut state = AppState::new(config());
    let (cookie, csrf) = signed_in(&mut state);
    let sent = Headers { cookie: text(&cookie), csrf_token: text(&csrf), ..headers() };
    let last = 60 * SECOND - 1;
    assert_eq!(
        require_admin(&mut state, &sent, Method::Get, last),
        Ok(("admin".to_owned(), csrf.clone()))
    );
    assert_eq!(require_admin(&mut state, &sent, Method::Get, last + 1), Err(AppError::Unauthorized));
    assert_eq!(state.sessions.len(), 0);
    assert_eq!(require_admin(&mut state, &headers(), Method::Get, 0), Err(AppError::Unauthorized));

    signed_in(&mut state);
    let (entry, cleared) = logout(&mut state, &sent, 0).unwrap();
    assert_eq!(entry, audit("auth.logout", "admin", "administrator signed out"));
    assert_eq!(cleared, "tb_session=; Path=/; HttpOnly; SameSite=Strict; Max-Age=0");
    assert_eq!(logout(&mut state, &sent, 0), Err(AppError::Unauthorized));
}

#[test]
fn cookies_say_how_long_they_last() {
    let mut config = config();
    assert_eq!(
        session_cookie(&config, "abc"),
        "tb_session=abc; Path=/; HttpOnly; SameSite=Strict; Max-Age=60"
    );
    config.secure_cookies = true;
    assert_eq!(
        session_cookie(&config, "abc"),
        "tb_session=abc; Path=/; HttpOnly; SameSite=Strict; Max-Age=60; Secure"
    );
    assert_eq!(
        clear_session_cookie(&config),
        "tb_session=; Path=/; HttpOnly; SameSite=Strict; Max-Age=0; Secure"
    );
    let read = |value: &str| cookie_value(&text(value), "tb_session");
    assert_eq!(read("a=1;tb_session=x=y; tb_session=z"), Some("x=y".into()));
    assert_eq!(read("tb_session"), None);
    assert_eq!(read("xtb_session=1"), None);
    assert_eq!(cookie_value(&Header::Opaque, "tb_session"), None);
    let mut state = AppState::new(config);
    let (id, csrf) = create_session(&mut state, "admin".into(), 0);
    assert_eq!((id.len(), csrf.len()), (43, 32));
    assert_eq!(state.sessions.get(&id).unwrap().csrf_token, csrf);
}

#[test]
fn five_attempts_a_minute_are_let_through() {
    let mut state = AppState::new(config());
    for _ in 0..5 {
        assert!(login_allowed(&mut state, "k", 0));
    }
    assert!(!login_allowed(&mut state, "k", 60 * SECOND));
    assert!(login_allowed(&mut state, "other", 0));
    assert!(login_allowed(&mut state, "k", 60 * SECOND + 1));
    let sent = Headers { real_ip: text("9.9.9.9"), ..headers() };
    let peer = parse_ip("127.0.0.1").unwrap();
    for _ in 0..5 {
        assert_eq!(begin_login(&mut state, &sent, peer, 0), Ok("9.9.9.9".into()));
    }
    let (status, body) = begin_login(&mut state, &sent, peer, 0).unwrap_err();
    assert_eq!(status, 429);
    assert_eq!((body.code.as_str(), body.message.as_str()), ("rate_limited", "Try again in one minute"));
    let outcome =
        login_as(&mut state, &"9.9.9.9".into(), "a".into(), true, "s".into(), "c".into(), 0);
    assert!(matches!(outcome, LoginOutcome::Granted { .. }));
    assert!(begin_login(&mut state, &sent, peer, 0).is_ok());
    let forwarded = Headers { real_ip: text("x"), forwarded_for: text("8.8.8.8, 1.1.1.1"), ..headers() };
    assert_eq!(rate_key(&forwarded, peer), "8.8.8.8");
    assert_eq!(rate_key(&headers(), peer), "127.0.0.1");
}

#[test]
fn devices_are_known_by_their_token() {
    let mut state = AppState::new(config());
    let admin = admin(&mut state);
    let request = |name: &str| CreateDeviceRequest { name: name.into() };
    let made = create_device_as(&admin, request(" Mac "), 77, "token".into(), WALL).unwrap();
    assert_eq!((made.id.as_str(), made.name.as_str()), (DEVICE, "Mac"));
    assert_eq!(made.token_hash, hash_token("token"));
    assert_eq!(made.response.token, "token");
    assert_eq!(made.audit, audit("device.create", DEVICE, "created by admin"));
    assert_eq!(made.created_at, "2023-11-14T22:13:20+00:00");
    let other = create_device(&admin, request("Mac"), WALL).unwrap();
    assert_eq!(other.response.token.len(), 43);
    assert_eq!(other.token_hash, hash_token(&other.response.token));
    let bad = AppError::BadRequest("device name must contain 1 to 80 characters".into());
    assert_eq!(create_device(&admin, request("  "), WALL).unwrap_err(), bad);
    assert_eq!(create_device(&admin, request(&"x".repeat(81)), WALL).unwrap_err(), bad);
    assert!(create_device(&admin, request(&"ä".repeat(80)), WALL).is_ok());

    let sent = Headers { authorization: text("Bearer token"), ..headers() };
    assert_eq!(device_key(&sent), Ok(made.token_hash));
    for header in [Header::Absent, Header::Opaque, text("bearer token"), text("Basic x")] {
        let sent = Headers { authorization: header, ..headers() };
        assert_eq!(device_key(&sent), Err(AppError::Unauthorized));
    }
    let refused = Err(AppError::Unauthorized);
    let row = |id: &str, revoked: bool| {
        vec![StoredDevice {
            id: id.into(),
            name: "Mac".into(),
            token_hash: hash_token("token"),
            revoked,
        }]
    };
    assert_eq!(require_device(&row(DEVICE, false), &sent).unwrap().id, 77);
    assert_eq!(require_device(&row(DEVICE, true), &sent), refused);
    assert_eq!(require_device(&row("x", false), &sent), refused);
    assert_eq!(require_device(&vec![], &sent), refused);
    assert_eq!(require_device(&row(DEVICE, false), &headers()), refused);
    // The token that was shown once lets its device in, and no other.
    let mut rows = row(DEVICE, false);
    rows.push(stored_device(&other));
    let bearer = format!("Bearer {}", other.response.token);
    let shown = Headers { authorization: text(&bearer), ..headers() };
    let device = require_device(&rows, &shown).unwrap();
    assert_eq!((device.id, device.name.as_str()), (other.response.id, "Mac"));
    assert_eq!(require_device(&rows, &sent).unwrap().id, 77);
    rows[1].revoked = true;
    assert_eq!(require_device(&rows, &shown), refused);
    let wrong = Headers { authorization: text("Bearer guess"), ..headers() };
    assert_eq!(require_device(&rows, &wrong), refused);
}

#[test]
fn devices_are_listed_revoked_and_deleted() {
    let mut state = AppState::new(config());
    let admin = admin(&mut state);
    attach_as(&mut state, 77, 500, ActiveTransport::Wss, 42, WALL);
    let row = DeviceListRow {
        id: DEVICE.into(),
        name: "Mac".into(),
        revoked: false,
        last_seen_at: Some("2023-11-14T23:13:20+01:00".into()),
        created_at: "2023-11-14T22:13:20+00:00".into(),
    };
    let listed = list_devices(&state, &admin, &vec![row.clone()]).unwrap();
    assert_eq!((listed[0].id, listed[0].online), (77, true));
    assert_eq!(listed[0].last_seen_at, Some(WALL));
    let broken = DeviceListRow { created_at: "x".into(), ..row.clone() };
    assert!(matches!(list_devices(&state, &admin, &vec![broken]), Err(AppError::Internal(_))));
    let broken = DeviceListRow { id: "x".into(), ..row };
    assert!(matches!(list_devices(&state, &admin, &vec![broken]), Err(AppError::Internal(_))));
    assert_eq!(parse_optional_time(&None), Ok(None));
    for (text, reason) in [
        ("yesterday", "premature end of input"),
        ("2023-11-14 22:13:20x00:00", "input contains invalid characters"),
        ("2023-13-14T22:13:20Z", "input is out of range"),
        ("2023-11-14T22:13:20Z!", "trailing input"),
    ] {
        assert_eq!(parse_time(text), Err(AppError::Internal(reason.into())));
    }

    assert_eq!(revoke_device(&mut state, &admin, 78, 0).unwrap_err(), AppError::NotFound);
    let (carrier, entry) = revoke_device(&mut state, &admin, 77, 1).unwrap();
    assert_eq!(carrier, Some(42));
    assert_eq!(entry, audit("device.revoke", DEVICE, "revoked by admin"));
    assert!(!state.agents.contains_key(&77));

    assert_eq!(check_delete(None), Err(AppError::NotFound));
    assert_eq!(
        check_delete(Some(false)),
        Err(AppError::BadRequest("请先撤销设备，再永久删除".into()))
    );
    assert_eq!(check_delete(Some(true)), Ok(()));
    assert_eq!(tunnel_ids(&vec![DEVICE.into()]), Ok(vec![77]));
    assert_eq!(
        tunnel_ids(&vec![DEVICE.into(), "x".into(), "".into()]),
        Err(AppError::Internal("invalid character: found `x` at 0".into()))
    );
    start_listener(&mut state, &tunnel(TunnelKind::Tcp), 11);
    start_listener(&mut state, &Tunnel { id: 2, ..tunnel(TunnelKind::Tcp) }, 12);
    let gone = delete_device_permanently(&mut state, &admin, 77, &vec![1, 9], 0);
    assert_eq!(gone.unwrap_err(), AppError::NotFound);
    let gone = delete_device_permanently(&mut state, &admin, 77, &vec![1, 9], 1).unwrap();
    assert_eq!((gone.listeners, gone.carrier), (vec![11], None));
    assert_eq!(gone.audit, audit("device.delete", DEVICE, "permanently deleted by admin"));
    assert!(state.listeners.contains_key(&2) && !state.listeners.contains_key(&1));
}

#[test]
fn tunnels_are_shown_as_they_stand() {
    let mut state = AppState::new(config());
    let status = |state: &AppState, t: Tunnel| decorate_tunnel(state, t).status;
    let tcp = tunnel(TunnelKind::Tcp);
    assert_eq!(status(&state, Tunnel { enabled: false, ..tcp.clone() }), TunnelStatus::Stopped);
    assert_eq!(status(&state, tcp.clone()), TunnelStatus::Error);
    assert_eq!(status(&state, tunnel(TunnelKind::Web)), TunnelStatus::AgentOffline);
    start_listener(&mut state, &tcp, 11);
    assert_eq!(status(&state, tcp.clone()), TunnelStatus::AgentOffline);
    attach_as(&mut state, 77, 500, ActiveTransport::Wss, 42, WALL);
    assert_eq!(status(&state, tcp.clone()), TunnelStatus::Online);
    assert_eq!(status(&state, tunnel(TunnelKind::Web)), TunnelStatus::Online);
    let by = Actor::Device("Mac".into());
    let (change, entry) = tunnel_changed(&mut state, &tcp, TunnelAct::Update, &by);
    assert_eq!(change, ListenerChange { cancel: Some(11), start: true });
    let id = "00000000-0000-0000-0000-000000000001";
    assert_eq!(entry, audit("tunnel.update", id, "updated by device Mac"));
    assert_eq!(tunnel_audit(TunnelAct::Create, 1, &by), audit("tunnel.create", id, "created by device Mac"));
    let (token, entry) = tunnel_deleted(&mut state, 1, &Actor::Administrator("admin".into()));
    assert_eq!(token, None);
    assert_eq!(entry, audit("tunnel.delete", id, "deleted by admin"));
}

#[test]
fn a_new_password_ends_every_session() {
    let mut state = AppState::new(config());
    let admin = admin(&mut state);
    let request = |current: &str, new: &str| ChangePasswordRequest {
        current_password: current.into(),
        new_password: new.into(),
    };
    let stored = hash_password("old password here").unwrap();
    assert_eq!(
        check_new_password(&request("old password here", "short")),
        Err(AppError::BadRequest("new password must contain at least 12 characters".into()))
    );
    assert!(change_password(&admin, &request("old password here", "short"), &stored).is_err());
    for short in ["密码密码", "密码密码密码密码密码密"] {
        assert!(check_new_password(&request("old password here", short)).is_err());
        assert!(change_password(&admin, &request("old password here", short), &stored).is_err());
    }
    assert!(check_new_password(&request("old password here", "密码密码密码密码密码密码")).is_ok());
    assert!(stored.starts_with("$argon2id$"));
    let long = format!("{stored}$");
    for plain in ["", "old password here", "$5$salt$hash", "argon2id", "$argon2id$salt", &long] {
        assert!(!verify_password(plain, "old password here"));
    }
    assert_eq!(
        change_password(&admin, &request("guess", "new password here"), &stored).unwrap_err(),
        AppError::Unauthorized
    );
    let (hash, entry) =
        change_password(&admin, &request("old password here", "new password here"), &stored).unwrap();
    assert!(verify_password(&hash, "new password here"));
    assert_eq!(entry, audit("auth.password_change", "admin", "administrator password changed"));
    let cookie = password_changed(&mut state);
    assert!(cookie.starts_with("tb_session=;"));
    assert_eq!(state.sessions.len(), 0);
}

#[test]
fn administrators_see_settings_connections_and_the_log() {
    let mut state = AppState::new(config());
    let admin = admin(&mut state);
    let settings = admin_settings(&state, &admin);
    assert_eq!((settings.port_start, settings.port_end), (20000, 20009));
    assert_eq!((settings.ticket_ttl_seconds, settings.connect_timeout_seconds), (5, 2));
    assert_eq!((settings.idle_timeout_seconds, settings.audit_retention_days), (6, 30));
    assert_eq!((settings.quic_port, settings.kcp_port), (443, 4000));
    assert_eq!(settings.web_base_domain, "tunnel.test");
    assert!(list_connections(&state, &admin).is_empty());
    web_request_done(&mut state);
    assert_eq!(admin_metrics(&state, &admin).http_requests, 1);
    assert_eq!(audit_limit(None), 100);
    assert_eq!(audit_limit(Some(0)), 1);
    assert_eq!(audit_limit(Some(501)), 500);
    assert_eq!(audit_limit(Some(7)), 7);
    let row = AuditRow {
        id: 3,
        action: "a".into(),
        subject: "s".into(),
        detail: "d".into(),
        created_at: "2023-11-14T22:13:20Z".into(),
    };
    let listed = list_audit(&admin, &vec![row.clone()]).unwrap();
    assert_eq!((listed[0].id, listed[0].created_at), (3, WALL));
    let broken = AuditRow { created_at: "x".into(), ..row };
    assert!(list_audit(&admin, &vec![broken]).is_err());
    let shown = me(admin);
    assert_eq!((shown.username.as_str(), shown.csrf_token.as_str()), ("admin", "csrf"));
}

#[test]
fn only_trusted_proxies_ask_for_hosts() {
    let config = config();
    let rows = vec![tunnel_row(&tunnel(TunnelKind::Web))];
    let proxy = parse_ip("::ffff:127.0.0.1").unwrap();
    let stranger = parse_ip("10.0.0.1").unwrap();
    assert_eq!(require_trusted_proxy(&config, proxy), Ok(()));
    assert_eq!(require_trusted_proxy(&config, stranger), Err(AppError::Forbidden));
    assert_eq!(tls_ask(&config, proxy, "Echo.Tunnel.Test.", &rows), Ok(()));
    assert_eq!(tls_ask(&config, proxy, "other.tunnel.test", &rows), Err(AppError::Forbidden));
    assert_eq!(tls_ask(&config, stranger, "echo.tunnel.test", &rows), Err(AppError::Forbidden));

    let sent = Headers {
        host: text("inner:80"),
        forwarded_host: text("ECHO.tunnel.test:443"),
        forwarded_for: text("203.0.113.9, 10.0.0.2"),
        ..headers()
    };
    let (found, peer) = web_proxy(&config, proxy, &sent, &rows).unwrap();
    assert_eq!(found.id, 1);
    assert_eq!(peer, parse_socket("203.0.113.9:0").unwrap());
    let ask = |sent: Headers| web_proxy(&config, proxy, &sent, &rows).unwrap_err();
    let host = AppError::BadRequest("missing forwarded host".into());
    assert_eq!(ask(Headers { forwarded_host: Header::Opaque, ..sent.clone() }), host);
    assert_eq!(ask(headers()), host);
    assert_eq!(
        ask(Headers { forwarded_for: Header::Absent, ..sent.clone() }),
        AppError::BadRequest("missing forwarded source address".into())
    );
    assert_eq!(ask(Headers { forwarded_host: Header::Absent, ..sent.clone() }), AppError::NotFound);
    assert_eq!(web_proxy(&config, stranger, &sent, &rows).unwrap_err(), AppError::Forbidden);
    assert_eq!(target_unavailable(), (502, "Tunnel target is unavailable".into()));
    assert_eq!(
        inner_headers(),
        vec!["x-tunnelbridge-original-uri", "x-tunnelbridge-proxy", "x-real-ip"]
    );
}

#[test]
fn upkeep_forgets_what_is_over() {
    let mut state = AppState::new(config());
    let session = |expires_at: u128| AdminSession {
        username: "admin".into(),
        csrf_token: "c".into(),
        expires_at,
    };
    state.sessions.insert("old".into(), session(10));
    state.sessions.insert("new".into(), session(11));
    let pending = |expires_at: u128| PendingConnection {
        agent_id: 1,
        ticket_hash: "h".into(),
        expires_at,
        ack: 1,
    };
    state.pending.insert(1, pending(10));
    state.pending.insert(2, pending(11));
    assert_eq!(cleanup(&mut state, 10, WALL), "2023-10-15T22:13:20+00:00");
    assert_eq!(state.sessions.keys(), vec!["new".to_owned()]);
    assert_eq!(state.pending.keys(), vec![2]);
}

/// A certificate of empty parts.
const SMALL: &[u8] =
    &[0x30, 15, 0x30, 13, 2, 1, 1, 0x30, 0, 0x30, 0, 0x30, 0, 0x30, 0, 0x30, 0];

/// An element with a tag, under 128 bytes long.
fn element(tag: u8, content: &[u8]) -> Vec<u8> {
    let mut out = vec![tag, content.len() as u8];
    out.extend_from_slice(content);
    out
}

#[test]
fn public_keys_are_found_in_certificates() {
    assert_eq!(subject_public_key_info(SMALL), Some(vec![0x30, 0]));
    let parts = |version: &[u8], key: &[u8], rest: &[u8]| {
        let mut signed = version.to_vec();
        signed.extend_from_slice(&[2, 1, 1, 0x30, 0, 0x30, 0, 0x30, 0, 0x30, 0]);
        signed.extend_from_slice(key);
        signed.extend_from_slice(rest);
        element(0x30, &element(0x30, &signed))
    };
    let key = element(0x30, b"key");
    assert_eq!(subject_public_key_info(&parts(&[], &key, b"")), Some(key.clone()));
    assert_eq!(subject_public_key_info(&parts(&[0xa0, 3, 2, 1, 2], &key, b"")), Some(key.clone()));
    assert_eq!(subject_public_key_info(&parts(&[], &key, &[0xa3, 0])), Some(key.clone()));
    assert_eq!(subject_public_key_info(&parts(&[], &element(0x31, b"key"), b"")), None);
    assert_eq!(subject_public_key_info(&parts(&[], &[0x30, 9], b"")), None);
    assert_eq!(subject_public_key_info(&parts(&[0x1f, 0], &key, b"")), None);
    let mut longer = parts(&[], &key, b"");
    longer.push(0);
    assert_eq!(subject_public_key_info(&longer), None);
    // A length is written in the shortest form.
    let mut padded = vec![0x30, 0x81, 15];
    padded.extend_from_slice(&SMALL[2..]);
    assert_eq!(subject_public_key_info(&padded), None);
    for short in 0..SMALL.len() {
        assert_eq!(subject_public_key_info(&SMALL[..short]), None);
    }
}

#[test]
fn certificates_on_one_key_have_one_fingerprint() {
    let key = rcgen::KeyPair::generate().unwrap();
    let info = rcgen::PublicKeyData::subject_public_key_info(&key);
    let certificate = |name: &str| {
        let params = rcgen::CertificateParams::new(vec![name.to_owned()]).unwrap();
        params.self_signed(&key).unwrap().der().to_vec()
    };
    let (first, second) = (certificate("one.example.com"), certificate("two.example.com"));
    assert_ne!(first, second);
    assert_eq!(subject_public_key_info(&first), Some(info.clone()));
    let digest = hex::encode(<sha2::Sha256 as sha2::Digest>::digest(&info));
    assert_eq!(identity_of(first, vec![]).unwrap().fingerprint, digest);
    assert_eq!(certificate_fingerprint(&second), Some(digest.clone()));
    let (other, _) = create().unwrap();
    assert_ne!(load(other.as_bytes(), vec![]).unwrap().fingerprint, digest);
}

#[test]
fn visitors_get_what_they_asked_the_proxy_for() {
    let named = |value: &str| original_uri(&text(value));
    assert_eq!(named("/a/b?c=d"), Some("/a/b?c=d".into()));
    assert_eq!(named("http://example.com"), Some("http://example.com/".into()));
    assert_eq!(named("/a#b"), Some("/a".into()));
    assert_eq!(named("a b"), None);
    assert_eq!(named(""), None);
    assert_eq!(original_uri(&Header::Absent), None);
    assert_eq!(original_uri(&Header::Opaque), None);
}

#[test]
fn the_transport_identity_is_made_and_read_back() {
    assert!(needs_certificate(false, true) && needs_certificate(true, false));
    assert!(!needs_certificate(true, true));
    let (certificate_pem, key_pem) = create().unwrap();
    let identity = load(certificate_pem.as_bytes(), key_pem.clone().into_bytes()).unwrap();
    let key = subject_public_key_info(&identity.certificate).unwrap();
    assert_eq!(identity.fingerprint, hex::encode(<sha2::Sha256 as sha2::Digest>::digest(&key)));
    assert_eq!(identity.fingerprint.len(), 64);
    let host = b"\x82\x16tunnelbridge-transport";
    assert!(identity.certificate.windows(host.len()).any(|part| part == host));
    assert_eq!(transport_name(), "tunnelbridge-transport");
    assert!(matches!(private_key(Some(&identity)), Ok(KeyDer::Pkcs8(_))));
    assert_eq!(certificate(Some(&identity)).unwrap(), &identity.certificate);
    assert_eq!(
        load(b"", key_pem.into_bytes()).unwrap_err(),
        "transport certificate PEM is empty"
    );
    let cut = b"-----BEGIN CERTIFICATE-----\nAAAA\n";
    assert_eq!(load(cut, vec![]).unwrap_err(), "section end \"CERTIFICATE\" missing");
    let plain = identity_of(SMALL.to_vec(), cut.to_vec()).unwrap();
    assert_eq!(
        plain.fingerprint,
        "e4f60d0aa6d7f3d3b6a6494b1c861b99f649c6f9ec51abaf201b20f297327c95"
    );
    assert_eq!(certificate_base64(Some(&plain)).unwrap(), "MA8wDQIBATAAMAAwADAAMAA=");
    assert!(private_key(Some(&plain)).unwrap_err().ends_with("missing"));
    let plain = identity_of(SMALL.to_vec(), vec![]).unwrap();
    assert_eq!(private_key(Some(&plain)).unwrap_err(), "transport private key PEM is empty");
    assert_eq!(
        identity_of(b"abc".to_vec(), vec![]).unwrap_err(),
        "transport certificate holds no public key"
    );
    assert_eq!(fingerprint(None), "uninitialized");
    assert_eq!(fingerprint(Some(&plain)), plain.fingerprint);
    assert_eq!(certificate(None).unwrap_err(), "transport identity is not initialized");

    let state = AppState::new(config());
    let answer = agent_enrollment(&state, &vec![tunnel(TunnelKind::Web)], Some(&plain)).unwrap();
    assert_eq!(answer.transport_certificate_der, "MA8wDQIBATAAMAAwADAAMAA=");
    assert_eq!(answer.transport_fingerprint, plain.fingerprint);
    assert_eq!((answer.quic_port, answer.kcp_port), (443, 4000));
    assert_eq!(answer.tunnels[0].status, TunnelStatus::AgentOffline);
    assert!(matches!(agent_enrollment(&state, &vec![], None), Err(AppError::Internal(_))));
}
