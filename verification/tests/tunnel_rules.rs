use tunnelbridge::config::Config;
use tunnelbridge::db::{bootstrap_admin, database_path, migrate_tunnels_v2, upgrade_rows, Migration, TcpTunnelRow};
use tunnelbridge::error::AppError;
use tunnelbridge::net::parse_cidr;
use tunnelbridge::protocol::{
    AccessMode, CreateTunnelRequest, LocalScheme, Timestamp, Tunnel, TunnelKind, TunnelStatus,
    UpdateTunnelRequest,
};
use tunnelbridge::rows::{
    get, get_by_hostname, hostname_is_enabled, list_all, list_for_agent, row_to_tunnel, tunnel_row,
    TunnelRow,
};
use tunnelbridge::secrets::verify_password;
use tunnelbridge::socket::parse_socket;
use tunnelbridge::tunnels::{
    allocate_port, create, create_as, create_stored, delete, normalize_hostname, parse_kind,
    parse_scheme, update, update_stored, validate_create, validate_local_host, validate_tunnel,
    Stored,
};

fn config() -> Config {
    Config {
        listen_addr: parse_socket("127.0.0.1:0").unwrap(),
        database_url: "sqlite://test.db?mode=rwc".into(),
        admin_dist: "missing".into(),
        admin_password: Some("integration-test-password".into()),
        port_start: 20000,
        port_end: 20002,
        ticket_ttl: 5,
        connect_timeout: 2,
        idle_timeout: 5,
        session_ttl: 60,
        audit_retention_days: 30,
        secure_cookies: false,
        geoip_url: "off".into(),
        web_base_domain: "tunnel.test".into(),
        quic_port: 443,
        quic_listen_port: 7443,
        kcp_port: 4000,
        udp_session_timeout: 2,
        transport_cert_dir: "transport".into(),
        trusted_proxy_cidrs: vec![parse_cidr("127.0.0.0/8").unwrap()],
    }
}

const NOW: Timestamp = Timestamp { seconds: 1_700_000_000, nanos: 123_000_000 };
const LATER: Timestamp = Timestamp { seconds: 1_700_000_100, nanos: 0 };

fn request() -> CreateTunnelRequest {
    CreateTunnelRequest {
        name: " echo ".into(),
        local_host: " 127.0.0.1 ".into(),
        local_port: 9,
        kind: TunnelKind::Tcp,
        local_scheme: LocalScheme::Tcp,
        remote_port: None,
        hostname: None,
        access_mode: AccessMode::Public,
        allowed_cidrs: vec![],
        enabled: true,
        allow_lan_target: false,
    }
}

fn web() -> CreateTunnelRequest {
    CreateTunnelRequest {
        name: "Blog".into(),
        kind: TunnelKind::Web,
        local_scheme: LocalScheme::Http,
        ..request()
    }
}

fn bad(reason: &str) -> AppError {
    AppError::BadRequest(reason.to_owned())
}

fn made(request: CreateTunnelRequest, id: u128, rows: &Vec<TunnelRow>) -> (Tunnel, TunnelRow) {
    create_as(&config(), rows, 77, request, id, NOW).unwrap()
}

#[test]
fn a_new_tunnel_is_trimmed_and_gets_the_least_free_port() {
    let (tunnel, row) = made(request(), 1, &vec![]);
    assert_eq!(tunnel.name, "echo");
    assert_eq!(tunnel.local_host, "127.0.0.1");
    assert_eq!(tunnel.remote_port, Some(20000));
    assert_eq!(tunnel.hostname, None);
    assert_eq!(tunnel.status, TunnelStatus::Stopped);
    assert_eq!((tunnel.id, tunnel.agent_id), (1, 77));
    assert_eq!(row.id, "00000000-0000-0000-0000-000000000001");
    assert_eq!(row.kind, "tcp");
    assert_eq!(row.allowed_cidrs, "[]");
    assert_eq!(row.created_at, "2023-11-14T22:13:20.123+00:00");
    let (second, _) = made(request(), 2, &vec![row.clone()]);
    assert_eq!(second.remote_port, Some(20001));
    let udp = CreateTunnelRequest { kind: TunnelKind::Udp, local_scheme: LocalScheme::Udp, ..request() };
    let (third, _) = made(udp, 3, &vec![row]);
    assert_eq!(third.remote_port, Some(20000));
    let (random, _) = create(&config(), &vec![], 1, request(), NOW).unwrap();
    let (other, _) = create(&config(), &vec![], 1, request(), NOW).unwrap();
    assert_ne!(random.id, other.id);
}

#[test]
fn an_exhausted_pool_is_a_conflict() {
    let mut rows = vec![];
    for id in 0..3 {
        let (_, row) = made(request(), id, &rows);
        rows.push(row);
    }
    assert_eq!(
        allocate_port(&config(), &rows, TunnelKind::Tcp),
        Err(AppError::Conflict("public port pool is exhausted".into()))
    );
    assert_eq!(allocate_port(&config(), &rows, TunnelKind::Udp), Ok(20000));
    assert_eq!(
        create_as(&config(), &rows, 1, request(), 9, NOW).unwrap_err(),
        AppError::Conflict("public port pool is exhausted".into())
    );
}

#[test]
fn what_is_stored_reads_back() {
    let mut asked = request();
    asked.access_mode = AccessMode::Allowlist;
    asked.allowed_cidrs = vec![parse_cidr("10.1.2.3/8").unwrap(), parse_cidr("fd00::/8").unwrap()];
    let (tunnel, row) = made(asked, 5, &vec![]);
    assert_eq!(row.allowed_cidrs, r#"["10.1.2.3/8","fd00::/8"]"#);
    let read = row_to_tunnel(&row).unwrap();
    assert_eq!(read, Tunnel { status: TunnelStatus::Starting, ..tunnel.clone() });
    assert_eq!(tunnel_row(&read), row);
    let mut stopped = row.clone();
    stopped.enabled = false;
    assert_eq!(row_to_tunnel(&stopped).unwrap().status, TunnelStatus::Stopped);
}

#[test]
fn faulty_rows_are_internal_errors() {
    let (_, row) = made(request(), 5, &vec![]);
    let fault = |change: fn(&mut TunnelRow)| {
        let mut row = row.clone();
        change(&mut row);
        row_to_tunnel(&row).unwrap_err()
    };
    let internal = |reason: &str| AppError::Internal(reason.to_owned());
    assert_eq!(fault(|r| r.access_mode = "x".into()), internal("invalid access mode in database"));
    assert_eq!(fault(|r| r.id = "x".into()), internal("invalid character: found `x` at 0"));
    assert_eq!(fault(|r| r.agent_id = "x".into()), internal("invalid character: found `x` at 0"));
    assert_eq!(fault(|r| r.kind = "x".into()), internal("invalid tunnel kind"));
    assert_eq!(fault(|r| r.local_scheme = "x".into()), internal("invalid local scheme"));
    assert_eq!(fault(|r| r.allowed_cidrs = "x".into()), internal("expected value at line 1 column 1"));
    assert_eq!(fault(|r| r.allowed_cidrs = r#"["x"]"#.into()), internal("invalid IP address syntax at line 1 column 4"));
    assert_eq!(fault(|r| r.created_at = "now".into()), internal("premature end of input"));
    assert_eq!(fault(|r| r.updated_at = "now".into()), internal("premature end of input"));
    assert!(parse_kind("http").is_err());
    assert_eq!(parse_scheme("https"), Ok(LocalScheme::Https));
}

#[test]
fn requests_for_tunnels_are_checked_in_order() {
    let fault = |change: fn(&mut CreateTunnelRequest)| {
        let mut request = request();
        change(&mut request);
        validate_create(&config(), &request).unwrap_err()
    };
    assert_eq!(fault(|r| r.name = "  ".into()), bad("name must contain 1 to 80 characters"));
    assert_eq!(fault(|r| r.name = "ä".repeat(81)), bad("name must contain 1 to 80 characters"));
    assert_eq!(fault(|r| r.local_port = 0), bad("local port cannot be zero"));
    assert_eq!(fault(|r| r.local_host = "a b".into()), bad("invalid local host"));
    assert_eq!(
        fault(|r| r.local_host = "192.168.1.2".into()),
        bad("non-loopback targets require allow_lan_target confirmation")
    );
    assert_eq!(
        fault(|r| r.remote_port = Some(1)),
        bad("remote port must be within 20000..=20002")
    );
    assert_eq!(
        fault(|r| r.local_scheme = LocalScheme::Http),
        bad("local scheme is incompatible with tunnel kind")
    );
    assert_eq!(
        fault(|r| r.hostname = Some("x".into())),
        bad("only web tunnels may specify a hostname")
    );
    assert_eq!(
        fault(|r| r.access_mode = AccessMode::Allowlist),
        bad("allowlist mode requires at least one CIDR")
    );
    let mut request = web();
    request.hostname = Some("under_score".into());
    assert_eq!(
        validate_create(&config(), &request).unwrap_err(),
        bad("hostname must be a DNS label containing letters, digits, or hyphens")
    );
    assert!(validate_create(&config(), &web()).is_ok());
}

#[test]
fn targets_are_this_machine_unless_the_network_is_allowed() {
    for host in ["localhost", "127.0.0.1", " 127.9.9.9", "::1"] {
        assert!(validate_local_host(host, false).is_ok(), "{host}");
    }
    for host in ["192.168.0.1", "example.com", "LOCALHOST", "::2", "::ffff:127.0.0.1"] {
        assert!(validate_local_host(host, false).is_err(), "{host}");
        assert!(validate_local_host(host, true).is_ok(), "{host}");
    }
    for host in ["", "  ", "a\tb"] {
        assert_eq!(validate_local_host(host, true), Err(bad("invalid local host")));
    }
    assert!(validate_local_host(&"a".repeat(253), true).is_ok());
    assert!(validate_local_host(&"a".repeat(254), true).is_err());
    assert!(validate_local_host(&"ä".repeat(127), true).is_err());
}

#[test]
fn host_names_lie_under_the_domain() {
    let host = |value: &str| normalize_hostname(&config(), value);
    assert_eq!(host(" Blog. ").unwrap(), "blog.tunnel.test");
    assert_eq!(host("blog.tunnel.test").unwrap(), "blog.tunnel.test");
    assert_eq!(host("BLOG.Tunnel.Test..").unwrap(), "blog.tunnel.test");
    for value in ["", "-a", "a-", "a.b", "a_b", "tunnel.test.", ".tunnel.test", "ä"] {
        assert!(host(value).is_err(), "{value}");
    }
    assert!(host(&"a".repeat(63)).is_ok());
    assert!(host(&"a".repeat(64)).is_err());
    let (tunnel, _) = made(web(), 1, &vec![]);
    assert_eq!(tunnel.hostname.as_deref(), Some("blog.tunnel.test"));
    assert_eq!(tunnel.remote_port, None);
}

#[test]
fn changes_keep_what_they_do_not_name() {
    let (tunnel, row) = made(request(), 1, &vec![]);
    let rows = vec![row];
    let change = UpdateTunnelRequest {
        name: Some(" other ".into()),
        remote_port: Some(20002),
        enabled: Some(false),
        ..UpdateTunnelRequest::default()
    };
    let (changed, row) = update(&config(), &rows, 1, Some(77), change, LATER).unwrap();
    assert_eq!(changed.name, "other");
    assert_eq!(changed.remote_port, Some(20002));
    assert!(!changed.enabled);
    assert_eq!(changed.updated_at, LATER);
    assert_eq!(changed.created_at, tunnel.created_at);
    assert_eq!(changed.local_host, tunnel.local_host);
    assert_eq!((changed.id, changed.agent_id, changed.kind), (1, 77, TunnelKind::Tcp));
    assert_eq!(row_to_tunnel(&row).unwrap(), Tunnel { status: TunnelStatus::Stopped, ..changed });
}

#[test]
fn changes_are_refused_with_a_reason() {
    let (_, row) = made(request(), 1, &vec![]);
    let (_, web_row) = made(web(), 2, &vec![]);
    let rows = vec![row, web_row];
    let refuse = |id: u128, owner: Option<u128>, change: fn(&mut UpdateTunnelRequest)| {
        let mut request = UpdateTunnelRequest::default();
        change(&mut request);
        update(&config(), &rows, id, owner, request, LATER).unwrap_err()
    };
    assert_eq!(refuse(9, None, |_| {}), AppError::NotFound);
    assert_eq!(refuse(1, Some(78), |_| {}), AppError::NotFound);
    assert_eq!(
        refuse(1, None, |r| r.local_host = Some("10.0.0.1".into())),
        bad("non-loopback targets require allow_lan_target confirmation")
    );
    assert_eq!(refuse(1, None, |r| r.local_port = Some(0)), bad("local port cannot be zero"));
    assert_eq!(
        refuse(2, None, |r| r.remote_port = Some(20000)),
        bad("web tunnels do not use a remote port")
    );
    assert_eq!(
        refuse(1, None, |r| r.remote_port = Some(9)),
        bad("remote port must be within 20000..=20002")
    );
    assert_eq!(
        refuse(1, None, |r| r.kind = Some(TunnelKind::Udp)),
        bad("tunnel kind cannot be changed after creation")
    );
    assert_eq!(
        refuse(1, None, |r| r.hostname = Some("x".into())),
        bad("only web tunnels have hostnames")
    );
    assert_eq!(
        refuse(2, None, |r| r.hostname = Some("-".into())),
        bad("hostname must be a DNS label containing letters, digits, or hyphens")
    );
    assert_eq!(
        refuse(1, None, |r| r.name = Some(" ".into())),
        bad("name must contain 1 to 80 characters")
    );
    assert_eq!(
        refuse(1, None, |r| r.access_mode = Some(AccessMode::Allowlist)),
        bad("allowlist mode requires at least one CIDR")
    );
    assert_eq!(
        refuse(1, None, |r| r.local_scheme = Some(LocalScheme::Https)),
        bad("local scheme is incompatible with tunnel kind")
    );
}

#[test]
fn tunnels_need_their_endpoint() {
    let (tunnel, _) = made(request(), 1, &vec![]);
    assert!(validate_tunnel(&tunnel).is_ok());
    assert_eq!(
        validate_tunnel(&Tunnel { remote_port: None, ..tunnel }),
        Err(bad("port tunnel requires remote_port"))
    );
    let (tunnel, _) = made(web(), 1, &vec![]);
    assert_eq!(
        validate_tunnel(&Tunnel { hostname: None, ..tunnel }),
        Err(bad("web tunnel requires hostname"))
    );
}

#[test]
fn writes_that_fail_are_answered() {
    let (tunnel, _) = made(request(), 1, &vec![]);
    assert_eq!(create_stored(tunnel.clone(), Stored::Done), Ok(tunnel.clone()));
    assert_eq!(
        create_stored(tunnel.clone(), Stored::Duplicate),
        Err(AppError::Conflict("public endpoint is already allocated".into()))
    );
    assert_eq!(
        update_stored(tunnel.clone(), Stored::Duplicate),
        Err(AppError::Conflict("remote port is already allocated".into()))
    );
    assert_eq!(
        update_stored(tunnel.clone(), Stored::Failed("disk".into())),
        Err(AppError::Internal("disk".into()))
    );
    assert_eq!(update_stored(tunnel.clone(), Stored::Done), Ok(tunnel));
}

#[test]
fn rows_are_found_by_agent_identifier_and_host() {
    let (_, tcp) = made(request(), 1, &vec![]);
    let (_, site) = made(web(), 2, &vec![]);
    let foreign = TunnelRow { agent_id: "00000000-0000-0000-0000-000000000001".into(), id: "00000000-0000-0000-0000-000000000003".into(), ..tcp.clone() };
    let rows = vec![tcp, site.clone(), foreign];
    assert_eq!(list_all(&rows).unwrap().len(), 3);
    let own: Vec<u128> = list_for_agent(&rows, 77).unwrap().iter().map(|t| t.id).collect();
    assert_eq!(own, vec![1, 2]);
    assert_eq!(get(&rows, 2).unwrap().kind, TunnelKind::Web);
    assert_eq!(get(&rows, 4), Err(AppError::NotFound));
    assert_eq!(get_by_hostname(&rows, "BLOG.tunnel.test.").unwrap().id, 2);
    assert_eq!(get_by_hostname(&rows, "other.tunnel.test"), Err(AppError::NotFound));
    assert!(hostname_is_enabled(&rows, "blog.tunnel.test"));
    for host in ["blog.tunnel.test", "BLOG.tunnel.test", "other.tunnel.test", ""] {
        assert_eq!(hostname_is_enabled(&rows, host), get_by_hostname(&rows, host).is_ok());
    }
    let disabled = vec![TunnelRow { enabled: false, ..site }];
    assert!(!hostname_is_enabled(&disabled, "blog.tunnel.test"));
    assert!(get_by_hostname(&disabled, "blog.tunnel.test").is_err());
    assert_eq!(delete(&rows, 1, Some(77)), Ok(()));
    assert_eq!(delete(&rows, 1, None), Ok(()));
    assert_eq!(delete(&rows, 1, Some(1)), Err(AppError::NotFound));
    assert_eq!(delete(&rows, 9, None), Err(AppError::NotFound));
}

#[test]
fn the_first_administrator_needs_a_long_password() {
    assert_eq!(bootstrap_admin(1, None), Ok(None));
    assert_eq!(
        bootstrap_admin(0, None),
        Err("first launch requires TB_ADMIN_PASSWORD (minimum 12 characters)".into())
    );
    assert_eq!(
        bootstrap_admin(0, Some("short")),
        Err("TB_ADMIN_PASSWORD must contain at least 12 characters".into())
    );
    let hash = bootstrap_admin(0, Some("long enough password")).unwrap().unwrap();
    assert!(verify_password(&hash, "long enough password"));
    // Characters count, not the bytes that they take.
    for short in ["密码密码", "密码密码密码密码密码密", "elevenchars"] {
        assert_eq!(
            bootstrap_admin(0, Some(short)),
            Err("TB_ADMIN_PASSWORD must contain at least 12 characters".into())
        );
    }
    let hash = bootstrap_admin(0, Some("密码密码密码密码密码密码")).unwrap().unwrap();
    assert!(verify_password(&hash, "密码密码密码密码密码密码"));
}

#[test]
fn migrates_v1_tcp_tunnels_without_losing_endpoint() {
    let columns = |names: &[&str]| names.iter().map(|n| n.to_string()).collect::<Vec<_>>();
    assert_eq!(migrate_tunnels_v2(0, &vec![]), Migration::Create);
    assert_eq!(migrate_tunnels_v2(1, &columns(&["id", "kind"])), Migration::Keep);
    assert_eq!(migrate_tunnels_v2(1, &columns(&["id", "name"])), Migration::Upgrade);
    let old = |id: &str, remote_port: i64| TcpTunnelRow {
        id: id.into(),
        agent_id: "agent".into(),
        name: "SSH".into(),
        local_host: "127.0.0.1".into(),
        local_port: 22,
        remote_port,
        access_mode: "public".into(),
        allowed_cidrs: "[]".into(),
        enabled: true,
        created_at: "now".into(),
        updated_at: "now".into(),
    };
    let rows = upgrade_rows(vec![old("tunnel", 20000), old("other", 20001)]);
    assert_eq!(rows.len(), 2);
    assert_eq!((rows[0].id.as_str(), rows[0].remote_port), ("tunnel", Some(20000)));
    assert_eq!((rows[1].id.as_str(), rows[1].remote_port), ("other", Some(20001)));
    for row in &rows {
        assert_eq!((row.kind.as_str(), row.local_scheme.as_str()), ("tcp", "tcp"));
        assert_eq!((row.agent_id.as_str(), row.name.as_str()), ("agent", "SSH"));
        assert_eq!((row.local_host.as_str(), row.local_port), ("127.0.0.1", 22));
        assert_eq!((row.hostname.clone(), row.enabled), (None, true));
        assert_eq!((row.created_at.as_str(), row.updated_at.as_str()), ("now", "now"));
    }
    // TCP and UDP may share the same numeric port.
    assert_eq!(allocate_port(&config(), &rows, TunnelKind::Udp), Ok(20000));
    assert_eq!(allocate_port(&config(), &rows, TunnelKind::Tcp), Ok(20002));
    assert_eq!(upgrade_rows(vec![]), vec![]);
    let all = [
        "id", "agent_id", "name", "local_host", "local_port", "kind", "local_scheme", "remote_port",
        "hostname", "access_mode", "allowed_cidrs", "enabled", "created_at", "updated_at",
    ];
    assert_eq!(migrate_tunnels_v2(1, &columns(&all)), Migration::Keep);
}

#[test]
fn a_stored_tunnel_is_read_back_and_the_others_stay() {
    let mut rows = vec![];
    for id in 1..=3 {
        let (tunnel, row) = made(request(), id, &rows);
        rows.push(row);
        let read = get(&rows, id).unwrap();
        assert_eq!(read, Tunnel { status: read.status, ..tunnel });
    }
    let ports: Vec<Option<i64>> = rows.iter().map(|row| row.remote_port).collect();
    assert_eq!(ports, vec![Some(20000), Some(20001), Some(20002)]);
    let before = rows.clone();
    let change = UpdateTunnelRequest { name: Some("renamed".into()), ..UpdateTunnelRequest::default() };
    let (tunnel, row) = update(&config(), &rows, 2, None, change, LATER).unwrap();
    assert_eq!((&row.id, &row.agent_id), (&rows[1].id, &rows[1].agent_id));
    assert_eq!((&row.kind, &row.created_at), (&rows[1].kind, &rows[1].created_at));
    rows[1] = row;
    let read = get(&rows, 2).unwrap();
    assert_eq!(read, Tunnel { status: read.status, ..tunnel });
    assert_eq!((&rows[0], &rows[2]), (&before[0], &before[2]));
    assert_eq!(get(&rows, 1), get(&before, 1));
    assert_eq!(get(&rows, 3), get(&before, 3));
}

#[test]
fn blocks_are_written_with_their_prefix() {
    let (tunnel, _) = made(request(), 1, &vec![]);
    let blocks = ["10.1.2.3/8", "2001:db8::/32", "::1/128", "::ffff:1.2.3.4/100", "0.0.0.0/0", "::/0", "1:0:0:2::/64"];
    let tunnel = Tunnel {
        allowed_cidrs: blocks.iter().map(|block| parse_cidr(block).unwrap()).collect(),
        ..tunnel
    };
    let row = tunnel_row(&tunnel);
    let quoted: Vec<String> = blocks.iter().map(|block| format!("\"{block}\"")).collect();
    assert_eq!(row.allowed_cidrs, format!("[{}]", quoted.join(",")));
    assert_eq!(row_to_tunnel(&row).unwrap().allowed_cidrs, tunnel.allowed_cidrs);
}

#[test]
fn the_database_file_is_cut_from_its_url() {
    assert_eq!(
        database_path("sqlite://data/tunnelbridge.db?mode=rwc").as_deref(),
        Some("data/tunnelbridge.db")
    );
    assert_eq!(database_path("sqlite://x").as_deref(), Some("x"));
    assert_eq!(database_path("sqlite::memory:"), None);
}
