use tunnelbridge::agent_config::{normalize_server_url, AgentConfig};
use tunnelbridge::gateway::parse_forwarded_ip;
use tunnelbridge::geoip::{endpoint_for, is_public_candidate, parse_location, GeoIpResponse};
use tunnelbridge::ids::parse_id;
use tunnelbridge::net::{normalize_ip, parse_cidr, parse_ip, Cidr, IpAddr};
use tunnelbridge::protocol::{
    AccessMode, GeoLocation, LocalScheme, Timestamp, Tunnel, TunnelKind, TunnelStatus,
};
use tunnelbridge::runtime::{tray_status_symbol, AgentStatus};
use tunnelbridge::tunnels::source_allowed;

fn ip(text: &str) -> IpAddr {
    parse_ip(text).unwrap()
}

fn tunnel(mode: AccessMode, cidrs: Vec<Cidr>) -> Tunnel {
    let now = Timestamp { seconds: 1_700_000_000, nanos: 0 };
    Tunnel {
        id: 1,
        agent_id: 2,
        name: "test".into(),
        local_host: "127.0.0.1".into(),
        local_port: 22,
        kind: TunnelKind::Tcp,
        local_scheme: LocalScheme::Tcp,
        remote_port: Some(20000),
        hostname: None,
        access_mode: mode,
        allowed_cidrs: cidrs,
        enabled: true,
        status: TunnelStatus::Online,
        created_at: now,
        updated_at: now,
    }
}

#[test]
fn tray_status_uses_colored_state_dots() {
    assert_eq!(tray_status_symbol(AgentStatus::Online), "🟢");
    assert_eq!(tray_status_symbol(AgentStatus::Connecting), "🟡");
    assert_eq!(tray_status_symbol(AgentStatus::Offline), "🔴");
    assert_eq!(tray_status_symbol(AgentStatus::Error), "🔴");
    assert_eq!(tray_status_symbol(AgentStatus::Unconfigured), "⚪");
}

#[test]
fn requires_https_except_for_local_development() {
    assert!(normalize_server_url("https://relay.example.com/path").is_ok());
    assert!(normalize_server_url("http://127.0.0.1:8080").is_ok());
    assert!(normalize_server_url("http://relay.example.com").is_err());
}

#[test]
fn old_configs_receive_v2_transport_ports() {
    let record: serde_json::Value = serde_json::from_str(
        r#"{"server_url":"https://relay.example.com","device_name":"Mac","installation_id":"00000000-0000-0000-0000-000000000001"}"#,
    )
    .unwrap();
    let field = |name: &str| record.get(name).and_then(|v| v.as_str()).unwrap().to_owned();
    let port = |name: &str| record.get(name).and_then(|v| v.as_u64()).map(|v| v as u16);
    let config = AgentConfig::from_stored(
        field("server_url"),
        field("device_name"),
        parse_id(&field("installation_id")).unwrap(),
        None,
        port("quic_port"),
        port("kcp_port"),
    );
    assert_eq!(config.quic_port, 443);
    assert_eq!(config.kcp_port, 4000);
}

#[test]
fn forwarded_ip_uses_first_hop() {
    assert_eq!(
        parse_forwarded_ip(Some("203.0.113.9, 10.0.0.2")),
        Some(ip("203.0.113.9"))
    );
}

#[test]
fn normalizes_ipv4_mapped_ipv6() {
    let value = ip("::ffff:203.0.113.8");
    assert_eq!(normalize_ip(value), ip("203.0.113.8"));
}

#[test]
fn skips_private_and_loopback_addresses() {
    assert!(!is_public_candidate(ip("127.0.0.1")));
    assert!(!is_public_candidate(ip("192.168.1.5")));
    assert!(!is_public_candidate(ip("fd00::1")));
    assert!(is_public_candidate(ip("203.0.113.8")));
}

#[test]
fn parses_country_fields_and_normalizes_code() {
    let response = GeoIpResponse {
        country_name: Some(" United States ".into()),
        country_code: Some("us".into()),
    };
    assert_eq!(
        parse_location(response),
        Some(GeoLocation {
            country_code: "US".into(),
            country_name: "United States".into(),
        })
    );
}

#[test]
fn parses_ipwho_response_aliases() {
    let record: serde_json::Value =
        serde_json::from_str(r#"{"country":"United States","country_code":"US"}"#).unwrap();
    let field = |name: &str| record.get(name).map(|v| v.as_str().map(str::to_owned));
    let response = GeoIpResponse::from_fields(
        field("country_name"),
        field("country"),
        field("country_code"),
        field("countryCode"),
    )
    .unwrap();
    assert_eq!(parse_location(response).unwrap().country_code, "US");
}

#[test]
fn supports_geoip_endpoint_templates() {
    assert_eq!(
        endpoint_for("https://ipwho.is/{ip}", ip("8.8.8.8")),
        "https://ipwho.is/8.8.8.8"
    );
}

#[test]
fn cidr_allowlist_matches_source() {
    let value = tunnel(AccessMode::Allowlist, vec![parse_cidr("10.0.0.0/8").unwrap()]);
    assert!(source_allowed(&value, ip("10.20.30.40")));
    assert!(!source_allowed(&value, ip("192.168.1.1")));
}

#[test]
fn public_mode_accepts_any_source() {
    let value = tunnel(AccessMode::Public, vec![]);
    assert!(source_allowed(&value, ip("203.0.113.10")));
}

#[test]
fn ipv4_mapped_ipv6_matches_ipv4_allowlist() {
    let value = tunnel(AccessMode::Allowlist, vec![parse_cidr("203.0.113.0/24").unwrap()]);
    assert!(source_allowed(&value, ip("::ffff:203.0.113.7")));
}
