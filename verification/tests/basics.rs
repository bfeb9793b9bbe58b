use tunnelbridge::agent_config::default_quic_port;
use tunnelbridge::clock::{
    after, days_before, days_have_room, has_room, ticket_deadline, ticket_has_room, time_string,
    LAST_SECOND,
};
use tunnelbridge::config::{Config, Variables};
use tunnelbridge::error::AppError;
use tunnelbridge::geoip::{endpoint_for, parse_location, GeoIpResolver, GeoIpResponse, Lookup};
use tunnelbridge::ids::{id_string, parse_id};
use tunnelbridge::net::{ip_string, normalize_ip, parse_cidr, parse_ip, IpAddr};
use tunnelbridge::protocol::{GeoLocation, MetricsSnapshot, Timestamp, TransportMode};
use tunnelbridge::registry::Registry;
use tunnelbridge::secrets::{
    hash_password, hash_token, hash_with_salt, random_secret, secret_of, verify_password,
};
use tunnelbridge::socket::{parse_socket, socket_string, SocketAddr};
use tunnelbridge::text;
use tunnelbridge::timing::{
    CLEANUP_SECONDS, GEO_LOOKUP_MILLIS, HEARTBEAT_SECONDS, LISTENER_PAUSE_MILLIS,
    QUIC_CONNECT_SECONDS, QUIC_KEEP_ALIVE_SECONDS, QUIC_PROBE_SECONDS, STREAM_IDLE_SECONDS,
    UDP_IDLE_SECONDS, UDP_UPKEEP_SECONDS,
};
use tunnelbridge::wire::{
    decode_carrier_frame, encode_carrier_frame, encode_record, read_record, RecordRead,
    CARRIER_FRAME_DATA, CARRIER_FRAME_DATAGRAM, CARRIER_FRAME_FIN, CARRIER_FRAME_RESET,
    MAX_RECORD_SIZE, MAX_UDP_DATAGRAM, RECORD_BINARY, RECORD_CONTROL,
};

fn ip(text: &str) -> IpAddr {
    parse_ip(text).unwrap()
}

#[test]
fn texts_are_trimmed_and_split() {
    assert_eq!(text::trim("  a b\u{3000}\n"), "a b");
    assert_eq!(text::trim("\t\u{2003}"), "");
    assert_eq!(text::trim_end_matches("x..", '.'), "x");
    assert_eq!(text::split("a,,b", ','), vec!["a", "", "b"]);
    assert_eq!(text::split("", ','), vec![""]);
    assert_eq!(text::split_once("k=v=w", '='), Some(("k", "v=w")));
    assert_eq!(text::split_once("kv", '='), None);
    assert_eq!(text::replace("aXbX", "X", "--"), "a--b--");
    assert_eq!(text::replace("aaa", "aa", "b"), "ba");
    assert!(text::contains("abc", "bc"));
    assert!(!text::contains("abc", "cb"));
    assert_eq!(text::to_lower("ÄBc"), "Äbc");
    assert_eq!(text::to_upper("äbC"), "äBC");
    assert_eq!(text::strip_prefix("Bearer x", "Bearer "), Some("x"));
    assert_eq!(text::strip_suffix("a.b", ".b"), Some("a"));
    assert_eq!(text::strip_suffix("b", ".b"), None);
}

#[test]
fn numbers_are_read_as_the_standard_library_reads_them() {
    for s in ["0", "+7", "007", "65535", "65536", "", "+", "-1", " 1", "1 ", "１", "99999999999999999999"] {
        assert_eq!(text::parse_unsigned(s, 65535), s.parse::<u16>().ok().map(u64::from), "{s}");
        assert_eq!(text::parse_unsigned(s, u64::MAX), s.parse::<u64>().ok(), "{s}");
        assert_eq!(text::parse_signed(s), s.parse::<i64>().ok(), "{s}");
    }
    for s in ["-9223372036854775808", "-9223372036854775809", "9223372036854775807", "-0", "--1", "-+1"] {
        assert_eq!(text::parse_signed(s), s.parse::<i64>().ok(), "{s}");
    }
    assert_eq!(text::decimal_text(0), "0");
    assert_eq!(text::decimal_text(u64::MAX), "18446744073709551615");
}

#[test]
fn white_space_is_that_of_the_standard_library() {
    for n in 0..0x3100_u32 {
        if let Some(c) = char::from_u32(n) {
            assert_eq!(text::white(c), c.is_whitespace(), "{n:x}");
        }
    }
}

fn groups(g: [u16; 8]) -> Option<IpAddr> {
    let mut n: u128 = 0;
    for part in g {
        n = n << 16 | u128::from(part);
    }
    Some(IpAddr::V6(n))
}

fn octets(a: u8, b: u8, c: u8, d: u8) -> Option<IpAddr> {
    Some(IpAddr::V4(u32::from_be_bytes([a, b, c, d])))
}

#[test]
fn addresses_are_read() {
    assert_eq!(parse_ip("1.2.3.4"), octets(1, 2, 3, 4));
    assert_eq!(parse_ip("255.255.255.255"), octets(255, 255, 255, 255));
    assert_eq!(parse_ip("::"), groups([0; 8]));
    assert_eq!(parse_ip("::1"), groups([0, 0, 0, 0, 0, 0, 0, 1]));
    assert_eq!(parse_ip("1::"), groups([1, 0, 0, 0, 0, 0, 0, 0]));
    assert_eq!(parse_ip("1:2:3:4:5:6:7:8"), groups([1, 2, 3, 4, 5, 6, 7, 8]));
    assert_eq!(parse_ip("1:2:3:4:5:6:7::"), groups([1, 2, 3, 4, 5, 6, 7, 0]));
    assert_eq!(parse_ip("::2:3:4:5:6:7:8"), groups([0, 2, 3, 4, 5, 6, 7, 8]));
    assert_eq!(parse_ip("1::3:4:5:6:7:8"), groups([1, 0, 3, 4, 5, 6, 7, 8]));
    assert_eq!(parse_ip("::ffff:203.0.113.7"), groups([0, 0, 0, 0, 0, 0xffff, 0xcb00, 0x7107]));
    assert_eq!(parse_ip("1:2:3:4:5:6:1.2.3.4"), groups([1, 2, 3, 4, 5, 6, 0x102, 0x304]));
    assert_eq!(parse_ip("FD00::AbCd"), groups([0xfd00, 0, 0, 0, 0, 0, 0, 0xabcd]));
    for s in [
        "", "256.1.1.1", "01.2.3.4", "1.2.3", "1.2.3.4.5", "1..2.3", " 1.2.3.4", "1.2.3.4 ", "+1.2.3.4",
        "1::2::3", "1:2:3:4:5:6:7", "::1.2.3", "12345::", "::00001", "g::", "fe80::1%1", ":1", "1:",
        "1:2:3:4:5:6:7:8:9", "1.2.3.4::", "::1.2.3.4:5", "1:2:3:4:5:6:7:1.2.3.4",
        "1::2:3:4:5:6:7:8", "[::1]", "localhost",
    ] {
        assert_eq!(parse_ip(s), None, "{s}");
    }
}

#[test]
fn addresses_are_written_in_their_short_form() {
    for (s, wanted) in [
        ("0.0.0.0", "0.0.0.0"),
        ("10.0.0.255", "10.0.0.255"),
        ("0:0:0:0:0:0:0:0", "::"),
        ("::1", "::1"),
        ("1:0:0:0:0:0:0:0", "1::"),
        ("1:2:3:4:5:6:7:8", "1:2:3:4:5:6:7:8"),
        ("1:0:0:4:0:0:0:8", "1:0:0:4::8"),
        ("1:0:0:4:5:0:0:8", "1::4:5:0:0:8"),
        ("2001:db8:0:1:1:1:1:1", "2001:db8:0:1:1:1:1:1"),
        ("::ffff:1.2.3.4", "::ffff:1.2.3.4"),
        ("::1.2.3.4", "::102:304"),
        ("1:0:2:0:3:0:4:0", "1:0:2:0:3:0:4:0"),
        ("ABCD:00ef::", "abcd:ef::"),
    ] {
        assert_eq!(ip_string(ip(s)), wanted, "{s}");
        assert_eq!(parse_ip(wanted), Some(ip(s)), "{s}");
    }
}

#[test]
fn socket_addresses_are_read_and_written() {
    for (s, host, port, scope) in [
        ("0.0.0.0:8080", "0.0.0.0", 8080, 0),
        ("127.0.0.1:0", "127.0.0.1", 0, 0),
        ("127.0.0.1:65535", "127.0.0.1", 65535, 0),
        ("[::1]:80", "::1", 80, 0),
        ("[fe80::1%3]:5", "fe80::1", 5, 3),
        ("[::ffff:1.2.3.4]:9", "::ffff:1.2.3.4", 9, 0),
    ] {
        let address = parse_socket(s).unwrap();
        assert_eq!(address, SocketAddr { ip: ip(host), port, scope });
        assert_eq!(socket_string(address), s);
    }
    assert_eq!(parse_socket("1.2.3.4:007").unwrap().port, 7);
    for s in [
        "127.0.0.1:65536", "127.0.0.1:", "127.0.0.1", "[::1]", "::1:80", "[1.2.3.4]:80", "1.2.3.4:+1",
        "[::1]80", "[::1]:", "[::1%]:1", "[fe80::1%4294967296]:1", ":80", "localhost:80",
    ] {
        assert_eq!(parse_socket(s), None, "{s}");
    }
}

#[test]
fn mapped_addresses_are_one_with_their_ipv4_form() {
    assert_eq!(normalize_ip(ip("::ffff:1.2.3.4")), ip("1.2.3.4"));
    assert_eq!(normalize_ip(ip("::1.2.3.4")), ip("::1.2.3.4"));
    assert_eq!(normalize_ip(normalize_ip(ip("::ffff:1.2.3.4"))), ip("1.2.3.4"));
}

#[test]
fn blocks_are_read_with_their_prefix() {
    let block = parse_cidr("10.1.2.3/8").unwrap();
    assert_eq!(block.addr, ip("10.1.2.3"));
    assert_eq!(block.prefix, 8);
    assert_eq!(parse_cidr("10.0.0.0/33"), None);
    assert_eq!(parse_cidr("10.0.0.0"), None);
    assert_eq!(parse_cidr("fd00::/7").unwrap().prefix, 7);
}

#[test]
fn frames_come_back_as_they_were_sent() {
    let frame = encode_carrier_frame(CARRIER_FRAME_DATA, 0x0102, b"xyz");
    assert_eq!(frame.len(), 20);
    assert_eq!(frame[0], 0);
    assert_eq!(&frame[1..17], &[0, 0, 0, 0, 0, 0, 0, 0, 0, 0, 0, 0, 0, 0, 1, 2]);
    assert_eq!(&frame[17..], b"xyz");
    assert_eq!(decode_carrier_frame(&frame), Some((CARRIER_FRAME_DATA, 0x0102, b"xyz".to_vec())));
    let fin = encode_carrier_frame(CARRIER_FRAME_FIN, u128::MAX, b"");
    assert_eq!(decode_carrier_frame(&fin), Some((CARRIER_FRAME_FIN, u128::MAX, vec![])));
    assert_eq!(decode_carrier_frame(&fin[..16]), None);
    assert_eq!(decode_carrier_frame(b""), None);
    assert_eq!([CARRIER_FRAME_RESET, CARRIER_FRAME_DATAGRAM], [2, 3]);
    assert_eq!(MAX_UDP_DATAGRAM, 65507);
}

#[test]
fn records_are_cut_from_a_stream() {
    let mut stream = encode_record(RECORD_CONTROL, b"hello");
    assert_eq!(stream, [0, 0, 0, 0, 5, b'h', b'e', b'l', b'l', b'o']);
    let first = stream.len();
    stream.extend(encode_record(RECORD_BINARY, b""));
    assert_eq!(
        read_record(&stream),
        RecordRead::Record { kind: RECORD_CONTROL, payload: b"hello".to_vec(), used: first }
    );
    assert_eq!(
        read_record(&stream[first..]),
        RecordRead::Record { kind: RECORD_BINARY, payload: vec![], used: 5 }
    );
    for n in 0..first {
        assert_eq!(read_record(&stream[..n]), RecordRead::NeedMore);
    }
    let mut large = vec![1];
    large.extend(((MAX_RECORD_SIZE + 1) as u32).to_be_bytes());
    assert_eq!(read_record(&large), RecordRead::TooLarge);
    large[1..5].copy_from_slice(&(MAX_RECORD_SIZE as u32).to_be_bytes());
    assert_eq!(read_record(&large), RecordRead::NeedMore);
}

#[test]
fn registries_keep_one_value_under_a_key() {
    let mut names: Registry<String, u64> = Registry::new();
    assert_eq!(names.insert("a".to_owned(), 1), None);
    assert_eq!(names.insert("b".to_owned(), 2), None);
    assert_eq!(names.insert("a".to_owned(), 3), Some(1));
    assert_eq!(names.get(&"a".to_owned()), Some(&3));
    assert_eq!(names.len(), 2);
    assert_eq!(names.remove(&"a".to_owned()), Some(3));
    assert_eq!(names.remove(&"a".to_owned()), None);
    assert!(!names.contains_key(&"a".to_owned()));
    assert_eq!(names.keys(), vec!["b".to_owned()]);
    let mut ids: Registry<u128, &str> = Registry::new();
    for id in 0..10 {
        ids.insert(id, "x");
    }
    assert_eq!(ids.remove(&3), Some("x"));
    assert_eq!(ids.len(), 9);
    assert_eq!(ids.get(&9), Some(&"x"));
    assert_eq!(ids.get(&3), None);
    assert_eq!(ids.at(0), Some((&0, &"x")));
    assert_eq!(ids.at(9), None);
}

#[test]
fn identifiers_have_a_hyphenated_text() {
    let id = 0x67e5504410b1426f9247bb680e5fe0c8;
    assert_eq!(id_string(id), "67e55044-10b1-426f-9247-bb680e5fe0c8");
    assert_eq!(parse_id("67e55044-10b1-426f-9247-bb680e5fe0c8"), Some(id));
    assert_eq!(parse_id("67E5504410B1426F9247BB680E5FE0C8"), Some(id));
    assert_eq!(parse_id("nonsense"), None);
    assert_eq!(id_string(0), "00000000-0000-0000-0000-000000000000");
}

#[test]
fn secrets_are_url_safe_and_differ() {
    assert_eq!(secret_of(b""), "");
    assert_eq!(secret_of(b"f"), "Zg");
    assert_eq!(secret_of(b"fo"), "Zm8");
    assert_eq!(secret_of(b"foo"), "Zm9v");
    assert_eq!(secret_of(&[0xfb, 0xff]), "-_8");
    let secret = random_secret(32);
    assert_eq!(secret.len(), 43);
    assert_ne!(secret, random_secret(32));
}

#[test]
fn tokens_are_kept_as_blake3_digests() {
    assert_eq!(
        hash_token(""),
        "af1349b9f5f9a1a6a0404dea36dcc9499bcb25c9adc112b7cc9a93cae41f3262"
    );
    assert_ne!(hash_token("a"), hash_token("b"));
}

#[test]
fn passwords_fit_their_hashes_alone() {
    let hash = hash_password("correct horse battery").unwrap();
    assert!(hash.starts_with("$argon2id$"));
    assert!(verify_password(&hash, "correct horse battery"));
    assert!(!verify_password(&hash, "correct horse batterz"));
    assert!(!verify_password("no hash", "correct horse battery"));
    let salt = [7_u8; 16];
    assert_eq!(
        hash_with_salt("x", &salt).unwrap(),
        hash_with_salt("x", &salt).unwrap()
    );
    assert_ne!(hash_password("x").unwrap(), hash_password("x").unwrap());
}

#[test]
fn deadlines_are_sums() {
    assert_eq!(after(5, 15), 15_000_000_005);
    assert!(has_room(u128::MAX - 1_000_000_000, 1));
    assert!(!has_room(u128::MAX - 999_999_999, 1));
    let wall = Timestamp { seconds: 100, nanos: 7 };
    assert_eq!(ticket_deadline(wall, 15), Timestamp { seconds: 115, nanos: 7 });
    assert_eq!(ticket_deadline(wall, u64::MAX), Timestamp { seconds: 115, nanos: 7 });
    assert!(!ticket_has_room(Timestamp { seconds: LAST_SECOND, nanos: 0 }, 1));
    assert!(ticket_has_room(Timestamp { seconds: LAST_SECOND - 1, nanos: 0 }, 1));
    assert_eq!(days_before(wall, 1), Timestamp { seconds: 100 - 86_400, nanos: 7 });
    assert!(!days_have_room(wall, i64::MAX));
}

fn variables() -> Variables {
    Variables {
        listen_addr: None,
        database_url: None,
        admin_dist: None,
        admin_password: None,
        port_start: None,
        port_end: None,
        ticket_ttl: None,
        connect_timeout: None,
        idle_timeout: None,
        session_ttl: None,
        audit_retention_days: None,
        secure_cookies: None,
        geoip_url: None,
        web_base_domain: None,
        quic_port: None,
        quic_listen_port: None,
        kcp_port: None,
        udp_session_timeout: None,
        transport_cert_dir: None,
        trusted_proxy_cidrs: None,
    }
}

#[test]
fn settings_have_the_documented_defaults() {
    let config = Config::from_env(variables()).unwrap();
    assert_eq!(socket_string(config.listen_addr), "0.0.0.0:8080");
    assert_eq!(config.database_url, "sqlite://data/tunnelbridge.db?mode=rwc");
    assert_eq!(config.admin_dist, "web/admin/dist");
    assert_eq!(config.admin_password, None);
    assert_eq!((config.port_start, config.port_end), (20000, 20100));
    assert_eq!((config.ticket_ttl, config.connect_timeout), (15, 15));
    assert_eq!((config.idle_timeout, config.session_ttl), (600, 43200));
    assert_eq!(config.audit_retention_days, 30);
    assert!(config.secure_cookies);
    assert_eq!(config.geoip_url, "https://ipwho.is/{ip}");
    assert_eq!((config.quic_port, config.quic_listen_port, config.kcp_port), (443, 7443, 4000));
    assert_eq!(
        config.trusted_proxy_cidrs,
        vec![parse_cidr("127.0.0.0/8").unwrap(), parse_cidr("::1/128").unwrap()]
    );
    assert_eq!(default_quic_port(), 443);
}

#[test]
fn faulty_settings_are_named() {
    let fault = |change: fn(&mut Variables)| {
        let mut v = variables();
        change(&mut v);
        Config::from_env(v).unwrap_err()
    };
    assert_eq!(
        fault(|v| v.listen_addr = Some("nowhere".into())),
        "TB_LISTEN_ADDR must be a socket address"
    );
    assert_eq!(fault(|v| v.port_start = Some("x".into())), "invalid TB_PORT_START");
    assert_eq!(fault(|v| v.port_end = Some("70000".into())), "invalid TB_PORT_END");
    assert_eq!(
        fault(|v| v.port_start = Some("0".into())),
        "invalid public port range 0..=20100"
    );
    assert_eq!(
        fault(|v| v.port_end = Some("5".into())),
        "invalid public port range 20000..=5"
    );
    assert_eq!(fault(|v| v.ticket_ttl = Some("-1".into())), "invalid TB_TICKET_TTL_SECONDS");
    assert_eq!(
        fault(|v| v.connect_timeout = Some("".into())),
        "invalid TB_CONNECT_TIMEOUT_SECONDS"
    );
    assert_eq!(fault(|v| v.idle_timeout = Some("1s".into())), "invalid TB_IDLE_TIMEOUT_SECONDS");
    assert_eq!(fault(|v| v.session_ttl = Some("?".into())), "invalid TB_SESSION_TTL_SECONDS");
    assert_eq!(
        fault(|v| v.audit_retention_days = Some("many".into())),
        "invalid TB_AUDIT_RETENTION_DAYS"
    );
    assert_eq!(fault(|v| v.quic_port = Some("x".into())), "invalid TB_QUIC_PORT");
    assert_eq!(fault(|v| v.quic_listen_port = Some("x".into())), "invalid TB_QUIC_LISTEN_PORT");
    assert_eq!(fault(|v| v.kcp_port = Some("x".into())), "invalid TB_KCP_PORT");
    assert_eq!(
        fault(|v| v.udp_session_timeout = Some("x".into())),
        "invalid TB_UDP_SESSION_TIMEOUT_SECONDS"
    );
    assert_eq!(
        fault(|v| v.trusted_proxy_cidrs = Some("10.0.0.0/8, x".into())),
        "invalid TB_TRUSTED_PROXY_CIDRS"
    );
    let mut v = variables();
    v.secure_cookies = Some("false".into());
    v.audit_retention_days = Some("-3".into());
    v.trusted_proxy_cidrs = Some("10.0.0.0/8 , ::1/128".into());
    let config = Config::from_env(v).unwrap();
    assert!(!config.secure_cookies);
    assert_eq!(config.audit_retention_days, -3);
    assert_eq!(config.trusted_proxy_cidrs[0], parse_cidr("10.0.0.0/8").unwrap());
}

#[test]
fn errors_are_answered_by_kind() {
    let reply = |e: AppError| {
        let (status, body) = e.into_response();
        (status, body.code, body.message)
    };
    assert_eq!(
        reply(AppError::BadRequest("why".into())),
        (400, "bad_request".into(), "why".into())
    );
    assert_eq!(
        reply(AppError::Unauthorized),
        (401, "unauthorized".into(), "Authentication required".into())
    );
    assert_eq!(reply(AppError::Forbidden), (403, "forbidden".into(), "Forbidden".into()));
    assert_eq!(reply(AppError::NotFound), (404, "not_found".into(), "Not found".into()));
    assert_eq!(reply(AppError::Conflict("c".into())), (409, "conflict".into(), "c".into()));
    assert_eq!(
        reply(AppError::Internal("secret".into())),
        (500, "internal_error".into(), "Internal server error".into())
    );
    assert_eq!(AppError::Conflict("c".into()).describe(), "conflict: c");
    assert_eq!(AppError::Unauthorized.describe(), "authentication required");
}

#[test]
fn locations_are_remembered_until_they_expire() {
    let second = 1_000_000_000_u128;
    let mut geo = GeoIpResolver::new("https://geo.test/".to_owned());
    assert_eq!(geo.lookup(ip("10.1.2.3"), 0), Lookup::Known(None));
    assert_eq!(
        geo.lookup(ip("::ffff:8.8.8.8"), 0),
        Lookup::Fetch("https://geo.test/8.8.8.8".to_owned())
    );
    let answer = GeoIpResponse {
        country_name: Some("United States".into()),
        country_code: Some(" us".into()),
    };
    let place = GeoLocation { country_code: "US".into(), country_name: "United States".into() };
    assert_eq!(geo.finish(ip("8.8.8.8"), Some(answer), 0), Some(place.clone()));
    assert_eq!(geo.lookup(ip("8.8.8.8"), 86_400 * second - 1), Lookup::Known(Some(place)));
    assert!(matches!(geo.lookup(ip("8.8.8.8"), 86_400 * second), Lookup::Fetch(_)));
    assert_eq!(geo.finish(ip("9.9.9.9"), None, 0), None);
    assert_eq!(geo.lookup(ip("9.9.9.9"), 600 * second - 1), Lookup::Known(None));
    assert!(matches!(geo.lookup(ip("9.9.9.9"), 600 * second), Lookup::Fetch(_)));
    let mut off = GeoIpResolver::new(" OFF ".to_owned());
    assert_eq!(off.lookup(ip("8.8.8.8"), 0), Lookup::Known(None));
}

#[test]
fn locations_need_a_code_and_a_name() {
    let read = |name: &str, code: &str| {
        parse_location(GeoIpResponse {
            country_name: Some(name.to_owned()),
            country_code: Some(code.to_owned()),
        })
    };
    assert!(read("Germany", "de").is_some());
    assert!(read("Germany", "deu").is_none());
    assert!(read("Germany", "d1").is_none());
    assert!(read(" ", "de").is_none());
    assert!(read("Germany", "ß").is_none());
    assert!(parse_location(GeoIpResponse { country_name: None, country_code: Some("de".into()) }).is_none());
    assert!(GeoIpResponse::from_fields(Some(None), Some(None), None, None).is_none());
    assert_eq!(endpoint_for("http://g//", ip("::1")), "http://g/::1");
    assert_eq!(endpoint_for("{ip}/{ip}", ip("1.2.3.4")), "1.2.3.4/1.2.3.4");
}

#[test]
fn defaults_are_plain() {
    assert_eq!(TransportMode::default(), TransportMode::Auto);
    assert_eq!(MetricsSnapshot::default().bytes_up, 0);
}

#[test]
fn points_in_time_have_a_text() {
    let at = |seconds: i64, nanos: u32| Timestamp { seconds, nanos };
    assert_eq!(time_string(at(1_700_000_000, 0)), "2023-11-14T22:13:20+00:00");
    assert_eq!(time_string(at(1_700_000_000, 120_000_000)), "2023-11-14T22:13:20.120+00:00");
    assert!(at(0, 999_999_999).is_valid() && !at(0, 1_000_000_000).is_valid());
    assert!(at(59, 1_999_999_999).is_valid() && !at(59, 2_000_000_000).is_valid());
    assert!(!at(i64::MAX, 0).is_valid() && !at(i64::MIN, 0).is_valid());
}

#[test]
fn intervals_are_the_documented_ones() {
    assert_eq!((HEARTBEAT_SECONDS, QUIC_PROBE_SECONDS, QUIC_CONNECT_SECONDS), (20, 300, 5));
    assert_eq!((STREAM_IDLE_SECONDS, UDP_IDLE_SECONDS, UDP_UPKEEP_SECONDS), (600, 60, 5));
    assert_eq!((CLEANUP_SECONDS, QUIC_KEEP_ALIVE_SECONDS), (3600, 15));
    assert_eq!((GEO_LOOKUP_MILLIS, LISTENER_PAUSE_MILLIS), (900, 25));
}
