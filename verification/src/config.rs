//! The settings of the relay.
use crate::net::{self, all_valid, cidr_value, Cidr, IpAddr};
use crate::protocol::opt_text;
use crate::socket::{parse_socket, socket_value, SocketAddr};
use crate::text;
use vstd::prelude::*;

verus! {

/// The variables that hold the settings; what is not set, or is no text, is absent.
#[derive(Debug, Clone)]
pub struct Variables {
    pub listen_addr: Option<String>,
    pub database_url: Option<String>,
    pub admin_dist: Option<String>,
    pub admin_password: Option<String>,
    pub port_start: Option<String>,
    pub port_end: Option<String>,
    pub ticket_ttl: Option<String>,
    pub connect_timeout: Option<String>,
    pub idle_timeout: Option<String>,
    pub session_ttl: Option<String>,
    pub audit_retention_days: Option<String>,
    pub secure_cookies: Option<String>,
    pub geoip_url: Option<String>,
    pub web_base_domain: Option<String>,
    pub quic_port: Option<String>,
    pub quic_listen_port: Option<String>,
    pub kcp_port: Option<String>,
    pub udp_session_timeout: Option<String>,
    pub transport_cert_dir: Option<String>,
    pub trusted_proxy_cidrs: Option<String>,
}

/// The settings of the relay. Times to live and timeouts are in seconds.
#[derive(Debug, Clone)]
pub struct Config {
    pub listen_addr: SocketAddr,
    pub database_url: String,
    pub admin_dist: String,
    pub admin_password: Option<String>,
    pub port_start: u16,
    pub port_end: u16,
    pub ticket_ttl: u64,
    pub connect_timeout: u64,
    pub idle_timeout: u64,
    pub session_ttl: u64,
    pub audit_retention_days: i64,
    pub secure_cookies: bool,
    pub geoip_url: String,
    pub web_base_domain: String,
    pub quic_port: u16,
    pub quic_listen_port: u16,
    pub kcp_port: u16,
    pub udp_session_timeout: u64,
    pub transport_cert_dir: String,
    pub trusted_proxy_cidrs: Vec<Cidr>,
}

/// The text of a variable, or a default.
pub open spec fn text_or(var: Option<String>, default: Seq<char>) -> Seq<char> {
    match var {
        Some(s) => s@,
        None => default,
    }
}

/// The number in a variable, or a default; nothing where the variable holds no number up to `max`.
pub open spec fn number_or(var: Option<String>, default: nat, max: nat) -> Option<nat> {
    match var {
        Some(s) => text::parsed_unsigned(s@, max),
        None => Some(default),
    }
}

/// The days in a variable, or a default.
pub open spec fn days_or(var: Option<String>, default: int) -> Option<int> {
    match var {
        Some(s) => text::parsed_signed(s@),
        None => Some(default),
    }
}

/// The blocks that a list of texts names, where each names one.
pub open spec fn blocks_of(items: Seq<Seq<char>>) -> Option<Seq<Cidr>>
    decreases items.len(),
{
    if items.len() == 0 {
        Some(Seq::empty())
    } else {
        match (blocks_of(items.drop_last()), cidr_value(text::trimmed(items.last()))) {
            (Some(list), Some(c)) => Some(list.push(c)),
            _ => None,
        }
    }
}

/// The blocks that a text lists between commas.
pub open spec fn block_list(s: Seq<char>) -> Option<Seq<Cidr>> {
    blocks_of(text::parts(s, ','))
}

/// The address in a variable; port 8080 of every interface where it is not set.
pub open spec fn listen_of(var: Option<String>) -> Option<SocketAddr> {
    match var {
        Some(s) => socket_value(s@),
        None => Some(SocketAddr { ip: IpAddr::V4(0), port: 8080, scope: 0 }),
    }
}

/// The blocks in a variable; those of this machine itself, `127.0.0.0/8` and `::1/128`, where it is
/// not set.
pub open spec fn proxies_of(var: Option<String>) -> Option<Seq<Cidr>> {
    match var {
        Some(s) => block_list(s@),
        None => Some(
            seq![
                Cidr { addr: IpAddr::V4(0x7f00_0000), prefix: 8 },
                Cidr { addr: IpAddr::V6(1), prefix: 128 },
            ],
        ),
    }
}

/// What is wrong with the variables, if anything: the first fault in the order in which they are
/// read.
pub open spec fn config_fault(v: Variables) -> Option<Seq<char>> {
    if listen_of(v.listen_addr) is None {
        Some("TB_LISTEN_ADDR must be a socket address"@)
    } else if number_or(v.port_start, 20_000, 65535) is None {
        Some("invalid TB_PORT_START"@)
    } else if number_or(v.port_end, 20_100, 65535) is None {
        Some("invalid TB_PORT_END"@)
    } else if number_or(v.port_start, 20_000, 65535)->0 == 0 || number_or(
        v.port_start,
        20_000,
        65535,
    )->0 > number_or(v.port_end, 20_100, 65535)->0 {
        Some(
            "invalid public port range "@ + text::decimal(
                number_or(v.port_start, 20_000, 65535)->0,
            ) + "..="@ + text::decimal(number_or(v.port_end, 20_100, 65535)->0),
        )
    } else if number_or(v.ticket_ttl, 15, u64::MAX as nat) is None {
        Some("invalid TB_TICKET_TTL_SECONDS"@)
    } else if number_or(v.connect_timeout, 15, u64::MAX as nat) is None {
        Some("invalid TB_CONNECT_TIMEOUT_SECONDS"@)
    } else if number_or(v.idle_timeout, 600, u64::MAX as nat) is None {
        Some("invalid TB_IDLE_TIMEOUT_SECONDS"@)
    } else if number_or(v.session_ttl, 43_200, u64::MAX as nat) is None {
        Some("invalid TB_SESSION_TTL_SECONDS"@)
    } else if days_or(v.audit_retention_days, 30) is None {
        Some("invalid TB_AUDIT_RETENTION_DAYS"@)
    } else if number_or(v.quic_port, 443, 65535) is None {
        Some("invalid TB_QUIC_PORT"@)
    } else if number_or(v.quic_listen_port, 7443, 65535) is None {
        Some("invalid TB_QUIC_LISTEN_PORT"@)
    } else if number_or(v.kcp_port, 4000, 65535) is None {
        Some("invalid TB_KCP_PORT"@)
    } else if number_or(v.udp_session_timeout, 60, u64::MAX as nat) is None {
        Some("invalid TB_UDP_SESSION_TIMEOUT_SECONDS"@)
    } else if proxies_of(v.trusted_proxy_cidrs) is None {
        Some("invalid TB_TRUSTED_PROXY_CIDRS"@)
    } else {
        None
    }
}

impl Config {
    /// The port range is not empty and does not hold port zero; the blocks are valid.
    pub open spec fn wf(self) -> bool {
        &&& 1 <= self.port_start <= self.port_end
        &&& all_valid(self.trusted_proxy_cidrs@)
    }

    /// Whether these are the settings that the variables give.
    pub open spec fn reads(self, v: Variables) -> bool {
        &&& listen_of(v.listen_addr) == Some(self.listen_addr)
        &&& self.database_url@ == text_or(v.database_url, "sqlite://data/tunnelbridge.db?mode=rwc"@)
        &&& self.admin_dist@ == text_or(v.admin_dist, "web/admin/dist"@)
        &&& opt_text(self.admin_password) == opt_text(v.admin_password)
        &&& number_or(v.port_start, 20_000, 65535) == Some(self.port_start as nat)
        &&& number_or(v.port_end, 20_100, 65535) == Some(self.port_end as nat)
        &&& number_or(v.ticket_ttl, 15, u64::MAX as nat) == Some(self.ticket_ttl as nat)
        &&& number_or(v.connect_timeout, 15, u64::MAX as nat) == Some(self.connect_timeout as nat)
        &&& number_or(v.idle_timeout, 600, u64::MAX as nat) == Some(self.idle_timeout as nat)
        &&& number_or(v.session_ttl, 43_200, u64::MAX as nat) == Some(self.session_ttl as nat)
        &&& days_or(v.audit_retention_days, 30) == Some(self.audit_retention_days as int)
        &&& self.secure_cookies == (text_or(v.secure_cookies, "true"@) != "false"@)
        &&& self.geoip_url@ == text_or(v.geoip_url, "https://ipwho.is/{ip}"@)
        &&& self.web_base_domain@ == text_or(v.web_base_domain, "localhost"@)
        &&& number_or(v.quic_port, 443, 65535) == Some(self.quic_port as nat)
        &&& number_or(v.quic_listen_port, 7443, 65535) == Some(self.quic_listen_port as nat)
        &&& number_or(v.kcp_port, 4000, 65535) == Some(self.kcp_port as nat)
        &&& number_or(v.udp_session_timeout, 60, u64::MAX as nat) == Some(
            self.udp_session_timeout as nat,
        )
        &&& self.transport_cert_dir@ == text_or(v.transport_cert_dir, "data/transport"@)
        &&& proxies_of(v.trusted_proxy_cidrs) == Some(self.trusted_proxy_cidrs@)
    }

    /// Reads the settings from the variables.
    pub fn from_env(v: Variables) -> (r: Result<Config, String>)
        ensures
            r is Ok <==> config_fault(v) is None,
            r matches Ok(c) ==> c.reads(v) && c.wf(),
            r matches Err(e) ==> config_fault(v) == Some(e@),
    {
        proof {
            reveal_strlit("true");
            reveal_strlit("false");
            assert("true"@ != "false"@) by {
                assert("true"@.len() != "false"@.len());
            }
        }
        let secure_cookies: bool = match &v.secure_cookies {
            Some(s) => !text::same(s.as_str(), "false"),
            None => true,
        };
        let listen = match &v.listen_addr {
            Some(s) => parse_socket(s.as_str()),
            None => Some(SocketAddr { ip: IpAddr::V4(0), port: 8080, scope: 0 }),
        };
        let listen_addr = match listen {
            Some(a) => a,
            None => {
                return Err("TB_LISTEN_ADDR must be a socket address".to_owned());
            },
        };
        let port_start = match parse_env(&v.port_start, 20_000, 65535) {
            Some(n) => n as u16,
            None => {
                return Err("invalid TB_PORT_START".to_owned());
            },
        };
        let port_end = match parse_env(&v.port_end, 20_100, 65535) {
            Some(n) => n as u16,
            None => {
                return Err("invalid TB_PORT_END".to_owned());
            },
        };
        if port_start == 0 || port_start > port_end {
            let mut message: String = "invalid public port range ".to_owned();
            message.append(text::decimal_text(port_start as u64).as_str());
            message.append("..=");
            message.append(text::decimal_text(port_end as u64).as_str());
            return Err(message);
        }
        let ticket_ttl = match parse_env(&v.ticket_ttl, 15, u64::MAX) {
            Some(n) => n,
            None => {
                return Err("invalid TB_TICKET_TTL_SECONDS".to_owned());
            },
        };
        let connect_timeout = match parse_env(&v.connect_timeout, 15, u64::MAX) {
            Some(n) => n,
            None => {
                return Err("invalid TB_CONNECT_TIMEOUT_SECONDS".to_owned());
            },
        };
        let idle_timeout = match parse_env(&v.idle_timeout, 600, u64::MAX) {
            Some(n) => n,
            None => {
                return Err("invalid TB_IDLE_TIMEOUT_SECONDS".to_owned());
            },
        };
        let session_ttl = match parse_env(&v.session_ttl, 43_200, u64::MAX) {
            Some(n) => n,
            None => {
                return Err("invalid TB_SESSION_TTL_SECONDS".to_owned());
            },
        };
        let audit_retention_days: i64 = match &v.audit_retention_days {
            Some(s) => match text::parse_signed(s.as_str()) {
                Some(n) => n,
                None => {
                    return Err("invalid TB_AUDIT_RETENTION_DAYS".to_owned());
                },
            },
            None => 30,
        };
        let quic_port = match parse_env(&v.quic_port, 443, 65535) {
            Some(n) => n as u16,
            None => {
                return Err("invalid TB_QUIC_PORT".to_owned());
            },
        };
        let quic_listen_port = match parse_env(&v.quic_listen_port, 7443, 65535) {
            Some(n) => n as u16,
            None => {
                return Err("invalid TB_QUIC_LISTEN_PORT".to_owned());
            },
        };
        let kcp_port = match parse_env(&v.kcp_port, 4000, 65535) {
            Some(n) => n as u16,
            None => {
                return Err("invalid TB_KCP_PORT".to_owned());
            },
        };
        let udp_session_timeout = match parse_env(&v.udp_session_timeout, 60, u64::MAX) {
            Some(n) => n,
            None => {
                return Err("invalid TB_UDP_SESSION_TIMEOUT_SECONDS".to_owned());
            },
        };
        let proxies = match &v.trusted_proxy_cidrs {
            Some(s) => parse_blocks(s.as_str()),
            None => Some(
                vec![
                    Cidr { addr: IpAddr::V4(0x7f00_0000), prefix: 8 },
                    Cidr { addr: IpAddr::V6(1), prefix: 128 },
                ],
            ),
        };
        let trusted_proxy_cidrs = match proxies {
            Some(list) => list,
            None => {
                return Err("invalid TB_TRUSTED_PROXY_CIDRS".to_owned());
            },
        };
        Ok(
            Config {
                listen_addr,
                database_url: or_default(&v.database_url, "sqlite://data/tunnelbridge.db?mode=rwc"),
                admin_dist: or_default(&v.admin_dist, "web/admin/dist"),
                admin_password: v.admin_password,
                port_start,
                port_end,
                ticket_ttl,
                connect_timeout,
                idle_timeout,
                session_ttl,
                audit_retention_days,
                secure_cookies,
                geoip_url: or_default(&v.geoip_url, "https://ipwho.is/{ip}"),
                web_base_domain: or_default(&v.web_base_domain, "localhost"),
                quic_port,
                quic_listen_port,
                kcp_port,
                udp_session_timeout,
                transport_cert_dir: or_default(&v.transport_cert_dir, "data/transport"),
                trusted_proxy_cidrs,
            },
        )
    }
}

/// The text of a variable, or a default.
fn or_default(var: &Option<String>, default: &str) -> (r: String)
    ensures
        r@ == text_or(*var, default@),
{
    match var {
        Some(s) => s.clone(),
        None => default.to_owned(),
    }
}

/// The number in a variable, or a default.
fn parse_env(var: &Option<String>, default: u64, max: u64) -> (r: Option<u64>)
    requires
        default <= max,
    ensures
        r is Some <==> number_or(*var, default as nat, max as nat) is Some,
        r matches Some(n) ==> number_or(*var, default as nat, max as nat) == Some(n as nat) && n
            <= max,
{
    match var {
        Some(s) => text::parse_unsigned(s.as_str(), max),
        None => Some(default),
    }
}

/// Reads address blocks between commas.
fn parse_blocks(s: &str) -> (r: Option<Vec<Cidr>>)
    ensures
        r is Some <==> block_list(s@) is Some,
        r matches Some(list) ==> block_list(s@) == Some(list@) && all_valid(list@),
{
    let items = text::split(s, ',');
    let ghost all = text::views(items@);
    let mut out: Vec<Cidr> = Vec::new();
    let mut i: usize = 0;
    assert(all.take(0) =~= Seq::<Seq<char>>::empty());
    while i < items.len()
        invariant
            i <= items@.len(),
            all == text::views(items@),
            all == text::parts(s@, ','),
            blocks_of(all.take(i as int)) == Some(out@),
            all_valid(out@),
        decreases items@.len() - i,
    {
        assert(all.take(i + 1).drop_last() =~= all.take(i as int));
        assert(all.take(i + 1).last() == items@[i as int]@);
        match net::parse_cidr(text::trim(items[i])) {
            Some(c) => out.push(c),
            None => {
                proof {
                    lemma_blocks_stop(all, i + 1);
                }
                return None;
            },
        }
        i += 1;
    }
    assert(all.take(i as int) =~= all);
    Some(out)
}

/// Nothing has to be set: without variables there is nothing wrong, and the settings are the usual
/// ones.
pub proof fn law_defaults_are_valid(v: Variables, c: Config)
    requires
        v.listen_addr is None,
        v.port_start is None,
        v.port_end is None,
        v.ticket_ttl is None,
        v.connect_timeout is None,
        v.idle_timeout is None,
        v.session_ttl is None,
        v.audit_retention_days is None,
        v.quic_port is None,
        v.quic_listen_port is None,
        v.kcp_port is None,
        v.udp_session_timeout is None,
        v.trusted_proxy_cidrs is None,
    ensures
        config_fault(v) is None,
        c.reads(v) ==> c.wf() && c.listen_addr == (SocketAddr {
            ip: IpAddr::V4(0),
            port: 8080,
            scope: 0,
        }) && c.port_start == 20_000 && c.port_end == 20_100 && c.trusted_proxy_cidrs@
            == proxies_of(None)->0,
{
    assert(all_valid(proxies_of(None)->0));
}

/// A list with a faulty start is faulty.
proof fn lemma_blocks_stop(items: Seq<Seq<char>>, i: int)
    requires
        0 <= i <= items.len(),
        blocks_of(items.take(i)) is None,
    ensures
        blocks_of(items) is None,
    decreases items.len(),
{
    if i == items.len() {
        assert(items.take(i) =~= items);
    } else {
        assert(items.drop_last().take(i) =~= items.take(i));
        lemma_blocks_stop(items.drop_last(), i);
    }
}

/// A variable that is set is taken over, each into its own setting; a number as it is written.
pub proof fn law_variables_are_taken_over(v: Variables, c: Config, n: nat)
    requires
        c.reads(v),
    ensures
        v.database_url matches Some(s) ==> c.database_url@ == s@,
        v.admin_dist matches Some(s) ==> c.admin_dist@ == s@,
        v.admin_password matches Some(s) ==> opt_text(c.admin_password) == Some(s@),
        v.admin_password is None ==> c.admin_password is None,
        v.geoip_url matches Some(s) ==> c.geoip_url@ == s@,
        v.web_base_domain matches Some(s) ==> c.web_base_domain@ == s@,
        v.transport_cert_dir matches Some(s) ==> c.transport_cert_dir@ == s@,
        v.secure_cookies matches Some(s) ==> (c.secure_cookies <==> s@ != "false"@),
        v.listen_addr matches Some(s) ==> socket_value(s@) == Some(c.listen_addr),
        v.port_start matches Some(s) ==> s@ == text::decimal(n) ==> c.port_start == n,
        v.port_end matches Some(s) ==> s@ == text::decimal(n) ==> c.port_end == n,
        v.ticket_ttl matches Some(s) ==> s@ == text::decimal(n) ==> c.ticket_ttl == n,
        v.connect_timeout matches Some(s) ==> s@ == text::decimal(n) ==> c.connect_timeout == n,
        v.idle_timeout matches Some(s) ==> s@ == text::decimal(n) ==> c.idle_timeout == n,
        v.session_ttl matches Some(s) ==> s@ == text::decimal(n) ==> c.session_ttl == n,
        v.audit_retention_days matches Some(s) ==> s@ == text::decimal(n)
            ==> c.audit_retention_days == n,
        v.quic_port matches Some(s) ==> s@ == text::decimal(n) ==> c.quic_port == n,
        v.quic_listen_port matches Some(s) ==> s@ == text::decimal(n) ==> c.quic_listen_port == n,
        v.kcp_port matches Some(s) ==> s@ == text::decimal(n) ==> c.kcp_port == n,
        v.udp_session_timeout matches Some(s) ==> s@ == text::decimal(n) ==> c.udp_session_timeout
            == n,
{
    text::law_numbers_are_read(n, 65535, Seq::empty(), 0);
    text::law_numbers_are_read(n, u64::MAX as nat, Seq::empty(), 0);
}

/// A setting that is not set has its usual value.
pub proof fn law_usual_settings(v: Variables, c: Config)
    requires
        c.reads(v),
    ensures
        v.listen_addr is None ==> c.listen_addr.ip == IpAddr::V4(0) && c.listen_addr.port == 8080,
        v.port_start is None ==> c.port_start == 20000,
        v.port_end is None ==> c.port_end == 20100,
        v.ticket_ttl is None ==> c.ticket_ttl == 15,
        v.connect_timeout is None ==> c.connect_timeout == 15,
        v.idle_timeout is None ==> c.idle_timeout == 600,
        v.session_ttl is None ==> c.session_ttl == 12 * 60 * 60,
        v.audit_retention_days is None ==> c.audit_retention_days == 30,
        v.secure_cookies is None ==> c.secure_cookies,
        v.quic_port is None ==> c.quic_port == 443,
        v.quic_listen_port is None ==> c.quic_listen_port == 7443,
        v.kcp_port is None ==> c.kcp_port == 4000,
        v.udp_session_timeout is None ==> c.udp_session_timeout == 60,
        v.database_url is None ==> c.database_url@ == "sqlite://data/tunnelbridge.db?mode=rwc"@,
        v.admin_dist is None ==> c.admin_dist@ == "web/admin/dist"@,
        v.geoip_url is None ==> c.geoip_url@ == "https://ipwho.is/{ip}"@,
        v.web_base_domain is None ==> c.web_base_domain@ == "localhost"@,
        v.transport_cert_dir is None ==> c.transport_cert_dir@ == "data/transport"@,
{
    reveal_strlit("true");
    reveal_strlit("false");
    assert("true"@.len() != "false"@.len());
}

/// The trusted proxies are those that the variable lists between commas, each of them and in order,
/// white space around them not counted; one that is no block spoils the list.
pub proof fn law_proxies_are_listed(items: Seq<Seq<char>>, item: Seq<char>)
    ensures
        blocks_of(Seq::empty()) == Some(Seq::<Cidr>::empty()),
        cidr_value(text::trimmed(item)) is None ==> blocks_of(items.push(item)) is None,
        blocks_of(items) is None ==> blocks_of(items.push(item)) is None,
        blocks_of(items) matches Some(list) ==> cidr_value(text::trimmed(item)) matches Some(c)
            ==> blocks_of(items.push(item)) == Some(list.push(c)),
        !item.contains(',') ==> block_list(item) == blocks_of(seq![item]),
{
    assert(items.push(item).drop_last() =~= items);
}

/// Settings are refused only for what is wrong with them: where every variable that is set holds what
/// it should, and the range of ports is not empty, there is nothing wrong.
pub proof fn law_sound_settings_are_taken(v: Variables)
    requires
        listen_of(v.listen_addr) is Some,
        number_or(v.port_start, 20_000, 65535) is Some,
        number_or(v.port_end, 20_100, 65535) is Some,
        1 <= number_or(v.port_start, 20_000, 65535)->0 <= number_or(v.port_end, 20_100, 65535)->0,
        v.ticket_ttl matches Some(s) ==> text::parsed_unsigned(s@, u64::MAX as nat) is Some,
        v.connect_timeout matches Some(s) ==> text::parsed_unsigned(s@, u64::MAX as nat) is Some,
        v.idle_timeout matches Some(s) ==> text::parsed_unsigned(s@, u64::MAX as nat) is Some,
        v.session_ttl matches Some(s) ==> text::parsed_unsigned(s@, u64::MAX as nat) is Some,
        v.audit_retention_days matches Some(s) ==> text::parsed_signed(s@) is Some,
        v.quic_port matches Some(s) ==> text::parsed_unsigned(s@, 65535) is Some,
        v.quic_listen_port matches Some(s) ==> text::parsed_unsigned(s@, 65535) is Some,
        v.kcp_port matches Some(s) ==> text::parsed_unsigned(s@, 65535) is Some,
        v.udp_session_timeout matches Some(s) ==> text::parsed_unsigned(s@, u64::MAX as nat) is Some,
        proxies_of(v.trusted_proxy_cidrs) is Some,
    ensures
        config_fault(v) is None,
{
}

/// Where no proxies are named, those of this machine itself are trusted, and no others.
pub proof fn law_this_machine_is_trusted(ip: IpAddr)
    ensures
        proxies_of(None) matches Some(list) && (net::any_covers(list, ip) <==> ip.loopback()),
{
    let list = proxies_of(None)->0;
    net::law_blocks_are_ranges(list[0], ip);
    net::law_blocks_are_ranges(list[1], ip);
    vstd::arithmetic::power2::lemma2_to64();
    assert(list.len() == 2);
    assert(vstd::arithmetic::power2::pow2(24) == 0x100_0000);
    if net::any_covers(list, ip) {
        let i = choose|i: int| 0 <= i < list.len() && (#[trigger] list[i]).covers(ip);
        assert(i == 0 || i == 1);
        assert(list[i].covers(ip));
    }
    if ip.loopback() {
        if ip is V4 {
            assert(list[0].covers(ip));
        } else {
            assert(list[1].covers(ip));
        }
    }
}

/// Settings that are taken hold what they should, and the first variable that does not is told.
pub proof fn law_unsound_settings_are_told(v: Variables)
    ensures
        ({
            let e = config_fault(v);
            let start = number_or(v.port_start, 20_000, 65535);
            let end = number_or(v.port_end, 20_100, 65535);
            let ports = listen_of(v.listen_addr) is Some && start is Some && end is Some && 1
                <= start->0 <= end->0;
            let ticket = number_or(v.ticket_ttl, 15, u64::MAX as nat);
            let connect = number_or(v.connect_timeout, 15, u64::MAX as nat);
            let idle = number_or(v.idle_timeout, 600, u64::MAX as nat);
            let session = number_or(v.session_ttl, 43_200, u64::MAX as nat);
            let times = ports && ticket is Some && connect is Some && idle is Some && session
                is Some && days_or(v.audit_retention_days, 30) is Some;
            let quic = number_or(v.quic_port, 443, 65535);
            let listen = number_or(v.quic_listen_port, 7443, 65535);
            let kcp = number_or(v.kcp_port, 4000, 65535);
            let udp = number_or(v.udp_session_timeout, 60, u64::MAX as nat);
            let carriers = times && quic is Some && listen is Some && kcp is Some && udp is Some;
            &&& e is None <==> carriers && proxies_of(v.trusted_proxy_cidrs) is Some
            &&& listen_of(v.listen_addr) is None ==> e == Some(
                "TB_LISTEN_ADDR must be a socket address"@,
            )
            &&& listen_of(v.listen_addr) is Some && start is None ==> e == Some(
                "invalid TB_PORT_START"@,
            )
            &&& listen_of(v.listen_addr) is Some && start is Some && end is None ==> e == Some(
                "invalid TB_PORT_END"@,
            )
            &&& listen_of(v.listen_addr) is Some && start is Some && end is Some && !ports ==> e
                == Some(
                "invalid public port range "@ + text::decimal(start->0) + "..="@ + text::decimal(
                    end->0,
                ),
            )
            &&& ports && ticket is None ==> e == Some("invalid TB_TICKET_TTL_SECONDS"@)
            &&& ports && ticket is Some && connect is None ==> e == Some(
                "invalid TB_CONNECT_TIMEOUT_SECONDS"@,
            )
            &&& ports && ticket is Some && connect is Some && idle is None ==> e == Some(
                "invalid TB_IDLE_TIMEOUT_SECONDS"@,
            )
            &&& ports && ticket is Some && connect is Some && idle is Some && session is None ==> e
                == Some("invalid TB_SESSION_TTL_SECONDS"@)
            &&& ports && ticket is Some && connect is Some && idle is Some && session is Some
                && !times ==> e == Some("invalid TB_AUDIT_RETENTION_DAYS"@)
            &&& times && quic is None ==> e == Some("invalid TB_QUIC_PORT"@)
            &&& times && quic is Some && listen is None ==> e == Some(
                "invalid TB_QUIC_LISTEN_PORT"@,
            )
            &&& times && quic is Some && listen is Some && kcp is None ==> e == Some(
                "invalid TB_KCP_PORT"@,
            )
            &&& times && quic is Some && listen is Some && kcp is Some && udp is None ==> e == Some(
                "invalid TB_UDP_SESSION_TIMEOUT_SECONDS"@,
            )
            &&& carriers && e is Some ==> e == Some("invalid TB_TRUSTED_PROXY_CIDRS"@)
        }),
{
}

} // verus!
