//! Socket addresses: an Internet address with a port.
use crate::net::{self, IpAddr};
use crate::text;
use vstd::prelude::*;

verus! {

/// A socket address. The scope tells interfaces apart and belongs to an IPv6 address alone.
#[derive(Debug, Clone, Copy, PartialEq, Eq, Structural)]
pub struct SocketAddr {
    pub ip: IpAddr,
    pub port: u16,
    pub scope: u32,
}

impl SocketAddr {
    /// An IPv4 address has no scope.
    pub open spec fn wf(self) -> bool {
        self.ip is V4 ==> self.scope == 0
    }
}

/// The number that a run of digits names, up to `max`.
pub open spec fn number_value(s: Seq<char>, max: nat) -> Option<nat> {
    if text::all_digits(s) && text::digits_value(s) <= max {
        Some(text::digits_value(s))
    } else {
        None
    }
}

/// The address that the text between brackets names: an IPv6 address and, behind a percent sign,
/// its scope.
pub open spec fn bracketed_value(s: Seq<char>) -> Option<(IpAddr, u32)> {
    let scope = if s.contains('%') {
        number_value(text::after(s, '%'), u32::MAX as nat)
    } else {
        Some(0)
    };
    match (net::ip_value(text::before(s, '%')), scope) {
        (Some(IpAddr::V6(v)), Some(n)) => Some((IpAddr::V6(v), n as u32)),
        _ => None,
    }
}

/// The socket address that a text names: `address:port`, with brackets round an IPv6 address.
pub open spec fn socket_value(s: Seq<char>) -> Option<SocketAddr> {
    if s.len() > 0 && s[0] == '[' {
        let rest = s.skip(1);
        let tail = text::after(rest, ']');
        if rest.contains(']') && tail.len() > 0 && tail[0] == ':' {
            match (
                bracketed_value(text::before(rest, ']')),
                number_value(tail.skip(1), u16::MAX as nat),
            ) {
                (Some((ip, scope)), Some(port)) => Some(
                    SocketAddr { ip, port: port as u16, scope },
                ),
                _ => None,
            }
        } else {
            None
        }
    } else if s.contains(':') {
        match (
            net::ipv4_value(text::before(s, ':')),
            number_value(text::after(s, ':'), u16::MAX as nat),
        ) {
            (Some(v), Some(port)) => Some(
                SocketAddr { ip: IpAddr::V4(v), port: port as u16, scope: 0 },
            ),
            _ => None,
        }
    } else {
        None
    }
}

/// The text of a socket address.
pub open spec fn socket_text(a: SocketAddr) -> Seq<char> {
    match a.ip {
        IpAddr::V4(_) => net::ip_text(a.ip) + ":"@ + text::decimal(a.port as nat),
        IpAddr::V6(_) => if a.scope == 0 {
            "["@ + net::ip_text(a.ip) + "]:"@ + text::decimal(a.port as nat)
        } else {
            "["@ + net::ip_text(a.ip) + "%"@ + text::decimal(a.scope as nat) + "]:"@
                + text::decimal(a.port as nat)
        },
    }
}

/// Reads a run of digits.
fn parse_number(s: &str, max: u64) -> (r: Option<u64>)
    ensures
        r is Some <==> number_value(s@, max as nat) is Some,
        r matches Some(v) ==> number_value(s@, max as nat) == Some(v as nat),
{
    if s.unicode_len() > 0 && s.get_char(0) == '+' {
        assert(!text::is_digit(s@[0]));
        return None;
    }
    text::parse_unsigned(s, max)
}

/// Reads what stands between brackets.
fn parse_bracketed(s: &str) -> (r: Option<(IpAddr, u32)>)
    ensures
        r == bracketed_value(s@),
{
    let host = text::take_before(s, '%');
    let scope: u32 = match text::split_once(s, '%') {
        Some((_, digits)) => match parse_number(digits, u32::MAX as u64) {
            Some(n) => n as u32,
            None => {
                return None;
            },
        },
        None => 0,
    };
    match net::parse_ip(host) {
        Some(IpAddr::V6(v)) => Some((IpAddr::V6(v), scope)),
        _ => None,
    }
}

/// Reads a socket address.
pub fn parse_socket(s: &str) -> (r: Option<SocketAddr>)
    ensures
        r == socket_value(s@),
{
    let n: usize = s.unicode_len();
    if n > 0 && s.get_char(0) == '[' {
        let rest = s.substring_char(1, n);
        assert(rest@ =~= s@.skip(1));
        match text::split_once(rest, ']') {
            Some((inside, tail)) => {
                let m: usize = tail.unicode_len();
                if m == 0 || tail.get_char(0) != ':' {
                    return None;
                }
                let digits = tail.substring_char(1, m);
                assert(digits@ =~= tail@.skip(1));
                match parse_bracketed(inside) {
                    Some((ip, scope)) => match parse_number(digits, u16::MAX as u64) {
                        Some(port) => Some(SocketAddr { ip, port: port as u16, scope }),
                        None => None,
                    },
                    None => None,
                }
            },
            None => None,
        }
    } else {
        match text::split_once(s, ':') {
            Some((host, digits)) => match net::parse_ipv4(host) {
                Some(v) => match parse_number(digits, u16::MAX as u64) {
                    Some(port) => Some(
                        SocketAddr { ip: IpAddr::V4(v), port: port as u16, scope: 0 },
                    ),
                    None => None,
                },
                None => None,
            },
            None => None,
        }
    }
}

/// Writes a socket address.
pub fn socket_string(a: SocketAddr) -> (r: String)
    ensures
        r@ == socket_text(a),
{
    let host = net::ip_string(a.ip);
    match a.ip {
        IpAddr::V4(_) => {
            let mut out: String = host;
            out.append(":");
            out.append(text::decimal_text(a.port as u64).as_str());
            out
        },
        IpAddr::V6(_) => {
            let mut out: String = "[".to_owned();
            out.append(host.as_str());
            if a.scope != 0 {
                out.append("%");
                out.append(text::decimal_text(a.scope as u64).as_str());
            }
            out.append("]:");
            out.append(text::decimal_text(a.port as u64).as_str());
            out
        },
    }
}

} // verus!
