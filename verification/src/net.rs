//! Addresses and address blocks.
use crate::text;
use vstd::arithmetic::power2::pow2;
use vstd::prelude::*;

verus! {

/// An Internet address: the four octets of IPv4 or the sixteen of IPv6, as one number.
#[derive(Debug, Clone, Copy, PartialEq, Eq, Hash, Structural)]
pub enum IpAddr {
    V4(u32),
    V6(u128),
}

/// The IPv4 address that an IPv4-mapped IPv6 address carries; any other address is itself.
pub open spec fn unmapped(ip: IpAddr) -> IpAddr {
    match ip {
        IpAddr::V4(_) => ip,
        IpAddr::V6(v) => if v as int / 0x1_0000_0000 == 0xffff {
            IpAddr::V4((v as int % 0x1_0000_0000) as u32)
        } else {
            ip
        },
    }
}

/// Turns an IPv4-mapped IPv6 address into the IPv4 address that it carries.
pub fn normalize_ip(ip: IpAddr) -> (r: IpAddr)
    ensures
        r == unmapped(ip),
{
    match ip {
        IpAddr::V4(_) => ip,
        IpAddr::V6(v) => if v / 0x1_0000_0000 == 0xffff {
            IpAddr::V4((v % 0x1_0000_0000) as u32)
        } else {
            ip
        },
    }
}

/// Normalising twice is normalising once, and two addresses that differ only in the
/// IPv4-mapped form are one.
pub proof fn law_unmapped(ip: IpAddr, v4: u32)
    ensures
        unmapped(unmapped(ip)) == unmapped(ip),
        unmapped(IpAddr::V6((0xffff_0000_0000 + v4) as u128)) == IpAddr::V4(v4),
        unmapped(IpAddr::V4(v4)) == IpAddr::V4(v4),
{
}

impl IpAddr {
    /// 127.0.0.0/8 and ::1.
    pub open spec fn loopback(self) -> bool {
        match self {
            IpAddr::V4(v) => v as int / 0x100_0000 == 127,
            IpAddr::V6(v) => v == 1,
        }
    }

    pub fn is_loopback(&self) -> (r: bool)
        ensures
            r == self.loopback(),
    {
        match *self {
            IpAddr::V4(v) => v / 0x100_0000 == 127,
            IpAddr::V6(v) => v == 1,
        }
    }

    /// The width of the address in bits.
    pub open spec fn width(self) -> nat {
        match self {
            IpAddr::V4(_) => 32,
            IpAddr::V6(_) => 128,
        }
    }

    /// The address as a number.
    pub open spec fn number(self) -> nat {
        match self {
            IpAddr::V4(v) => v as nat,
            IpAddr::V6(v) => v as nat,
        }
    }
}

/// An address block: the addresses that share the first `prefix` bits of `addr`.
#[derive(Debug, Clone, Copy, PartialEq, Eq, Hash, Structural)]
pub struct Cidr {
    pub addr: IpAddr,
    pub prefix: u8,
}

impl Cidr {
    /// The prefix is no longer than the address.
    pub open spec fn valid(self) -> bool {
        self.prefix <= self.addr.width()
    }

    /// The block holds an address of its own family that agrees in the prefix bits.
    pub open spec fn covers(self, ip: IpAddr) -> bool {
        let host_bits = (self.addr.width() - self.prefix) as nat;
        &&& self.addr.width() == ip.width()
        &&& self.addr.number() / pow2(host_bits) == ip.number() / pow2(host_bits)
    }

    /// `ipnet::IpNet::contains` on an address: whether the address lies between the first and
    /// the last address of the block. An address of the other family never does.
    #[verifier::external_body]
    pub(crate) fn contains(&self, ip: IpAddr) -> (r: bool)
        requires
            self.valid(),
        ensures
            r == self.covers(ip),
    {
        let net = match self.addr {
            IpAddr::V4(v) => ipnet::IpNet::from(ipnet::Ipv4Net::new_assert(v.into(), self.prefix)),
            IpAddr::V6(v) => ipnet::IpNet::from(ipnet::Ipv6Net::new_assert(v.into(), self.prefix)),
        };
        let host = match ip {
            IpAddr::V4(v) => ipnet::IpNet::from(ipnet::Ipv4Net::new_assert(v.into(), 32)),
            IpAddr::V6(v) => ipnet::IpNet::from(ipnet::Ipv6Net::new_assert(v.into(), 128)),
        };
        net.contains(&host.addr())
    }
}

/// What `ipnet` reads from the text of an address block.
pub uninterp spec fn cidr_value(text: Seq<char>) -> Option<Cidr>;

/// `ipnet::IpNet` read from text: the named value, which is a valid block.
#[verifier::external_body]
pub(crate) fn read_cidr(text: &str) -> (r: Option<Cidr>)
    ensures
        r == cidr_value(text@),
        r matches Some(c) ==> c.valid(),
{
    let net: ipnet::IpNet = text.parse().ok()?;
    Some(match net {
        ipnet::IpNet::V4(n) => Cidr { addr: IpAddr::V4(n.addr().into()), prefix: n.prefix_len() },
        ipnet::IpNet::V6(n) => Cidr { addr: IpAddr::V6(n.addr().into()), prefix: n.prefix_len() },
    })
}

/// The text of an address block: its address, a slash, and the length of its prefix.
pub open spec fn cidr_text(cidr: Cidr) -> Seq<char> {
    ip_text(cidr.addr) + "/"@ + text::decimal(cidr.prefix as nat)
}

/// Reads an address block such as `10.0.0.0/8`.
pub fn parse_cidr(text: &str) -> (r: Option<Cidr>)
    ensures
        r == cidr_value(text@),
        r matches Some(c) ==> c.valid(),
{
    read_cidr(text)
}

/// Whether some block of a list covers an address.
pub open spec fn any_covers(list: Seq<Cidr>, ip: IpAddr) -> bool {
    exists|i: int| 0 <= i < list.len() && (#[trigger] list[i]).covers(ip)
}

/// Whether every block of a list is valid.
pub open spec fn all_valid(list: Seq<Cidr>) -> bool {
    forall|i: int| 0 <= i < list.len() ==> (#[trigger] list[i]).valid()
}

/// Whether some block of the list holds the address.
pub fn any_contains(list: &Vec<Cidr>, ip: IpAddr) -> (r: bool)
    requires
        all_valid(list@),
    ensures
        r == any_covers(list@, ip),
{
    let mut i: usize = 0;
    while i < list.len()
        invariant
            i <= list.len(),
            all_valid(list@),
            forall|k: int| 0 <= k < i ==> !(#[trigger] list@[k]).covers(ip),
        decreases list.len() - i,
    {
        if list[i].contains(ip) {
            return true;
        }
        i += 1;
    }
    false
}

/// The octet that one part of a dotted address denotes: up to three digits without a
/// superfluous zero in front.
pub open spec fn octet_value(s: Seq<char>) -> Option<nat> {
    if text::all_digits(s) && s.len() <= 3 && (s.len() > 1 ==> s[0] != '0') && text::digits_value(s)
        <= 255 {
        Some(text::digits_value(s))
    } else {
        None
    }
}

/// The address that a dotted text such as `127.0.0.1` denotes.
pub open spec fn ipv4_value(s: Seq<char>) -> Option<u32> {
    let p = text::parts(s, '.');
    if p.len() == 4 {
        match (octet_value(p[0]), octet_value(p[1]), octet_value(p[2]), octet_value(p[3])) {
            (Some(a), Some(b), Some(c), Some(d)) => Some(
                (a * 0x100_0000 + b * 0x1_0000 + c * 0x100 + d) as u32,
            ),
            _ => None,
        }
    } else {
        None
    }
}

/// Reads one part of a dotted address.
fn parse_octet(s: &str) -> (r: Option<u32>)
    ensures
        r is Some <==> octet_value(s@) is Some,
        r matches Some(v) ==> octet_value(s@) == Some(v as nat) && v <= 255,
{
    let n: usize = s.unicode_len();
    if n == 0 || n > 3 {
        return None;
    }
    let first: char = s.get_char(0);
    if first == '+' {
        assert(!text::is_digit(s@[0]));
        return None;
    }
    if n > 1 && first == '0' {
        return None;
    }
    match text::parse_unsigned(s, 255) {
        Some(v) => Some(v as u32),
        None => None,
    }
}

/// Reads a dotted IPv4 address.
pub fn parse_ipv4(s: &str) -> (r: Option<u32>)
    ensures
        r == ipv4_value(s@),
{
    let p = text::split(s, '.');
    let ghost q = text::parts(s@, '.');
    assert(p@.len() == q.len());
    if p.len() != 4 {
        return None;
    }
    assert(q[0] == p@[0]@ && q[1] == p@[1]@ && q[2] == p@[2]@ && q[3] == p@[3]@);
    match (parse_octet(p[0]), parse_octet(p[1]), parse_octet(p[2]), parse_octet(p[3])) {
        (Some(a), Some(b), Some(c), Some(d)) => Some(
            a * 0x100_0000 + b * 0x1_0000 + c * 0x100 + d,
        ),
        _ => None,
    }
}

/// Whether a character is a hexadecimal digit.
pub open spec fn is_hex(c: char) -> bool {
    ||| '0' <= c <= '9'
    ||| 'a' <= c <= 'f'
    ||| 'A' <= c <= 'F'
}

/// The value of a hexadecimal digit.
pub open spec fn hex_digit_value(c: char) -> nat {
    if '0' <= c <= '9' {
        (c as u32 - '0' as u32) as nat
    } else if 'a' <= c <= 'f' {
        (c as u32 - 'a' as u32 + 10) as nat
    } else {
        (c as u32 - 'A' as u32 + 10) as nat
    }
}

/// The number that a run of hexadecimal digits denotes.
pub open spec fn hex_value(s: Seq<char>) -> nat
    decreases s.len(),
{
    if s.len() == 0 {
        0
    } else {
        16 * hex_value(s.drop_last()) + hex_digit_value(s.last())
    }
}

/// Whether a text is a group of an IPv6 address: one to four hexadecimal digits.
pub open spec fn is_group(s: Seq<char>) -> bool {
    1 <= s.len() <= 4 && forall|i: int| 0 <= i < s.len() ==> is_hex(#[trigger] s[i])
}

/// The groups that a colon-separated text denotes. Where `dotted`, the last part may be an
/// IPv4 address, which counts as two groups.
pub open spec fn groups_value(s: Seq<char>, dotted: bool) -> Option<Seq<u16>>
    decreases s.len(),
{
    if s.contains(':') {
        proof {
            text::lemma_first_at(s, ':');
        }
        let head = text::before(s, ':');
        match groups_value(text::after(s, ':'), dotted) {
            Some(rest) => if is_group(head) {
                Some(seq![hex_value(head) as u16] + rest)
            } else {
                None
            },
            None => None,
        }
    } else if is_group(s) {
        Some(seq![hex_value(s) as u16])
    } else if dotted && ipv4_value(s) is Some {
        let v = ipv4_value(s)->0 as int;
        Some(seq![(v / 0x1_0000) as u16, (v % 0x1_0000) as u16])
    } else {
        None
    }
}

/// As `groups_value`, where no text stands for no groups.
pub open spec fn side_value(s: Seq<char>, dotted: bool) -> Option<Seq<u16>> {
    if s.len() == 0 {
        Some(Seq::<u16>::empty())
    } else {
        groups_value(s, dotted)
    }
}

/// Whether a double colon stands at a place.
pub open spec fn gap_at(s: Seq<char>, i: int) -> bool {
    0 <= i && i + 1 < s.len() && s[i] == ':' && s[i + 1] == ':'
}

/// Whether `i` is the place of the first double colon.
pub open spec fn first_gap(s: Seq<char>, i: int) -> bool {
    gap_at(s, i) && forall|k: int| k < i ==> !#[trigger] gap_at(s, k)
}

/// The eight groups that the text of an IPv6 address denotes. The first double colon stands for
/// the one or more groups of zeros that are left out.
pub open spec fn ipv6_groups(s: Seq<char>) -> Option<Seq<u16>> {
    if exists|i: int| first_gap(s, i) {
        let i = choose|i: int| first_gap(s, i);
        match (side_value(s.take(i), false), side_value(s.skip(i + 2), true)) {
            (Some(head), Some(tail)) => if head.len() + tail.len() <= 7 {
                Some(head + Seq::new((8 - head.len() - tail.len()) as nat, |k: int| 0u16) + tail)
            } else {
                None
            },
            _ => None,
        }
    } else {
        match groups_value(s, true) {
            Some(all) => if all.len() == 8 {
                Some(all)
            } else {
                None
            },
            None => None,
        }
    }
}

/// The number that eight groups make up.
pub open spec fn groups_number(g: Seq<u16>) -> int {
    g[0] * 0x1_0000_0000_0000_0000_0000_0000_0000 + g[1] * 0x1_0000_0000_0000_0000_0000_0000 + g[2]
        * 0x1_0000_0000_0000_0000_0000 + g[3] * 0x1_0000_0000_0000_0000 + g[4] * 0x1_0000_0000_0000
        + g[5] * 0x1_0000_0000 + g[6] * 0x1_0000 + g[7]
}

/// The address that a text denotes, dotted or colon-separated.
pub open spec fn ip_value(s: Seq<char>) -> Option<IpAddr> {
    match ipv4_value(s) {
        Some(v) => Some(IpAddr::V4(v)),
        None => match ipv6_groups(s) {
            Some(g) => Some(IpAddr::V6(groups_number(g) as u128)),
            None => None,
        },
    }
}

/// Reads a group of an IPv6 address.
fn parse_group(s: &str) -> (r: Option<u16>)
    ensures
        r is Some <==> is_group(s@),
        r matches Some(v) ==> v == hex_value(s@),
{
    let chars = text::chars_of(s);
    let n: usize = chars.len();
    if n == 0 || n > 4 {
        return None;
    }
    let mut value: u32 = 0;
    let mut bound: u32 = 1;
    let mut i: usize = 0;
    while i < n
        invariant
            chars@ == s@,
            n == s@.len(),
            i <= n <= 4,
            value == hex_value(s@.take(i as int)),
            value < bound,
            i == 0 ==> bound == 1,
            i == 1 ==> bound == 16,
            i == 2 ==> bound == 256,
            i == 3 ==> bound == 4096,
            i == 4 ==> bound == 65536,
            forall|k: int| 0 <= k < i ==> is_hex(#[trigger] s@[k]),
        decreases n - i,
    {
        let c: char = chars[i];
        assert(s@.take(i + 1).drop_last() =~= s@.take(i as int));
        let d: u32 = if '0' <= c && c <= '9' {
            c as u32 - '0' as u32
        } else if 'a' <= c && c <= 'f' {
            c as u32 - 'a' as u32 + 10
        } else if 'A' <= c && c <= 'F' {
            c as u32 - 'A' as u32 + 10
        } else {
            assert(!is_hex(s@[i as int]));
            return None;
        };
        value = 16 * value + d;
        bound = 16 * bound;
        i += 1;
    }
    assert(s@.take(n as int) =~= s@);
    Some(value as u16)
}

/// Reads a colon-separated run of groups.
fn parse_groups(s: &str, dotted: bool) -> (r: Option<Vec<u16>>)
    ensures
        r is Some <==> groups_value(s@, dotted) is Some,
        r matches Some(v) ==> groups_value(s@, dotted) == Some(v@),
    decreases s@.len(),
{
    match text::split_once(s, ':') {
        Some((head, tail)) => {
            proof {
                text::lemma_first_at(s@, ':');
            }
            match (parse_group(head), parse_groups(tail, dotted)) {
                (Some(g), Some(rest)) => {
                    let mut out: Vec<u16> = Vec::new();
                    out.push(g);
                    let mut more: Vec<u16> = rest;
                    out.append(&mut more);
                    assert(out@ =~= seq![hex_value(head@) as u16] + rest@);
                    Some(out)
                },
                _ => None,
            }
        },
        None => {
            let mut out: Vec<u16> = Vec::new();
            if let Some(g) = parse_group(s) {
                out.push(g);
                assert(out@ =~= seq![hex_value(s@) as u16]);
                return Some(out);
            }
            if dotted {
                if let Some(v) = parse_ipv4(s) {
                    out.push((v / 0x1_0000) as u16);
                    out.push((v % 0x1_0000) as u16);
                    assert(out@ =~= seq![
                        (v as int / 0x1_0000) as u16,
                        (v as int % 0x1_0000) as u16,
                    ]);
                    return Some(out);
                }
            }
            None
        },
    }
}

/// Reads the groups on one side of a double colon.
fn parse_side(s: &str, dotted: bool) -> (r: Option<Vec<u16>>)
    ensures
        r is Some <==> side_value(s@, dotted) is Some,
        r matches Some(v) ==> side_value(s@, dotted) == Some(v@),
{
    if s.unicode_len() == 0 {
        let out: Vec<u16> = Vec::new();
        assert(out@ =~= Seq::<u16>::empty());
        Some(out)
    } else {
        parse_groups(s, dotted)
    }
}

/// The place of the first double colon.
fn find_gap(s: &str) -> (r: Option<usize>)
    ensures
        r matches Some(i) ==> first_gap(s@, i as int),
        r is None ==> forall|k: int| !first_gap(s@, k),
{
    let chars = text::chars_of(s);
    let n: usize = chars.len();
    let mut i: usize = 0;
    while i < n && i + 1 < n
        invariant
            chars@ == s@,
            n == s@.len(),
            i <= n,
            forall|k: int| k < i ==> !#[trigger] gap_at(s@, k),
        decreases n - i,
    {
        if chars[i] == ':' && chars[i + 1] == ':' {
            assert(gap_at(s@, i as int));
            return Some(i);
        }
        i += 1;
    }
    None
}

/// Reads the eight groups of an IPv6 address.
fn parse_ipv6(s: &str) -> (r: Option<Vec<u16>>)
    ensures
        r is Some <==> ipv6_groups(s@) is Some,
        r matches Some(v) ==> ipv6_groups(s@) == Some(v@) && v@.len() == 8,
{
    match find_gap(s) {
        Some(i) => {
            let n: usize = s.unicode_len();
            let ghost j = choose|j: int| first_gap(s@, j);
            assert(j == i) by {
                if j < i {
                    assert(gap_at(s@, j));
                }
                if i < j {
                    assert(gap_at(s@, i as int));
                }
            }
            let head_text = s.substring_char(0, i);
            let tail_text = s.substring_char(i + 2, n);
            assert(head_text@ =~= s@.take(i as int));
            assert(tail_text@ =~= s@.skip(i + 2));
            match (parse_side(head_text, false), parse_side(tail_text, true)) {
                (Some(head), Some(tail)) => {
                    if head.len() > 7 || tail.len() > 7 || head.len() + tail.len() > 7 {
                        return None;
                    }
                    let mut out: Vec<u16> = head;
                    let gap: usize = 8 - out.len() - tail.len();
                    let mut k: usize = 0;
                    while k < gap
                        invariant
                            k <= gap,
                            out@ == head@ + Seq::new(k as nat, |x: int| 0u16),
                        decreases gap - k,
                    {
                        out.push(0);
                        assert(out@ =~= head@ + Seq::new((k + 1) as nat, |x: int| 0u16));
                        k += 1;
                    }
                    let mut rest: Vec<u16> = tail;
                    out.append(&mut rest);
                    Some(out)
                },
                _ => None,
            }
        },
        None => match parse_groups(s, true) {
            Some(all) => if all.len() == 8 {
                Some(all)
            } else {
                None
            },
            None => None,
        },
    }
}

/// Reads an Internet address.
pub fn parse_ip(s: &str) -> (r: Option<IpAddr>)
    ensures
        r == ip_value(s@),
{
    if let Some(v) = parse_ipv4(s) {
        return Some(IpAddr::V4(v));
    }
    match parse_ipv6(s) {
        Some(g) => {
            let v: u128 = g[0] as u128 * 0x1_0000_0000_0000_0000_0000_0000_0000 + g[1] as u128
                * 0x1_0000_0000_0000_0000_0000_0000 + g[2] as u128 * 0x1_0000_0000_0000_0000_0000
                + g[3] as u128 * 0x1_0000_0000_0000_0000 + g[4] as u128 * 0x1_0000_0000_0000
                + g[5] as u128 * 0x1_0000_0000 + g[6] as u128 * 0x1_0000 + g[7] as u128;
            Some(IpAddr::V6(v))
        },
        None => None,
    }
}

/// The dotted text of an IPv4 address.
pub open spec fn ipv4_text(v: u32) -> Seq<char> {
    text::decimal((v / 0x100_0000) as nat) + "."@ + text::decimal((v / 0x1_0000 % 0x100) as nat)
        + "."@ + text::decimal((v / 0x100 % 0x100) as nat) + "."@ + text::decimal(
        (v % 0x100) as nat,
    )
}

/// Writes an IPv4 address.
fn ipv4_string(v: u32) -> (r: String)
    ensures
        r@ == ipv4_text(v),
{
    let mut out: String = text::decimal_text((v / 0x100_0000) as u64);
    out.append(".");
    out.append(text::decimal_text((v / 0x1_0000 % 0x100) as u64).as_str());
    out.append(".");
    out.append(text::decimal_text((v / 0x100 % 0x100) as u64).as_str());
    out.append(".");
    out.append(text::decimal_text((v % 0x100) as u64).as_str());
    out
}

/// The lower-case hexadecimal digit of a number below sixteen.
pub open spec fn hex_digit(d: nat) -> char {
    if d < 10 {
        ((48 + d) as u8) as char
    } else {
        ((87 + d) as u8) as char
    }
}

/// The hexadecimal form of a number, without leading zeros.
pub open spec fn hex_number(n: nat) -> Seq<char>
    decreases n,
{
    if n < 16 {
        seq![hex_digit(n)]
    } else {
        hex_number(n / 16).push(hex_digit(n % 16))
    }
}

/// Writes a number in hexadecimal.
fn hex_string(n: u16) -> (r: String)
    ensures
        r@ == hex_number(n as nat),
    decreases n,
{
    let mut out: String = if n < 16 {
        String::new()
    } else {
        hex_string(n / 16)
    };
    let d: u8 = (n % 16) as u8;
    out.push(
        if d < 10 {
            (48 + d) as char
        } else {
            (87 + d) as char
        },
    );
    assert(n < 16 ==> out@ =~= seq![hex_digit(n as nat)]);
    out
}

/// The eight groups of an IPv6 address.
pub open spec fn groups_of(v: u128) -> Seq<u16> {
    seq![
        (v / 0x1_0000_0000_0000_0000_0000_0000_0000) as u16,
        (v / 0x1_0000_0000_0000_0000_0000_0000 % 0x1_0000) as u16,
        (v / 0x1_0000_0000_0000_0000_0000 % 0x1_0000) as u16,
        (v / 0x1_0000_0000_0000_0000 % 0x1_0000) as u16,
        (v / 0x1_0000_0000_0000 % 0x1_0000) as u16,
        (v / 0x1_0000_0000 % 0x1_0000) as u16,
        (v / 0x1_0000 % 0x1_0000) as u16,
        (v % 0x1_0000) as u16,
    ]
}

/// How many groups of zeros start at a place.
pub open spec fn zero_run(g: Seq<u16>, i: int) -> nat
    decreases g.len() - i,
{
    if 0 <= i < g.len() && g[i] == 0 {
        1 + zero_run(g, i + 1)
    } else {
        0
    }
}

/// The start and length of the longest run of zeros that starts before place `k`; of equally
/// long runs, the first.
pub open spec fn best_run(g: Seq<u16>, k: nat) -> (int, nat)
    decreases k,
{
    if k == 0 {
        (0, 0)
    } else {
        let (start, len) = best_run(g, (k - 1) as nat);
        if zero_run(g, k - 1) > len {
            (k - 1, zero_run(g, k - 1))
        } else {
            (start, len)
        }
    }
}

/// Groups written in hexadecimal with colons between them.
pub open spec fn joined(g: Seq<u16>) -> Seq<char>
    decreases g.len(),
{
    if g.len() == 0 {
        Seq::empty()
    } else if g.len() == 1 {
        hex_number(g[0] as nat)
    } else {
        joined(g.drop_last()) + ":"@ + hex_number(g.last() as nat)
    }
}

/// The text of an IPv6 address. The longest run of two or more zero groups is left out; an
/// IPv4-mapped address shows its IPv4 address.
pub open spec fn ipv6_text(v: u128) -> Seq<char> {
    if v / 0x1_0000_0000 == 0xffff {
        "::ffff:"@ + ipv4_text((v % 0x1_0000_0000) as u32)
    } else {
        let g = groups_of(v);
        let (start, len) = best_run(g, 8);
        if len > 1 {
            joined(g.take(start)) + "::"@ + joined(g.skip(start + len))
        } else {
            joined(g)
        }
    }
}

/// The text of an address.
pub open spec fn ip_text(ip: IpAddr) -> Seq<char> {
    match ip {
        IpAddr::V4(v) => ipv4_text(v),
        IpAddr::V6(v) => ipv6_text(v),
    }
}

/// Writes groups with colons between them.
fn joined_string(g: &Vec<u16>, from: usize, to: usize) -> (r: String)
    requires
        from <= to <= g@.len(),
    ensures
        r@ == joined(g@.subrange(from as int, to as int)),
{
    let mut out: String = String::new();
    let mut i: usize = from;
    while i < to
        invariant
            from <= i <= to <= g@.len(),
            out@ == joined(g@.subrange(from as int, i as int)),
        decreases to - i,
    {
        let ghost next = g@.subrange(from as int, i + 1);
        assert(next.drop_last() =~= g@.subrange(from as int, i as int));
        if i > from {
            out.append(":");
        }
        let ghost head = out@;
        let digits = hex_string(g[i]);
        out.append(digits.as_str());
        assert(i == from ==> head + digits@ =~= digits@);
        i += 1;
    }
    out
}

/// The length of the run of zeros at a place.
fn run_length(g: &Vec<u16>, from: usize) -> (r: usize)
    requires
        from <= g@.len(),
    ensures
        r == zero_run(g@, from as int),
        from + r <= g@.len(),
{
    let n: usize = g.len();
    let mut i: usize = from;
    while i < n && g[i] == 0
        invariant
            n == g@.len(),
            from <= i <= n,
            zero_run(g@, from as int) == (i - from) + zero_run(g@, i as int),
        decreases n - i,
    {
        i += 1;
    }
    i - from
}

/// Writes an IPv6 address.
fn ipv6_string(v: u128) -> (r: String)
    ensures
        r@ == ipv6_text(v),
{
    if v / 0x1_0000_0000 == 0xffff {
        return text::join("::ffff:", ipv4_string((v % 0x1_0000_0000) as u32).as_str());
    }
    let g: Vec<u16> = vec![
        (v / 0x1_0000_0000_0000_0000_0000_0000_0000) as u16,
        (v / 0x1_0000_0000_0000_0000_0000_0000 % 0x1_0000) as u16,
        (v / 0x1_0000_0000_0000_0000_0000 % 0x1_0000) as u16,
        (v / 0x1_0000_0000_0000_0000 % 0x1_0000) as u16,
        (v / 0x1_0000_0000_0000 % 0x1_0000) as u16,
        (v / 0x1_0000_0000 % 0x1_0000) as u16,
        (v / 0x1_0000 % 0x1_0000) as u16,
        (v % 0x1_0000) as u16,
    ];
    assert(g@ =~= groups_of(v));
    let mut start: usize = 0;
    let mut len: usize = 0;
    let mut k: usize = 0;
    while k < 8
        invariant
            k <= 8,
            g@.len() == 8,
            best_run(g@, k as nat) == (start as int, len as nat),
            start + len <= 8,
        decreases 8 - k,
    {
        let r: usize = run_length(&g, k);
        if r > len {
            start = k;
            len = r;
        }
        k += 1;
    }
    if len > 1 {
        let mut out: String = joined_string(&g, 0, start);
        out.append("::");
        out.append(joined_string(&g, start + len, 8).as_str());
        assert(g@.subrange(0, start as int) =~= g@.take(start as int));
        assert(g@.subrange(start + len, 8) =~= g@.skip(start + len));
        out
    } else {
        assert(g@.subrange(0, 8) =~= g@);
        joined_string(&g, 0, 8)
    }
}

/// Writes an address.
pub fn ip_string(ip: IpAddr) -> (r: String)
    ensures
        r@ == ip_text(ip),
{
    match ip {
        IpAddr::V4(v) => ipv4_string(v),
        IpAddr::V6(v) => ipv6_string(v),
    }
}

/// What a block covers: of the addresses of its family those that lie between the first and the last
/// one that begin with its prefix, and none of the other family. Its own address is among them; a
/// block with a full prefix covers that one alone, and a block without a prefix the whole family.
pub proof fn law_blocks_are_ranges(c: Cidr, ip: IpAddr)
    requires
        c.valid(),
    ensures
        c.covers(c.addr),
        (c.addr is V4) != (ip is V4) ==> !c.covers(ip),
        (c.addr is V4) == (ip is V4) ==> ({
            let size = pow2((c.addr.width() - c.prefix) as nat);
            let first = c.addr.number() - c.addr.number() % size;
            c.covers(ip) <==> first <= ip.number() < first + size
        }),
        c.prefix == 0 && (c.addr is V4) == (ip is V4) ==> c.covers(ip),
        c.prefix == (if c.addr is V4 { 32 } else { 128int }) ==> (c.covers(ip) <==> ip == c.addr),
{
    let size = pow2((c.addr.width() - c.prefix) as nat);
    vstd::arithmetic::power2::lemma_pow2_pos((c.addr.width() - c.prefix) as nat);
    let (a, b) = (c.addr.number() as int, ip.number() as int);
    let n = size as int;
    vstd::arithmetic::div_mod::lemma_fundamental_div_mod(a, n);
    vstd::arithmetic::div_mod::lemma_fundamental_div_mod(b, n);
    if (c.addr is V4) == (ip is V4) {
        let first = a - a % n;
        if a / n == b / n {
            assert(first <= b < first + n);
        }
        if first <= b < first + n {
            vstd::arithmetic::div_mod::lemma_fundamental_div_mod_converse(
                b,
                n,
                a / n,
                b - first,
            );
        }
    }
    vstd::arithmetic::power2::lemma2_to64();
    vstd::arithmetic::power2::lemma_pow2_adds(64, 64);
    if c.prefix == 0 && (c.addr is V4) == (ip is V4) {
        assert(pow2(128) == 0x1_0000_0000_0000_0000 * 0x1_0000_0000_0000_0000);
        assert(a < n && b < n);
        vstd::arithmetic::div_mod::lemma_basic_div(a, n);
        vstd::arithmetic::div_mod::lemma_basic_div(b, n);
    }
    if c.prefix == c.addr.width() {
        assert(n == 1);
    }
}

/// An address is one of this machine itself where it is 127.0.0.0 or one of the addresses up to
/// 127.255.255.255, or `::1`, and nowhere else.
pub proof fn law_loopback_addresses(v4: u32, v6: u128)
    ensures
        IpAddr::V4(v4).loopback() <==> 0x7f00_0000 <= v4 <= 0x7fff_ffff,
        IpAddr::V6(v6).loopback() <==> v6 == 1,
{
}

/// An IPv6 address that carries no IPv4 address stands for itself.
pub proof fn law_unmapped_addresses_stay(v6: u128)
    requires
        v6 < 0xffff_0000_0000 || v6 > 0xffff_ffff_ffff,
    ensures
        unmapped(IpAddr::V6(v6)) == IpAddr::V6(v6),
{
}

/// Some block of a list covers an address where one of them does, wherever it stands in the list.
pub proof fn law_lists_cover_what_their_blocks_cover(a: Seq<Cidr>, c: Cidr, b: Seq<Cidr>, ip: IpAddr)
    ensures
        any_covers(a + seq![c] + b, ip) <==> any_covers(a, ip) || c.covers(ip) || any_covers(b, ip),
        !any_covers(Seq::empty(), ip),
{
    let all = a + seq![c] + b;
    if any_covers(all, ip) {
        let i = choose|i: int| 0 <= i < all.len() && (#[trigger] all[i]).covers(ip);
        if i < a.len() {
            assert(a[i].covers(ip));
        } else if i > a.len() {
            assert(b[i - a.len() - 1].covers(ip));
        }
    }
    if any_covers(a, ip) {
        let i = choose|i: int| 0 <= i < a.len() && (#[trigger] a[i]).covers(ip);
        assert(all[i].covers(ip));
    }
    if c.covers(ip) {
        assert(all[a.len() as int].covers(ip));
    }
    if any_covers(b, ip) {
        let i = choose|i: int| 0 <= i < b.len() && (#[trigger] b[i]).covers(ip);
        assert(all[a.len() + 1 + i].covers(ip));
    }
}

/// An octet is a number up to 255 in up to three digits, without zeros in front; an IPv4 address is four
/// of them between dots, the first counting most.
pub proof fn law_dotted_addresses(s: Seq<char>, a: nat, b: nat, c: nat, d: nat)
    requires
        a <= 255 && b <= 255 && c <= 255 && d <= 255,
        text::parts(s, '.').len() == 4,
        octet_value(text::parts(s, '.')[0]) == Some(a),
        octet_value(text::parts(s, '.')[1]) == Some(b),
        octet_value(text::parts(s, '.')[2]) == Some(c),
        octet_value(text::parts(s, '.')[3]) == Some(d),
    ensures
        ipv4_value(s) is Some && ipv4_value(s)->0 == 16_777_216 * a + 65_536 * b + 256 * c + d,
{
}

/// What is no octet: a text of more than three characters, one with a zero in front, and one with
/// anything but digits.
pub proof fn law_octets(s: Seq<char>, i: int)
    ensures
        s.len() > 3 || s.len() == 0 ==> octet_value(s) is None,
        s.len() > 1 && s[0] == '0' ==> octet_value(s) is None,
        0 <= i < s.len() && !('0' <= s[i] <= '9') ==> octet_value(s) is None,
        octet_value(s) matches Some(n) ==> n <= 255 && n == text::digits_value(s),
{
    if 0 <= i < s.len() && !('0' <= s[i] <= '9') {
        assert(!text::is_digit(s[i]));
    }
}

/// A group of an IPv6 address is one to four hexadecimal digits, in either case.
pub proof fn law_groups(c: char, s: Seq<char>, i: int)
    ensures
        'a' <= c <= 'f' ==> is_hex(c) && 10 <= hex_digit_value(c) == 10 + (c as u32 - 'a' as u32)
            <= 15,
        'A' <= c <= 'F' ==> is_hex(c) && 10 <= hex_digit_value(c) == 10 + (c as u32 - 'A' as u32)
            <= 15,
        '0' <= c <= '9' ==> is_hex(c) && hex_digit_value(c) == c as u32 - '0' as u32,
        c < '0' || c > 'f' || '9' < c < 'A' || 'F' < c < 'a' ==> !is_hex(c),
        s.len() == 0 || s.len() > 4 ==> !is_group(s),
        0 <= i < s.len() && !is_hex(s[i]) ==> !is_group(s),
{
}

} // verus!
