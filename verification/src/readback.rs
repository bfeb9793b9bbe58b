//! Addresses that are written are read back as they were.
use crate::net::{
    best_run, first_gap, gap_at, groups_number, groups_of, groups_value, hex_digit, hex_digit_value,
    hex_number, hex_value, ip_text, ip_value, ipv4_text, ipv4_value, ipv6_groups, ipv6_text,
    is_group, is_hex, joined, octet_value, side_value, zero_run, IpAddr,
};
use crate::socket::{bracketed_value, number_value, socket_text, socket_value, SocketAddr};
use crate::text::{
    after, all_digits, before, decimal, digits_value, first_at, is_digit, lemma_first_at,
    parts,
};
use vstd::prelude::*;

verus! {

/// The decimal form of a number is made of digits that denote it, without a superfluous zero in
/// front.
pub proof fn lemma_decimal(n: nat)
    ensures
        all_digits(decimal(n)),
        digits_value(decimal(n)) == n,
        n > 0 ==> decimal(n)[0] != '0',
        n < 10 ==> decimal(n).len() == 1,
        n < 100 ==> decimal(n).len() <= 2,
        n < 1000 ==> decimal(n).len() <= 3,
    decreases n,
{
    let s = decimal(n);
    if n < 10 {
        assert(s.drop_last() =~= Seq::<char>::empty());
        assert(digits_value(s.drop_last()) == 0);
    } else {
        lemma_decimal(n / 10);
        assert(s.drop_last() =~= decimal(n / 10));
        assert(s[0] == decimal(n / 10)[0]);
        assert forall|i: int| 0 <= i < s.len() implies is_digit(#[trigger] s[i]) by {
            if i < s.len() - 1 {
                assert(s[i] == decimal(n / 10)[i]);
            }
        }
    }
}

/// An octet that is written is read back.
proof fn lemma_octet(n: nat)
    requires
        n < 256,
    ensures
        octet_value(decimal(n)) == Some(n),
        !decimal(n).contains('.'),
        !decimal(n).contains(':'),
{
    lemma_decimal(n);
}

/// What stands before and after the first `c` of a text.
pub proof fn lemma_cut(a: Seq<char>, c: char, rest: Seq<char>)
    requires
        !a.contains(c),
    ensures
        (a + seq![c] + rest).contains(c),
        before(a + seq![c] + rest, c) == a,
        after(a + seq![c] + rest, c) == rest,
{
    let s = a + seq![c] + rest;
    assert(s[a.len() as int] == c);
    lemma_first_at(s, c);
    let k = first_at(s, c) as int;
    if k < a.len() {
        assert(s[k] == a[k]);
        assert(a.contains(a[k]));
    }
    assert(k == a.len());
    assert(before(s, c) =~= a);
    assert(after(s, c) =~= rest);
}

/// The parts of a text that starts with a part.
proof fn lemma_parts(a: Seq<char>, c: char, rest: Seq<char>)
    requires
        !a.contains(c),
    ensures
        parts(a + seq![c] + rest, c) == seq![a] + parts(rest, c),
{
    lemma_cut(a, c, rest);
}

/// The parts of a dotted address that is written.
proof fn lemma_ipv4_parts(a: Seq<char>, b: Seq<char>, c: Seq<char>, d: Seq<char>)
    requires
        !a.contains('.'),
        !b.contains('.'),
        !c.contains('.'),
        !d.contains('.'),
    ensures
        parts(a + "."@ + b + "."@ + c + "."@ + d, '.') == seq![a, b, c, d],
        (a + "."@ + b + "."@ + c + "."@ + d).contains('.'),
{
    reveal_strlit(".");
    let s = a + "."@ + b + "."@ + c + "."@ + d;
    let cd = c + seq!['.'] + d;
    let bcd = b + seq!['.'] + cd;
    assert(s =~= a + seq!['.'] + bcd);
    assert(s[a.len() as int] == '.');
    lemma_parts(a, '.', bcd);
    lemma_parts(b, '.', cd);
    lemma_parts(c, '.', d);
    assert(parts(d, '.') == seq![d]);
    assert(parts(s, '.') =~= seq![a, b, c, d]);
}

/// A dotted address that is written is read back.
pub proof fn lemma_ipv4(v: u32)
    ensures
        ipv4_value(ipv4_text(v)) == Some(v),
        !ipv4_text(v).contains(':'),
        ipv4_text(v).len() > 0,
        is_digit(ipv4_text(v)[0]),
        ipv4_text(v).contains('.'),
{
    let (a, b, c, d) = (v / 0x100_0000, v / 0x1_0000 % 0x100, v / 0x100 % 0x100, v % 0x100);
    let s = ipv4_text(v);
    lemma_octets(v);
    lemma_octet(a as nat);
    lemma_octet(b as nat);
    lemma_octet(c as nat);
    lemma_octet(d as nat);
    lemma_ipv4_parts(
        decimal(a as nat),
        decimal(b as nat),
        decimal(c as nat),
        decimal(d as nat),
    );
    let p = parts(s, '.');
    assert(octet_value(p[0]) == Some(a as nat));
    assert(octet_value(p[1]) == Some(b as nat));
    assert(octet_value(p[2]) == Some(c as nat));
    assert(octet_value(p[3]) == Some(d as nat));
    lemma_decimal(a as nat);
    assert(s[0] == decimal(a as nat)[0]);
    lemma_dotted_chars(v);
}

/// Four octets make up the number that they come from.
proof fn lemma_octets(v: u32)
    ensures
        v == (v / 0x100_0000) * 0x100_0000 + (v / 0x1_0000 % 0x100) * 0x1_0000 + (v / 0x100
            % 0x100) * 0x100 + v % 0x100,
        v / 0x100_0000 < 0x100,
{
    let a = v / 0x100;
    let b = a / 0x100;
    assert(v / 0x1_0000 == b);
    assert(v / 0x100_0000 == b / 0x100);
}

/// The hexadecimal form of a number of 16 bits is a group that denotes it.
proof fn lemma_hex(n: nat)
    requires
        n < 0x1_0000,
    ensures
        is_group(hex_number(n)),
        hex_value(hex_number(n)) == n,
{
    lemma_hex_number(n);
}

proof fn lemma_hex_number(n: nat)
    ensures
        hex_number(n).len() >= 1,
        forall|i: int| 0 <= i < hex_number(n).len() ==> is_hex(#[trigger] hex_number(n)[i]),
        hex_value(hex_number(n)) == n,
        n < 0x10 ==> hex_number(n).len() <= 1,
        n < 0x100 ==> hex_number(n).len() <= 2,
        n < 0x1000 ==> hex_number(n).len() <= 3,
        n < 0x1_0000 ==> hex_number(n).len() <= 4,
    decreases n,
{
    let s = hex_number(n);
    if n < 16 {
        assert(s.drop_last() =~= Seq::<char>::empty());
        assert(hex_value(s.drop_last()) == 0);
        assert(hex_digit_value(hex_digit(n)) == n);
    } else {
        lemma_hex_number(n / 16);
        assert(s.drop_last() =~= hex_number(n / 16));
        assert(hex_digit_value(hex_digit(n % 16)) == n % 16);
        assert forall|i: int| 0 <= i < s.len() implies is_hex(#[trigger] s[i]) by {
            if i < s.len() - 1 {
                assert(s[i] == hex_number(n / 16)[i]);
            }
        }
    }
}

/// Groups that are written start with the first.
proof fn lemma_joined_front(g: Seq<u16>)
    requires
        g.len() >= 2,
    ensures
        joined(g) == hex_number(g[0] as nat) + seq![':'] + joined(g.skip(1)),
    decreases g.len(),
{
    reveal_strlit(":");
    if g.len() == 2 {
        assert(g.drop_last() =~= seq![g[0]]);
        assert(g.skip(1) =~= seq![g[1]]);
        assert(joined(g.drop_last()) == hex_number(g[0] as nat));
        assert(joined(g.skip(1)) == hex_number(g[1] as nat));
        assert(joined(g) =~= hex_number(g[0] as nat) + seq![':'] + joined(g.skip(1)));
    } else {
        lemma_joined_front(g.drop_last());
        assert(g.drop_last().skip(1) =~= g.skip(1).drop_last());
        assert(g.skip(1).last() == g.last());
        assert(joined(g) =~= hex_number(g[0] as nat) + seq![':'] + joined(g.skip(1)));
    }
}

/// How groups look that are written: hexadecimal digits and single colons, none of them at an end.
proof fn lemma_joined(g: Seq<u16>)
    requires
        g.len() >= 1,
    ensures
        joined(g).len() >= 1,
        joined(g)[0] != ':',
        joined(g).last() != ':',
        forall|i: int| #![trigger joined(g)[i]]
            0 <= i < joined(g).len() ==> is_hex(joined(g)[i]) || joined(g)[i] == ':',
        forall|i: int| !#[trigger] gap_at(joined(g), i),
        forall|dotted: bool| #[trigger] groups_value(joined(g), dotted) == Some(g),
    decreases g.len(),
{
    let s = joined(g);
    let head = hex_number(g[0] as nat);
    lemma_hex(g[0] as nat);
    assert(!head.contains(':')) by {
        if head.contains(':') {
            let k = head.index_of(':');
            assert(is_hex(head[k]));
        }
    }
    if g.len() == 1 {
        assert forall|i: int| !#[trigger] gap_at(s, i) by {
            if gap_at(s, i) {
                assert(is_hex(head[i]));
            }
        }
        assert(g =~= seq![g[0]]);
    } else {
        let rest = joined(g.skip(1));
        lemma_joined_front(g);
        lemma_joined(g.skip(1));
        lemma_cut(head, ':', rest);
        let n = head.len() as int;
        assert forall|i: int| 0 <= i < s.len() implies is_hex(#[trigger] s[i]) || s[i] == ':' by {
            if i < n {
                assert(s[i] == head[i]);
            } else if i > n {
                assert(s[i] == rest[i - n - 1]);
            }
        }
        assert(s[0] == head[0]);
        assert(s.last() == rest.last());
        assert forall|i: int| !#[trigger] gap_at(s, i) by {
            if gap_at(s, i) {
                if i < n {
                    assert(s[i] == head[i]);
                    assert(is_hex(head[i]));
                } else if i == n {
                    assert(s[i + 1] == rest[0]);
                } else {
                    assert(s[i] == rest[i - n - 1]);
                    assert(s[i + 1] == rest[i - n]);
                    assert(gap_at(rest, i - n - 1));
                }
            }
        }
        assert(seq![g[0]] + g.skip(1) =~= g);
        assert forall|dotted: bool| #[trigger] groups_value(s, dotted) == Some(g) by {
            assert(groups_value(rest, dotted) == Some(g.skip(1)));
            assert(hex_value(head) as u16 == g[0]);
        }
    }
}

/// The groups of one side of a gap are read back.
proof fn lemma_side(g: Seq<u16>, dotted: bool)
    ensures
        side_value(joined(g), dotted) == Some(g),
{
    if g.len() > 0 {
        lemma_joined(g);
    } else {
        assert(g =~= Seq::<u16>::empty());
    }
}

/// What a run of zeros is.
proof fn lemma_zero_run(g: Seq<u16>, i: int)
    requires
        0 <= i <= g.len(),
    ensures
        i + zero_run(g, i) <= g.len(),
        forall|k: int| i <= k < i + zero_run(g, i) ==> g[k] == 0,
    decreases g.len() - i,
{
    if i < g.len() && g[i] == 0 {
        lemma_zero_run(g, i + 1);
    }
}

proof fn lemma_best_run(g: Seq<u16>, k: nat)
    requires
        k <= g.len(),
    ensures
        ({
            let (start, len) = best_run(g, k);
            &&& 0 <= start
            &&& start + len <= g.len()
            &&& forall|j: int| start <= j < start + len ==> g[j] == 0
        }),
    decreases k,
{
    if k > 0 {
        lemma_best_run(g, (k - 1) as nat);
        lemma_zero_run(g, k - 1);
    }
}

/// A text has one first gap at most.
proof fn lemma_first_gap(s: Seq<char>, i: int)
    requires
        first_gap(s, i),
    ensures
        forall|k: int| first_gap(s, k) ==> k == i,
{
    assert forall|k: int| first_gap(s, k) implies k == i by {
        if k < i {
            assert(!gap_at(s, k));
        } else if i < k {
            assert(!gap_at(s, i));
        }
    }
}

/// Groups with a gap are read back.
proof fn lemma_gap(g: Seq<u16>, start: int, len: nat)
    requires
        g.len() == 8,
        0 <= start,
        start + len <= 8,
        len >= 1,
        forall|j: int| start <= j < start + len ==> g[j] == 0,
    ensures
        ipv6_groups(joined(g.take(start)) + "::"@ + joined(g.skip(start + len))) == Some(g),
{
    let (left, right) = (g.take(start), g.skip(start + len));
    let (h, t) = (joined(left), joined(right));
    reveal_strlit("::");
    let s = h + "::"@ + t;
    let i = h.len() as int;
    lemma_side(left, false);
    lemma_side(right, true);
    assert(first_gap(s, i)) by {
        assert(s[i] == ':' && s[i + 1] == ':');
        assert forall|k: int| k < i implies !#[trigger] gap_at(s, k) by {
            if 0 <= k {
                assert(left.len() > 0);
                lemma_joined(left);
                assert(s[k] == h[k]);
                if k + 1 < i {
                    assert(s[k + 1] == h[k + 1]);
                    assert(!gap_at(h, k));
                } else {
                    assert(h[k] == h.last());
                }
            }
        }
    }
    lemma_first_gap(s, i);
    let c = choose|c: int| first_gap(s, c);
    assert(c == i);
    assert(s.take(i) =~= h);
    assert(s.skip(i + 2) =~= t);
    let zeros = Seq::new((8 - left.len() - right.len()) as nat, |k: int| 0u16);
    assert(left + zeros + right =~= g);
}

/// Eight groups make up the number that they come from.
proof fn lemma_groups(v: u128)
    ensures
        groups_number(groups_of(v)) == v,
{
    let a = v / 0x1_0000;
    let b = a / 0x1_0000;
    let c = b / 0x1_0000;
    let d = c / 0x1_0000;
    let e = d / 0x1_0000;
    let f = e / 0x1_0000;
    let h = f / 0x1_0000;
    assert(v / 0x1_0000_0000 == b);
    assert(v / 0x1_0000_0000_0000 == c);
    assert(v / 0x1_0000_0000_0000_0000 == d);
    assert(v / 0x1_0000_0000_0000_0000_0000 == e);
    assert(v / 0x1_0000_0000_0000_0000_0000_0000 == f);
    assert(v / 0x1_0000_0000_0000_0000_0000_0000_0000 == h);
    assert(h < 0x1_0000);
}

/// A text without a dot is no dotted address.
proof fn lemma_undotted(s: Seq<char>)
    requires
        !s.contains('.'),
    ensures
        ipv4_value(s) is None,
{
}

/// An IPv6 address that is written is read back.
proof fn lemma_ipv6(v: u128)
    ensures
        ipv4_value(ipv6_text(v)) is None,
        ipv6_groups(ipv6_text(v)) matches Some(g) && groups_number(g) == v,
        forall|i: int| #![trigger ipv6_text(v)[i]]
            0 <= i < ipv6_text(v).len() ==> ipv6_text(v)[i] != '%' && ipv6_text(v)[i] != ']',
{
    let s = ipv6_text(v);
    if v / 0x1_0000_0000 == 0xffff {
        lemma_mapped(v);
    } else {
        let g = groups_of(v);
        lemma_groups(v);
        lemma_best_run(g, 8);
        let (start, len) = best_run(g, 8);
        if len > 1 {
            lemma_gap(g, start, len);
            let (h, t) = (joined(g.take(start)), joined(g.skip(start + len)));
            reveal_strlit("::");
            if g.take(start).len() > 0 {
                lemma_joined(g.take(start));
            }
            if g.skip(start + len).len() > 0 {
                lemma_joined(g.skip(start + len));
            }
            assert forall|i: int| 0 <= i < s.len() implies is_hex(#[trigger] s[i]) || s[i] == ':' by {
                if i < h.len() {
                    assert(s[i] == h[i]);
                } else if i >= h.len() + 2 {
                    assert(s[i] == t[i - h.len() - 2]);
                }
            }
        } else {
            lemma_joined(g);
            assert(!(exists|i: int| first_gap(s, i)));
        }
        assert(forall|i: int| 0 <= i < s.len() ==> is_hex(#[trigger] s[i]) || s[i] == ':');
        assert(!s.contains('.'));
        lemma_undotted(s);
    }
}

/// An IPv4-mapped address that is written is read back.
proof fn lemma_mapped(v: u128)
    requires
        v / 0x1_0000_0000 == 0xffff,
    ensures
        ipv4_value(ipv6_text(v)) is None,
        ipv6_groups(ipv6_text(v)) matches Some(g) && groups_number(g) == v,
        forall|i: int| #![trigger ipv6_text(v)[i]]
            0 <= i < ipv6_text(v).len() ==> ipv6_text(v)[i] != '%' && ipv6_text(v)[i] != ']',
{
    let s = ipv6_text(v);
    let low = (v % 0x1_0000_0000) as u32;
    let dotted = ipv4_text(low);
    lemma_mapped_groups(low);
    lemma_mapped_undotted(low);
    assert(v == 0xffff_0000_0000 + low);
    lemma_dotted_chars(low);
    reveal_strlit("::ffff:");
    assert forall|i: int| 0 <= i < s.len() implies #[trigger] s[i] != '%' && s[i] != ']' by {
        if i >= 7 {
            assert(s[i] == dotted[i - 7]);
        }
    }
}

/// The groups of a mapped address that is written.
proof fn lemma_mapped_groups(low: u32)
    ensures
        ipv6_groups("::ffff:"@ + ipv4_text(low)) matches Some(g) && groups_number(g)
            == 0xffff_0000_0000 + low,
{
    let dotted = ipv4_text(low);
    let s = "::ffff:"@ + dotted;
    let word = seq!['f', 'f', 'f', 'f'];
    reveal_strlit("::ffff:");
    assert(s[0] == ':' && s[1] == ':');
    assert(first_gap(s, 0));
    lemma_first_gap(s, 0);
    let c = choose|c: int| first_gap(s, c);
    assert(c == 0);
    assert(s.take(0) =~= Seq::<char>::empty());
    let tail = s.skip(2);
    assert(tail =~= word + seq![':'] + dotted);
    lemma_mapped_tail(low);
    let pair = seq![0xffffu16, (low / 0x1_0000) as u16, (low % 0x1_0000) as u16];
    assert(side_value(tail, true) == Some(pair));
    let zeros = Seq::new(5, |k: int| 0u16);
    let g = Seq::<u16>::empty() + zeros + pair;
    assert(ipv6_groups(s) == Some(g));
    assert(g =~= seq![0, 0, 0, 0, 0, pair[0], pair[1], pair[2]]);
}

/// The groups of a mapped address that stand after its gap.
proof fn lemma_mapped_tail(low: u32)
    ensures
        groups_value(seq!['f', 'f', 'f', 'f'] + seq![':'] + ipv4_text(low), true) == Some(
            seq![0xffffu16, (low / 0x1_0000) as u16, (low % 0x1_0000) as u16],
        ),
{
    let dotted = ipv4_text(low);
    let word = seq!['f', 'f', 'f', 'f'];
    lemma_ipv4(low);
    assert(!word.contains(':'));
    lemma_cut(word, ':', dotted);
    assert(!is_group(dotted)) by {
        let k = dotted.index_of('.');
        assert(dotted[k] == '.');
    }
    assert(is_group(word));
    lemma_word(word);
    let ends = seq![(low / 0x1_0000) as u16, (low % 0x1_0000) as u16];
    assert(groups_value(dotted, true) == Some(ends));
    assert(seq![0xffffu16] + ends =~= seq![0xffffu16, ends[0], ends[1]]);
}

proof fn lemma_word(word: Seq<char>)
    requires
        word == seq!['f', 'f', 'f', 'f'],
    ensures
        hex_value(word) == 0xffff,
{
    let (a, b, c) = (seq!['f', 'f', 'f'], seq!['f', 'f'], seq!['f']);
    assert(word.drop_last() =~= a);
    assert(a.drop_last() =~= b);
    assert(b.drop_last() =~= c);
    assert(c.drop_last() =~= Seq::<char>::empty());
    assert(hex_value(c.drop_last()) == 0);
    assert(hex_value(c) == 0xf);
    assert(hex_value(b) == 0xff);
    assert(hex_value(a) == 0xfff);
}

/// A mapped address that is written is no dotted address.
proof fn lemma_mapped_undotted(low: u32)
    ensures
        ipv4_value("::ffff:"@ + ipv4_text(low)) is None,
{
    let s = "::ffff:"@ + ipv4_text(low);
    let a = decimal((low / 0x100_0000) as nat);
    let b = decimal((low / 0x1_0000 % 0x100) as nat);
    let c = decimal((low / 0x100 % 0x100) as nat);
    let d = decimal((low % 0x100) as nat);
    lemma_octet((low / 0x100_0000) as nat);
    reveal_strlit("::ffff:");
    reveal_strlit(".");
    let head = "::ffff:"@ + a;
    let rest = b + seq!['.'] + c + seq!['.'] + d;
    assert(s =~= head + seq!['.'] + rest);
    assert(!head.contains('.')) by {
        if head.contains('.') {
            let k = head.index_of('.');
            assert(head[k] == '.');
            if k >= 7 {
                assert(a[k - 7] == '.');
            }
        }
    }
    lemma_parts(head, '.', rest);
    assert(parts(s, '.')[0] == head);
    assert(!is_digit(head[0]));
    assert(octet_value(head) is None);
}

/// A dotted address is made of digits and dots.
proof fn lemma_dotted_chars(v: u32)
    ensures
        forall|i: int| #![trigger ipv4_text(v)[i]]
            0 <= i < ipv4_text(v).len() ==> is_digit(ipv4_text(v)[i]) || ipv4_text(v)[i] == '.',
{
    let a = decimal((v / 0x100_0000) as nat);
    let b = decimal((v / 0x1_0000 % 0x100) as nat);
    let c = decimal((v / 0x100 % 0x100) as nat);
    let d = decimal((v % 0x100) as nat);
    lemma_decimal((v / 0x100_0000) as nat);
    lemma_decimal((v / 0x1_0000 % 0x100) as nat);
    lemma_decimal((v / 0x100 % 0x100) as nat);
    lemma_decimal((v % 0x100) as nat);
    reveal_strlit(".");
    let s = ipv4_text(v);
    let n1 = a.len() as int;
    let n2 = n1 + 1 + b.len();
    let n3 = n2 + 1 + c.len();
    assert forall|i: int| 0 <= i < s.len() implies is_digit(#[trigger] s[i]) || s[i] == '.' by {
        if i < n1 {
            assert(s[i] == a[i]);
        } else if n1 < i < n2 {
            assert(s[i] == b[i - n1 - 1]);
        } else if n2 < i < n3 {
            assert(s[i] == c[i - n2 - 1]);
        } else if n3 < i {
            assert(s[i] == d[i - n3 - 1]);
        }
    }
}

/// An address that is written is read back.
pub proof fn law_addresses_are_read_back(ip: IpAddr)
    ensures
        ip_value(ip_text(ip)) == Some(ip),
{
    match ip {
        IpAddr::V4(v) => lemma_ipv4(v),
        IpAddr::V6(v) => lemma_ipv6(v),
    }
}

/// A number that is written is read back.
proof fn lemma_number(n: nat, max: nat)
    requires
        n <= max,
    ensures
        number_value(decimal(n), max) == Some(n),
        forall|i: int| 0 <= i < decimal(n).len() ==> is_digit(#[trigger] decimal(n)[i]),
{
    lemma_decimal(n);
}

/// What stands between the brackets of a socket address is read back.
proof fn lemma_bracketed(v: u128, scope: u32)
    ensures
        ({
            let host = ipv6_text(v);
            let inside = if scope == 0 {
                host
            } else {
                host + seq!['%'] + decimal(scope as nat)
            };
            &&& bracketed_value(inside) == Some((IpAddr::V6(v), scope))
            &&& !inside.contains(']')
        }),
{
    let host = ipv6_text(v);
    let digits = decimal(scope as nat);
    law_addresses_are_read_back(IpAddr::V6(v));
    lemma_ipv6(v);
    lemma_number(scope as nat, u32::MAX as nat);
    assert(!host.contains('%'));
    if scope == 0 {
        lemma_first_at(host, '%');
        assert(before(host, '%') =~= host);
    } else {
        let inside = host + seq!['%'] + digits;
        lemma_cut(host, '%', digits);
        if inside.contains(']') {
            let k = inside.index_of(']');
            assert(inside[k] == ']');
            if k < host.len() {
                assert(host[k] == ']');
            } else if k > host.len() {
                assert(digits[k - host.len() - 1] == ']');
            }
        }
    }
}

/// A socket address that is written is read back.
pub proof fn law_socket_addresses_are_read_back(a: SocketAddr)
    requires
        a.wf(),
    ensures
        socket_value(socket_text(a)) == Some(a),
{
    let s = socket_text(a);
    let port = decimal(a.port as nat);
    lemma_number(a.port as nat, u16::MAX as nat);
    match a.ip {
        IpAddr::V4(v) => {
            let host = ipv4_text(v);
            lemma_ipv4(v);
            reveal_strlit(":");
            assert(s =~= host + seq![':'] + port);
            lemma_cut(host, ':', port);
            assert(s[0] == host[0]);
        },
        IpAddr::V6(v) => {
            let host = ipv6_text(v);
            let inside = if a.scope == 0 {
                host
            } else {
                host + seq!['%'] + decimal(a.scope as nat)
            };
            lemma_bracketed(v, a.scope);
            reveal_strlit("[");
            reveal_strlit("]:");
            reveal_strlit("%");
            let tail = seq![':'] + port;
            let rest = s.skip(1);
            assert(rest =~= inside + seq![']'] + tail);
            lemma_cut(inside, ']', tail);
            assert(tail.skip(1) =~= port);
            assert(s[0] == '[');
        },
    }
}

/// The text of an address consists of hexadecimal digits, dots and colons.
pub proof fn law_address_characters(ip: IpAddr)
    ensures
        ip_text(ip).len() > 0,
        forall|i: int| #![trigger ip_text(ip)[i]]
            0 <= i < ip_text(ip).len() ==> is_hex(ip_text(ip)[i]) || ip_text(ip)[i] == '.'
                || ip_text(ip)[i] == ':',
{
    match ip {
        IpAddr::V4(v) => {
            lemma_dotted_chars(v);
            lemma_ipv4(v);
        },
        IpAddr::V6(v) => {
            let s = ipv6_text(v);
            if v / 0x1_0000_0000 == 0xffff {
                let low = (v % 0x1_0000_0000) as u32;
                lemma_dotted_chars(low);
                reveal_strlit("::ffff:");
                assert forall|i: int| #![trigger s[i]] 0 <= i < s.len() implies is_hex(s[i]) || s[i]
                    == '.' || s[i] == ':' by {
                    if i >= 7 {
                        assert(s[i] == ipv4_text(low)[i - 7]);
                    } else {
                        assert(s[i] == "::ffff:"@[i]);
                    }
                }
            } else {
                let g = groups_of(v);
                let (start, len) = best_run(g, 8);
                lemma_best_run(g, 8);
                if len > 1 {
                    let (a, b) = (g.take(start), g.skip(start + len));
                    if a.len() > 0 {
                        lemma_joined(a);
                    }
                    if b.len() > 0 {
                        lemma_joined(b);
                    }
                    reveal_strlit("::");
                    let n = joined(a).len() as int;
                    assert forall|i: int| #![trigger s[i]] 0 <= i < s.len() implies is_hex(s[i])
                        || s[i] == '.' || s[i] == ':' by {
                        if i < n {
                            assert(s[i] == joined(a)[i]);
                        } else if i < n + 2 {
                            assert(s[i] == "::"@[i - n]);
                        } else {
                            assert(s[i] == joined(b)[i - n - 2]);
                        }
                    }
                } else {
                    lemma_joined(g);
                }
            }
        },
    }
}

} // verus!
