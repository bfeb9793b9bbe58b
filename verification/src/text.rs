//! Text helpers over Unicode scalar sequences.
use vstd::prelude::*;

verus! {

/// `String::push` of std: appends one character to the text.
pub assume_specification[ String::push ](s: &mut String, c: char)
    ensures
        final(s)@ == old(s)@.push(c),
;

/// The characters with the Unicode `White_Space` property.
pub open spec fn is_white(c: char) -> bool {
    let n = c as u32;
    ||| 0x09 <= n <= 0x0d
    ||| n == 0x20
    ||| n == 0x85
    ||| n == 0xa0
    ||| n == 0x1680
    ||| 0x2000 <= n <= 0x200a
    ||| n == 0x2028
    ||| n == 0x2029
    ||| n == 0x202f
    ||| n == 0x205f
    ||| n == 0x3000
}

pub fn white(c: char) -> (r: bool)
    ensures
        r == is_white(c),
{
    let n: u32 = c as u32;
    (0x09 <= n && n <= 0x0d) || n == 0x20 || n == 0x85 || n == 0xa0 || n == 0x1680 || (0x2000 <= n
        && n <= 0x200a) || n == 0x2028 || n == 0x2029 || n == 0x202f || n == 0x205f || n == 0x3000
}

/// The characters of a text, in order.
pub fn chars_of(s: &str) -> (r: Vec<char>)
    ensures
        r@ == s@,
{
    let mut out: Vec<char> = Vec::new();
    for c in it: s.chars()
        invariant
            out@ == s@.take(it.index() as int),
            it.seq() == s@,
    {
        out.push(c);
        assert(s@.take(it.index() + 1) =~= s@.take(it.index() as int).push(c));
    }
    assert(s@.take(s@.len() as int) =~= s@);
    out
}

/// Whether two texts hold the same characters.
pub fn same(a: &str, b: &str) -> (r: bool)
    ensures
        r == (a@ == b@),
{
    a.to_owned() == b.to_owned()
}

/// Two texts one after the other.
pub fn join(a: &str, b: &str) -> (r: String)
    ensures
        r@ == a@ + b@,
{
    let mut out: String = a.to_owned();
    out.append(b);
    out
}

/// A text without its leading white space.
pub open spec fn trim_start(s: Seq<char>) -> Seq<char>
    decreases s.len(),
{
    if s.len() > 0 && is_white(s[0]) {
        trim_start(s.skip(1))
    } else {
        s
    }
}

/// A text without its trailing white space.
pub open spec fn trim_end(s: Seq<char>) -> Seq<char>
    decreases s.len(),
{
    if s.len() > 0 && is_white(s.last()) {
        trim_end(s.drop_last())
    } else {
        s
    }
}

/// A text without white space at either end.
pub open spec fn trimmed(s: Seq<char>) -> Seq<char> {
    trim_end(trim_start(s))
}

/// Trimming makes no text longer.
pub proof fn lemma_trimmed_len(s: Seq<char>)
    ensures
        trimmed(s).len() <= s.len(),
{
    lemma_trim_start_len(s);
    lemma_trim_end_len(trim_start(s));
}

proof fn lemma_trim_start_len(s: Seq<char>)
    ensures
        trim_start(s).len() <= s.len(),
    decreases s.len(),
{
    if s.len() > 0 && is_white(s[0]) {
        lemma_trim_start_len(s.skip(1));
    }
}

proof fn lemma_trim_end_len(s: Seq<char>)
    ensures
        trim_end(s).len() <= s.len(),
    decreases s.len(),
{
    if s.len() > 0 && is_white(s.last()) {
        lemma_trim_end_len(s.drop_last());
    }
}

/// A text without the characters `c` that end it.
pub open spec fn trim_end_char(s: Seq<char>, c: char) -> Seq<char>
    decreases s.len(),
{
    if s.len() > 0 && s.last() == c {
        trim_end_char(s.drop_last(), c)
    } else {
        s
    }
}

/// Drops white space at both ends.
pub fn trim<'a>(s: &'a str) -> (r: &'a str)
    ensures
        r@ == trimmed(s@),
{
    let chars = chars_of(s);
    let n: usize = chars.len();
    let mut from: usize = 0;
    assert(s@.skip(0) =~= s@);
    while from < n && white(chars[from])
        invariant
            chars@ == s@,
            n == s@.len(),
            from <= n,
            trim_start(s@) == trim_start(s@.skip(from as int)),
        decreases n - from,
    {
        assert(s@.skip(from as int).skip(1) =~= s@.skip(from + 1));
        from += 1;
    }
    let ghost kept = s@.skip(from as int);
    assert(trim_start(s@) == kept);
    let mut to: usize = n;
    assert(s@.subrange(from as int, n as int) =~= kept);
    while to > from && white(chars[to - 1])
        invariant
            chars@ == s@,
            n == s@.len(),
            from <= to <= n,
            trim_end(kept) == trim_end(s@.subrange(from as int, to as int)),
        decreases to,
    {
        assert(s@.subrange(from as int, to as int).drop_last() =~= s@.subrange(
            from as int,
            to - 1,
        ));
        to -= 1;
    }
    s.substring_char(from, to)
}

/// Drops the characters `c` at the end.
pub fn trim_end_matches<'a>(s: &'a str, c: char) -> (r: &'a str)
    ensures
        r@ == trim_end_char(s@, c),
{
    let chars = chars_of(s);
    let n: usize = chars.len();
    let mut to: usize = n;
    assert(s@.take(n as int) =~= s@);
    while to > 0 && chars[to - 1] == c
        invariant
            chars@ == s@,
            n == s@.len(),
            to <= n,
            trim_end_char(s@, c) == trim_end_char(s@.take(to as int), c),
        decreases to,
    {
        assert(s@.take(to as int).drop_last() =~= s@.take(to - 1));
        to -= 1;
    }
    assert(s@.take(to as int) =~= s@.subrange(0, to as int));
    s.substring_char(0, to)
}

/// The lower-case form of an ASCII letter; any other character is itself.
pub open spec fn ascii_lower(c: char) -> char {
    if 'A' <= c <= 'Z' {
        ((c as u8) + 32) as u8 as char
    } else {
        c
    }
}

/// The upper-case form of an ASCII letter; any other character is itself.
pub open spec fn ascii_upper(c: char) -> char {
    if 'a' <= c <= 'z' {
        ((c as u8) - 32) as u8 as char
    } else {
        c
    }
}

/// A text with its ASCII letters in lower case.
pub open spec fn lower(s: Seq<char>) -> Seq<char> {
    s.map_values(|c: char| ascii_lower(c))
}

/// A text with its ASCII letters in upper case.
pub open spec fn upper(s: Seq<char>) -> Seq<char> {
    s.map_values(|c: char| ascii_upper(c))
}

/// Lower-cases the ASCII letters.
pub fn to_lower(s: &str) -> (r: String)
    ensures
        r@ == lower(s@),
{
    let mut out: String = String::new();
    for c in it: s.chars()
        invariant
            out@ == lower(s@.take(it.index() as int)),
            it.seq() == s@,
    {
        let d: char = if 'A' <= c && c <= 'Z' {
            (c as u8 + 32) as char
        } else {
            c
        };
        assert(lower(s@.take(it.index() + 1)) =~= lower(s@.take(it.index() as int)).push(
            ascii_lower(c),
        ));
        out.push(d);
    }
    assert(s@.take(s@.len() as int) =~= s@);
    out
}

/// Upper-cases the ASCII letters.
pub fn to_upper(s: &str) -> (r: String)
    ensures
        r@ == upper(s@),
{
    let mut out: String = String::new();
    for c in it: s.chars()
        invariant
            out@ == upper(s@.take(it.index() as int)),
            it.seq() == s@,
    {
        let d: char = if 'a' <= c && c <= 'z' {
            (c as u8 - 32) as char
        } else {
            c
        };
        assert(upper(s@.take(it.index() + 1)) =~= upper(s@.take(it.index() as int)).push(
            ascii_upper(c),
        ));
        out.push(d);
    }
    assert(s@.take(s@.len() as int) =~= s@);
    out
}

/// Whether a text ends with another.
pub open spec fn has_suffix(s: Seq<char>, t: Seq<char>) -> bool {
    t.len() <= s.len() && s.skip(s.len() - t.len()) == t
}

/// Whether a text starts with another.
pub open spec fn has_prefix(s: Seq<char>, t: Seq<char>) -> bool {
    t.len() <= s.len() && s.take(t.len() as int) == t
}

/// The text before the suffix `t`, where `s` ends with it.
pub fn strip_suffix<'a>(s: &'a str, t: &str) -> (r: Option<&'a str>)
    ensures
        r is Some <==> has_suffix(s@, t@),
        r matches Some(rest) ==> rest@ == s@.take(s@.len() - t@.len()),
{
    let n: usize = s.unicode_len();
    let m: usize = t.unicode_len();
    if m > n {
        return None;
    }
    let tail = s.substring_char(n - m, n);
    assert(tail@ =~= s@.skip(n - m));
    if same(tail, t) {
        let rest = s.substring_char(0, n - m);
        assert(rest@ =~= s@.take(n - m));
        Some(rest)
    } else {
        None
    }
}

/// The text after the prefix `t`, where `s` starts with it.
pub fn strip_prefix<'a>(s: &'a str, t: &str) -> (r: Option<&'a str>)
    ensures
        r is Some <==> has_prefix(s@, t@),
        r matches Some(rest) ==> rest@ == s@.skip(t@.len() as int),
{
    let n: usize = s.unicode_len();
    let m: usize = t.unicode_len();
    if m > n {
        return None;
    }
    let head = s.substring_char(0, m);
    assert(head@ =~= s@.take(m as int));
    if same(head, t) {
        let rest = s.substring_char(m, n);
        assert(rest@ =~= s@.skip(m as int));
        Some(rest)
    } else {
        None
    }
}

/// The place of the first `c`, or the length where there is none.
pub open spec fn first_at(s: Seq<char>, c: char) -> nat
    decreases s.len(),
{
    if s.len() == 0 || s[0] == c {
        0
    } else {
        1 + first_at(s.skip(1), c)
    }
}

/// The text before the first `c`, or the whole text.
pub open spec fn before(s: Seq<char>, c: char) -> Seq<char> {
    s.take(first_at(s, c) as int)
}

/// The text after the first `c`.
pub open spec fn after(s: Seq<char>, c: char) -> Seq<char> {
    s.skip(first_at(s, c) as int + 1)
}

/// `first_at` names the least place that holds `c`.
pub proof fn lemma_first_at(s: Seq<char>, c: char)
    ensures
        first_at(s, c) <= s.len(),
        first_at(s, c) < s.len() ==> s[first_at(s, c) as int] == c,
        forall|i: int| 0 <= i < first_at(s, c) ==> s[i] != c,
        first_at(s, c) < s.len() <==> s.contains(c),
    decreases s.len(),
{
    if s.len() == 0 || s[0] == c {
        if s.len() > 0 {
            assert(s.contains(s[0]));
        }
    } else {
        let t = s.skip(1);
        lemma_first_at(t, c);
        assert forall|i: int| 0 <= i < first_at(s, c) implies s[i] != c by {
            if i > 0 {
                assert(t[i - 1] == s[i]);
            }
        }
        if first_at(s, c) < s.len() {
            assert(s[first_at(s, c) as int] == c);
        }
        if s.contains(c) {
            let k = s.index_of(c);
            assert(s[k] == c);
            assert(t[k - 1] == c);
            assert(t.contains(c));
        }
    }
}

/// The place of the first `c`, or the length where there is none.
pub fn position(s: &str, c: char) -> (r: usize)
    ensures
        r == first_at(s@, c),
        r <= s@.len(),
{
    let chars = chars_of(s);
    let n: usize = chars.len();
    let mut i: usize = 0;
    assert(s@.skip(0) =~= s@);
    while i < n && chars[i] != c
        invariant
            chars@ == s@,
            n == s@.len(),
            i <= n,
            first_at(s@, c) == i + first_at(s@.skip(i as int), c),
        decreases n - i,
    {
        assert(s@.skip(i as int).skip(1) =~= s@.skip(i + 1));
        i += 1;
    }
    i
}

/// The text before the first `c`, or the whole text.
pub fn take_before<'a>(s: &'a str, c: char) -> (r: &'a str)
    ensures
        r@ == before(s@, c),
{
    let i: usize = position(s, c);
    let r = s.substring_char(0, i);
    assert(r@ =~= before(s@, c));
    r
}

/// Splits at the first `c`.
pub fn split_once<'a>(s: &'a str, c: char) -> (r: Option<(&'a str, &'a str)>)
    ensures
        r is Some <==> s@.contains(c),
        r matches Some((a, b)) ==> a@ == before(s@, c) && b@ == after(s@, c),
{
    let i: usize = position(s, c);
    let n: usize = s.unicode_len();
    proof {
        lemma_first_at(s@, c);
    }
    if i < n {
        let a = s.substring_char(0, i);
        let b = s.substring_char(i + 1, n);
        assert(a@ =~= before(s@, c));
        assert(b@ =~= after(s@, c));
        Some((a, b))
    } else {
        None
    }
}

/// The parts of a text between the characters `c`.
pub open spec fn parts(s: Seq<char>, c: char) -> Seq<Seq<char>>
    decreases s.len(),
{
    if s.contains(c) {
        proof {
            lemma_first_at(s, c);
        }
        seq![before(s, c)] + parts(after(s, c), c)
    } else {
        seq![s]
    }
}

/// The texts that a list of string slices shows.
pub open spec fn views(list: Seq<&str>) -> Seq<Seq<char>> {
    list.map_values(|p: &str| p@)
}

/// Splits a text at each `c`.
pub fn split<'a>(s: &'a str, c: char) -> (r: Vec<&'a str>)
    ensures
        views(r@) == parts(s@, c),
{
    let mut out: Vec<&'a str> = Vec::new();
    let mut rest: &'a str = s;
    assert(views(out@) + parts(s@, c) =~= parts(s@, c));
    loop
        invariant
            parts(s@, c) == views(out@) + parts(rest@, c),
        decreases rest@.len(),
    {
        let ghost done = views(out@);
        match split_once(rest, c) {
            Some((head, tail)) => {
                proof {
                    lemma_first_at(rest@, c);
                }
                out.push(head);
                assert(views(out@) =~= done.push(head@));
                assert(done.push(head@) + parts(tail@, c) =~= done + (seq![head@] + parts(
                    tail@,
                    c,
                )));
                rest = tail;
            },
            None => {
                out.push(rest);
                assert(views(out@) =~= done + seq![rest@]);
                return out;
            },
        }
    }
}

/// Whether `pattern` stands somewhere in the text.
pub open spec fn holds(s: Seq<char>, pattern: Seq<char>) -> bool
    decreases s.len(),
{
    has_prefix(s, pattern) || (s.len() > 0 && holds(s.skip(1), pattern))
}

/// The text with each `pattern`, found from the left and without overlaps, replaced.
pub open spec fn replaced(s: Seq<char>, pattern: Seq<char>, with: Seq<char>) -> Seq<char>
    decreases s.len(),
{
    if pattern.len() == 0 || s.len() == 0 {
        s
    } else if has_prefix(s, pattern) {
        with + replaced(s.skip(pattern.len() as int), pattern, with)
    } else {
        seq![s[0]] + replaced(s.skip(1), pattern, with)
    }
}

/// Whether the characters from place `at` on start with `pattern`.
fn prefix_at(chars: &Vec<char>, at: usize, pattern: &Vec<char>) -> (r: bool)
    requires
        at <= chars@.len(),
    ensures
        r == has_prefix(chars@.skip(at as int), pattern@),
{
    let n: usize = chars.len();
    let m: usize = pattern.len();
    if m > n - at {
        return false;
    }
    let mut i: usize = 0;
    while i < m
        invariant
            n == chars@.len(),
            m == pattern@.len(),
            i <= m,
            at + m <= n,
            forall|k: int| 0 <= k < i ==> chars@[at + k] == pattern@[k],
        decreases m - i,
    {
        if chars[at + i] != pattern[i] {
            assert(chars@.skip(at as int).take(m as int)[i as int] != pattern@[i as int]);
            return false;
        }
        i += 1;
    }
    assert(chars@.skip(at as int).take(m as int) =~= pattern@);
    true
}

/// Whether `pattern` stands somewhere in the text.
pub fn contains(s: &str, pattern: &str) -> (r: bool)
    ensures
        r == holds(s@, pattern@),
{
    let chars = chars_of(s);
    let pat = chars_of(pattern);
    let n: usize = chars.len();
    let mut i: usize = 0;
    assert(s@.skip(0) =~= s@);
    loop
        invariant
            chars@ == s@,
            pat@ == pattern@,
            n == s@.len(),
            i <= n,
            holds(s@, pattern@) == holds(s@.skip(i as int), pattern@),
        decreases n - i,
    {
        if prefix_at(&chars, i, &pat) {
            return true;
        }
        if i == n {
            return false;
        }
        assert(s@.skip(i as int).skip(1) =~= s@.skip(i + 1));
        i += 1;
    }
}

/// Replaces each `pattern`, found from the left and without overlaps.
pub fn replace(s: &str, pattern: &str, with: &str) -> (r: String)
    requires
        pattern@.len() > 0,
    ensures
        r@ == replaced(s@, pattern@, with@),
{
    let chars = chars_of(s);
    let pat = chars_of(pattern);
    let n: usize = chars.len();
    let mut out: String = String::new();
    let mut i: usize = 0;
    assert(s@.skip(0) =~= s@);
    assert(out@ + replaced(s@, pattern@, with@) =~= replaced(s@, pattern@, with@));
    while i < n
        invariant
            chars@ == s@,
            pat@ == pattern@,
            pattern@.len() > 0,
            n == s@.len(),
            i <= n,
            replaced(s@, pattern@, with@) == out@ + replaced(s@.skip(i as int), pattern@, with@),
        decreases n - i,
    {
        let ghost done = out@;
        if prefix_at(&chars, i, &pat) {
            out.append(with);
            assert(s@.skip(i as int).skip(pat@.len() as int) =~= s@.skip(i + pat@.len()));
            assert(out@ + replaced(s@.skip(i + pat@.len()), pattern@, with@) =~= done + (with@
                + replaced(s@.skip(i + pat@.len()), pattern@, with@)));
            i += pat.len();
        } else {
            out.push(chars[i]);
            assert(s@.skip(i as int).skip(1) =~= s@.skip(i + 1));
            assert(out@ + replaced(s@.skip(i + 1), pattern@, with@) =~= done + (seq![s@[i as int]]
                + replaced(s@.skip(i + 1), pattern@, with@)));
            i += 1;
        }
    }
    assert(s@.skip(n as int) =~= Seq::<char>::empty());
    assert(out@ + Seq::<char>::empty() =~= out@);
    out
}

/// The decimal digit of a number below ten.
pub open spec fn digit(d: nat) -> char {
    ((48 + d) as u8) as char
}

/// The decimal form of a number, without leading zeros.
pub open spec fn decimal(n: nat) -> Seq<char>
    decreases n,
{
    if n < 10 {
        seq![digit(n)]
    } else {
        decimal(n / 10).push(digit(n % 10))
    }
}

/// Writes a number in decimal.
pub fn decimal_text(n: u64) -> (r: String)
    ensures
        r@ == decimal(n as nat),
    decreases n,
{
    if n < 10 {
        let mut out: String = String::new();
        out.push((48 + n as u8) as char);
        assert(out@ =~= seq![digit(n as nat)]);
        out
    } else {
        let mut out: String = decimal_text(n / 10);
        out.push((48 + (n % 10) as u8) as char);
        out
    }
}

/// Whether a character is a decimal digit.
pub open spec fn is_digit(c: char) -> bool {
    '0' <= c <= '9'
}

/// The number that a run of decimal digits denotes.
pub open spec fn digits_value(s: Seq<char>) -> nat
    decreases s.len(),
{
    if s.len() == 0 {
        0
    } else {
        10 * digits_value(s.drop_last()) + (s.last() as u32 - '0' as u32) as nat
    }
}

/// Whether a text is one or more decimal digits.
pub open spec fn all_digits(s: Seq<char>) -> bool {
    s.len() > 0 && forall|i: int| 0 <= i < s.len() ==> is_digit(#[trigger] s[i])
}

/// The digits of an unsigned number, which may carry a plus sign.
pub open spec fn unsigned_digits(s: Seq<char>) -> Seq<char> {
    if s.len() > 0 && s[0] == '+' {
        s.skip(1)
    } else {
        s
    }
}

/// The number that a text denotes, where it denotes one up to `max`.
pub open spec fn parsed_unsigned(s: Seq<char>, max: nat) -> Option<nat> {
    let digits = unsigned_digits(s);
    if all_digits(digits) && digits_value(digits) <= max {
        Some(digits_value(digits))
    } else {
        None
    }
}

/// A longer run of digits denotes no smaller number.
proof fn lemma_digits_grow(s: Seq<char>, i: int)
    requires
        0 <= i <= s.len(),
    ensures
        digits_value(s.take(i)) <= digits_value(s),
    decreases s.len(),
{
    if i == s.len() {
        assert(s.take(i) =~= s);
    } else {
        lemma_digits_grow(s.drop_last(), i);
        assert(s.drop_last().take(i) =~= s.take(i));
    }
}

/// Reads a run of digits with a bound.
fn parse_digits(chars: &Vec<char>, from: usize, max: u64) -> (r: Option<u64>)
    requires
        from <= chars@.len(),
    ensures
        r is Some <==> all_digits(chars@.skip(from as int)) && digits_value(
            chars@.skip(from as int),
        ) <= max,
        r matches Some(v) ==> v == digits_value(chars@.skip(from as int)),
{
    let n: usize = chars.len();
    let ghost s = chars@.skip(from as int);
    if from == n {
        return None;
    }
    let mut value: u64 = 0;
    let mut i: usize = from;
    while i < n
        invariant
            n == chars@.len(),
            from <= i <= n,
            s == chars@.skip(from as int),
            value == digits_value(s.take(i - from)),
            value <= max,
            forall|k: int| 0 <= k < i - from ==> is_digit(#[trigger] s[k]),
        decreases n - i,
    {
        let c: char = chars[i];
        assert(s[i - from] == c);
        if !('0' <= c && c <= '9') {
            assert(!is_digit(s[i - from]));
            return None;
        }
        let d: u64 = c as u64 - '0' as u64;
        assert(s.take(i - from + 1).drop_last() =~= s.take(i - from));
        assert(digits_value(s.take(i - from + 1)) == 10 * value + d);
        if value > max / 10 || d > max - 10 * value {
            proof {
                lemma_digits_grow(s, i - from + 1);
            }
            return None;
        }
        value = 10 * value + d;
        i += 1;
    }
    assert(s.take(n - from) =~= s);
    Some(value)
}

/// Reads an unsigned decimal number up to `max`.
pub fn parse_unsigned(s: &str, max: u64) -> (r: Option<u64>)
    ensures
        r is Some <==> parsed_unsigned(s@, max as nat) is Some,
        r matches Some(v) ==> parsed_unsigned(s@, max as nat) == Some(v as nat),
{
    let chars = chars_of(s);
    if chars.len() > 0 && chars[0] == '+' {
        parse_digits(&chars, 1, max)
    } else {
        assert(s@.skip(0) =~= s@);
        parse_digits(&chars, 0, max)
    }
}

/// The number that a signed text denotes, where it fits 64 bits.
pub open spec fn parsed_signed(s: Seq<char>) -> Option<int> {
    if s.len() > 0 && s[0] == '-' {
        let digits = s.skip(1);
        if all_digits(digits) && digits_value(digits) <= 0x8000_0000_0000_0000 {
            Some(-(digits_value(digits) as int))
        } else {
            None
        }
    } else {
        match parsed_unsigned(s, i64::MAX as nat) {
            Some(v) => Some(v as int),
            None => None,
        }
    }
}

/// Reads a signed decimal number of 64 bits.
pub fn parse_signed(s: &str) -> (r: Option<i64>)
    ensures
        r is Some <==> parsed_signed(s@) is Some,
        r matches Some(v) ==> parsed_signed(s@) == Some(v as int),
{
    let chars = chars_of(s);
    if chars.len() > 0 && chars[0] == '-' {
        match parse_digits(&chars, 1, 0x8000_0000_0000_0000) {
            None => None,
            Some(v) => if v == 0x8000_0000_0000_0000 {
                Some(i64::MIN)
            } else {
                Some(-(v as i64))
            },
        }
    } else {
        match parse_unsigned(s, i64::MAX as u64) {
            None => None,
            Some(v) => Some(v as i64),
        }
    }
}

// What holds of texts.
/// A trimmed text is the text but for white space at its ends, and has none there.
pub proof fn law_trimming(s: Seq<char>)
    ensures
        exists|i: int, j: int| #[trigger]
            s.subrange(i, j) == trimmed(s) && 0 <= i <= j <= s.len() && (forall|k: int|
                0 <= k < i ==> is_white(#[trigger] s[k])) && (forall|k: int|
                j <= k < s.len() ==> is_white(#[trigger] s[k])),
        trimmed(s).len() > 0 ==> !is_white(trimmed(s)[0]) && !is_white(trimmed(s).last()),
        trimmed(trimmed(s)) == trimmed(s),
{
    let t = trim_start(s);
    lemma_trim_start(s);
    lemma_trim_end(t);
    let i = s.len() - t.len();
    let j = i + trimmed(s).len();
    assert(s.subrange(i, j) =~= trimmed(s)) by {
        assert forall|k: int| 0 <= k < trimmed(s).len() implies s.subrange(i, j)[k] == trimmed(
            s,
        )[k] by {
            assert(t[k] == s[i + k]);
        }
    }
    assert forall|k: int| j <= k < s.len() implies is_white(#[trigger] s[k]) by {
        assert(t[k - i] == s[k]);
    }
    if trimmed(s).len() > 0 {
        assert(trimmed(s)[0] == t[0]);
    }
}

proof fn lemma_trim_start(s: Seq<char>)
    ensures
        trim_start(s).len() <= s.len(),
        trim_start(s) == s.skip(s.len() - trim_start(s).len()),
        forall|k: int| 0 <= k < s.len() - trim_start(s).len() ==> is_white(#[trigger] s[k]),
        trim_start(s).len() > 0 ==> !is_white(trim_start(s)[0]),
    decreases s.len(),
{
    if s.len() > 0 && is_white(s[0]) {
        let t = s.skip(1);
        lemma_trim_start(t);
        assert(s.skip(s.len() - trim_start(s).len()) =~= t.skip(t.len() - trim_start(t).len()));
        assert forall|k: int| 0 <= k < s.len() - trim_start(s).len() implies is_white(
            #[trigger] s[k],
        ) by {
            if k > 0 {
                assert(t[k - 1] == s[k]);
            }
        }
    } else {
        assert(s.skip(0) =~= s);
    }
}

proof fn lemma_trim_end(s: Seq<char>)
    ensures
        trim_end(s).len() <= s.len(),
        trim_end(s) == s.take(trim_end(s).len() as int),
        forall|k: int| trim_end(s).len() <= k < s.len() ==> is_white(#[trigger] s[k]),
        trim_end(s).len() > 0 ==> !is_white(trim_end(s).last()),
    decreases s.len(),
{
    if s.len() > 0 && is_white(s.last()) {
        let t = s.drop_last();
        lemma_trim_end(t);
        assert(s.take(trim_end(s).len() as int) =~= t.take(trim_end(t).len() as int));
        assert forall|k: int| trim_end(s).len() <= k < s.len() implies is_white(#[trigger] s[k]) by {
            if k < t.len() {
                assert(t[k] == s[k]);
            }
        }
    } else {
        assert(s.take(s.len() as int) =~= s);
    }
}

/// White space is the space, the tab and the line breaks among others; letters, digits and the marks
/// of ASCII are not.
pub proof fn law_white_space(c: char)
    ensures
        is_white(' ') && is_white('\t') && is_white('\n') && is_white('\r'),
        '!' <= c <= '~' ==> !is_white(c),
{
}

/// Lower case changes the letters `A` to `Z` and nothing else, and is the same for both cases.
pub proof fn law_lower_case(s: Seq<char>, i: int)
    requires
        0 <= i < s.len(),
    ensures
        lower(s).len() == s.len(),
        lower(lower(s)) == lower(s),
        lower(upper(s)) == lower(s),
        'A' <= s[i] <= 'Z' ==> 'a' <= lower(s)[i] <= 'z' && lower(s)[i] as int - 'a' as int
            == s[i] as int - 'A' as int,
        !('A' <= s[i] <= 'Z') ==> lower(s)[i] == s[i],
{
    assert(lower(lower(s)) =~= lower(s));
    assert(lower(upper(s)) =~= lower(s));
}

/// The parts of a text between a character are put together again with that character between them,
/// and none of them holds it.
pub proof fn law_parts_make_the_text(s: Seq<char>, c: char)
    ensures
        parts(s, c).len() > 0,
        put_together(parts(s, c), c) == s,
        forall|i: int| 0 <= i < parts(s, c).len() ==> !(#[trigger] parts(s, c)[i]).contains(c),
    decreases s.len(),
{
    if s.contains(c) {
        lemma_first_at(s, c);
        let (a, b) = (before(s, c), after(s, c));
        law_parts_make_the_text(b, c);
        let all = parts(s, c);
        assert(all.skip(1) =~= parts(b, c));
        assert(all[0] == a);
        assert(a + seq![c] + b =~= s);
        assert forall|i: int| 0 <= i < all.len() implies !(#[trigger] all[i]).contains(c) by {
            if i > 0 {
                assert(all[i] == parts(b, c)[i - 1]);
            }
        }
    }
}

/// Texts with a character between them.
pub open spec fn put_together(list: Seq<Seq<char>>, c: char) -> Seq<char>
    decreases list.len(),
{
    if list.len() == 0 {
        Seq::empty()
    } else if list.len() == 1 {
        list[0]
    } else {
        list[0] + seq![c] + put_together(list.skip(1), c)
    }
}

/// A number is read from its digits, with or without a plus in front, where it is not too large; a
/// text without digits, and one with anything else in it, is none.
pub proof fn law_numbers_are_read(n: nat, max: nat, s: Seq<char>, i: int)
    ensures
        n <= max ==> parsed_unsigned(decimal(n), max) == Some(n),
        n <= max ==> parsed_unsigned(seq!['+'] + decimal(n), max) == Some(n),
        n > max ==> parsed_unsigned(decimal(n), max) is None,
        n <= i64::MAX ==> parsed_signed(decimal(n)) == Some(n as int),
        n > i64::MAX ==> parsed_signed(decimal(n)) is None,
        n <= 0x8000_0000_0000_0000 ==> parsed_signed(seq!['-'] + decimal(n)) == Some(-(n as int)),
        parsed_unsigned(Seq::empty(), max) is None,
        0 < i < s.len() && !('0' <= s[i] <= '9') ==> parsed_unsigned(s, max) is None
            && parsed_signed(s) is None,
{
    crate::readback::lemma_decimal(n);
    let d = decimal(n);
    assert(is_digit(d[0]));
    assert((seq!['+'] + d).skip(1) =~= d);
    assert((seq!['-'] + d).skip(1) =~= d);
    if 0 < i < s.len() && !('0' <= s[i] <= '9') {
        assert(s.skip(1)[i - 1] == s[i]);
        assert(!is_digit(s.skip(1)[i - 1]));
        assert(!is_digit(s[i]));
    }
}

/// Trailing characters are dropped as long as they are the given one.
pub proof fn law_trailing_characters(s: Seq<char>, c: char)
    ensures
        s.len() == 0 || s.last() != c ==> trim_end_char(s, c) == s,
        trim_end_char(s.push(c), c) == trim_end_char(s, c),
        trim_end_char(s, c).len() > 0 ==> trim_end_char(s, c).last() != c,
    decreases s.len(),
{
    assert(s.push(c).drop_last() =~= s);
    if s.len() > 0 && s.last() == c {
        law_trailing_characters(s.drop_last(), c);
    }
}

/// A text without the pattern stays as it is; one that starts with it, or holds it behind characters at
/// which it does not begin, has it replaced there, and goes on the same way.
pub proof fn law_replacing(s: Seq<char>, pattern: Seq<char>, with: Seq<char>)
    requires
        pattern.len() > 0,
    ensures
        !holds(s, pattern) ==> replaced(s, pattern, with) == s,
        replaced(pattern + s, pattern, with) == with + replaced(s, pattern, with),
        holds(pattern + s, pattern),
    decreases s.len(),
{
    let t = pattern + s;
    assert(t.take(pattern.len() as int) =~= pattern);
    assert(t.skip(pattern.len() as int) =~= s);
    if s.len() > 0 {
        law_replacing(s.skip(1), pattern, with);
        assert(seq![s[0]] + s.skip(1) =~= s);
    }
}

/// A text holds a pattern where the pattern stands somewhere in it, and only there.
pub proof fn law_patterns_are_found(s: Seq<char>, pattern: Seq<char>, i: int)
    ensures
        0 <= i && i + pattern.len() <= s.len() && s.subrange(i, i + pattern.len()) == pattern
            ==> holds(s, pattern),
        holds(s, pattern) ==> exists|k: int|
            0 <= k && k + pattern.len() <= s.len() && #[trigger] s.subrange(k, k + pattern.len())
                == pattern,
    decreases s.len(),
{
    let n = pattern.len() as int;
    if 0 <= i && i + n <= s.len() && s.subrange(i, i + n) == pattern {
        if i == 0 {
            assert(s.take(n) =~= pattern);
        } else {
            assert(s.skip(1).subrange(i - 1, i - 1 + n) =~= pattern);
            law_patterns_are_found(s.skip(1), pattern, i - 1);
        }
    }
    if holds(s, pattern) {
        if has_prefix(s, pattern) {
            assert(s.subrange(0, 0 + n) =~= pattern);
        } else {
            law_patterns_are_found(s.skip(1), pattern, 0);
            let k = choose|k: int|
                0 <= k && k + pattern.len() <= s.skip(1).len() && #[trigger] s.skip(1).subrange(
                    k,
                    k + pattern.len(),
                ) == pattern;
            assert(s.subrange(k + 1, k + 1 + n) =~= s.skip(1).subrange(k, k + n));
        }
    }
}

/// A text starts with its beginning and ends with its end, and is put together from what it starts with
/// and the rest.
pub proof fn law_beginnings_and_ends(a: Seq<char>, b: Seq<char>)
    ensures
        has_prefix(a + b, a),
        has_suffix(a + b, b),
        has_prefix(a, b) ==> a == b + a.skip(b.len() as int),
        has_suffix(a, b) ==> b.len() <= a.len() && a == a.take(a.len() - b.len()) + b,
{
    assert((a + b).take(a.len() as int) =~= a);
    assert((a + b).skip(a.len() as int) =~= b);
    if has_prefix(a, b) {
        assert(a =~= a.take(b.len() as int) + a.skip(b.len() as int));
    }
    if has_suffix(a, b) {
        assert(a =~= a.take(a.len() - b.len()) + a.skip(a.len() - b.len()));
    }
}

} // verus!
