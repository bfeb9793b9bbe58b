//! Identifiers: 128-bit numbers with a hyphenated text.
use crate::net::hex_digit;
use vstd::arithmetic::div_mod::lemma_div_denominator;
use vstd::arithmetic::power2::{lemma2_to64, lemma_pow2_adds, lemma_pow2_pos, pow2};
use vstd::prelude::*;

verus! {

/// The place among the 32 hexadecimal digits of an identifier of a character in its text.
pub open spec fn digit_place(i: int) -> int {
    if i < 8 {
        i
    } else if i < 13 {
        i - 1
    } else if i < 18 {
        i - 2
    } else if i < 23 {
        i - 3
    } else {
        i - 4
    }
}

/// The text of an identifier: its 32 hexadecimal digits in lower case, in groups of 8, 4, 4, 4
/// and 12 with hyphens between them.
pub open spec fn id_text(id: u128) -> Seq<char> {
    Seq::new(
        36,
        |i: int|
            if i == 8 || i == 13 || i == 18 || i == 23 {
                '-'
            } else {
                hex_digit((id as nat / pow2((4 * (31 - digit_place(i))) as nat)) % 16)
            },
    )
}

/// The identifier that a text names, or what is wrong with the text.
pub uninterp spec fn id_reading(text: Seq<char>) -> Result<u128, Seq<char>>;

/// The identifier that a text names.
pub open spec fn id_value(text: Seq<char>) -> Option<u128> {
    match id_reading(text) {
        Ok(id) => Some(id),
        Err(_) => None,
    }
}

/// What is wrong with a text that names no identifier.
pub open spec fn id_error(text: Seq<char>) -> Seq<char> {
    id_reading(text)->Err_0
}

/// `uuid::Uuid::parse_str`: the identifier that a text names, or the text of the error.
#[verifier::external_body]
pub(crate) fn read_id(text: &str) -> (r: Result<u128, String>)
    ensures
        (match r {
            Ok(id) => Ok(id),
            Err(e) => Err(e@),
        }) == id_reading(text@),
{
    match uuid::Uuid::parse_str(text) {
        Ok(id) => Ok(id.as_u128()),
        Err(error) => Err(error.to_string()),
    }
}

/// `uuid::Uuid`'s `Display`: the hyphenated text, which names the identifier when it is read.
#[verifier::external_body]
pub(crate) fn write_id(id: u128) -> (r: String)
    ensures
        r@ == id_text(id),
        id_value(r@) == Some(id),
{
    uuid::Uuid::from_u128(id).to_string()
}

/// `uuid::Uuid::new_v4`: a random identifier. Which one is left to chance.
#[verifier::external_body]
pub(crate) fn new_id() -> (r: u128) {
    uuid::Uuid::new_v4().as_u128()
}

/// The text of an identifier.
pub fn id_string(id: u128) -> (r: String)
    ensures
        r@ == id_text(id),
        id_value(r@) == Some(id),
{
    write_id(id)
}

/// The identifier that a text names.
pub fn parse_id(text: &str) -> (r: Option<u128>)
    ensures
        r == id_value(text@),
{
    match read_id(text) {
        Ok(id) => Some(id),
        Err(_) => None,
    }
}

/// Numbers whose hexadecimal digits agree are equal.
proof fn lemma_digits(a: nat, b: nat, n: nat)
    requires
        a < pow2(4 * n),
        b < pow2(4 * n),
        forall|k: nat|
            k < n ==> (a / #[trigger] pow2(4 * k)) % 16 == (b / pow2(4 * k)) % 16,
    ensures
        a == b,
    decreases n,
{
    lemma2_to64();
    if n > 0 {
        lemma_pow2_adds((4 * (n - 1)) as nat, 4);
        let p = pow2((4 * (n - 1)) as nat);
        assert(4 * n == 4 * (n - 1) + 4);
        assert(a / 16 < p) by (nonlinear_arith)
            requires
                a < p * 16,
        ;
        assert(b / 16 < p) by (nonlinear_arith)
            requires
                b < p * 16,
        ;
        assert forall|k: nat| k < n - 1 implies ((a / 16) / #[trigger] pow2(4 * k)) % 16 == ((b
            / 16) / pow2(4 * k)) % 16 by {
            lemma_pow2_adds(4, 4 * k);
            lemma_pow2_pos(4 * k);
            let q = pow2(4 * k);
            lemma_div_denominator(a as int, 16, q as int);
            lemma_div_denominator(b as int, 16, q as int);
            assert(4 + 4 * k == 4 * (k + 1));
            assert((a / pow2(4 * (k + 1))) % 16 == (b / pow2(4 * (k + 1))) % 16);
        }
        lemma_digits(a / 16, b / 16, (n - 1) as nat);
        let zero: nat = 0;
        assert(pow2(4 * zero) == 1);
        assert((a / pow2(4 * zero)) % 16 == (b / pow2(4 * zero)) % 16);
        assert(a / 1 == a && b / 1 == b);
        assert(a % 16 == b % 16);
        assert(a == 16 * (a / 16) + a % 16);
        assert(b == 16 * (b / 16) + b % 16);
    } else {
        assert(pow2(0) == 1);
    }
}

/// The text of an identifier determines it: two identifiers have two texts.
pub proof fn law_id_texts_differ(a: u128, b: u128)
    requires
        id_text(a) == id_text(b),
    ensures
        a == b,
{
    lemma2_to64();
    lemma_pow2_adds(64, 64);
    assert(pow2(128) == 0x1_0000_0000_0000_0000 * 0x1_0000_0000_0000_0000);
    assert forall|k: nat| k < 32 implies (a as nat / #[trigger] pow2(4 * k)) % 16 == (b as nat
        / pow2(4 * k)) % 16 by {
        let place = 31 - k;
        let i = if place < 8 {
            place
        } else if place < 12 {
            place + 1
        } else if place < 16 {
            place + 2
        } else if place < 20 {
            place + 3
        } else {
            place + 4
        };
        assert(digit_place(i) == place);
        assert(id_text(a)[i] == id_text(b)[i]);
        let x = (a as nat / pow2(4 * k)) % 16;
        let y = (b as nat / pow2(4 * k)) % 16;
        assert(id_text(a)[i] == hex_digit(x));
        assert(id_text(b)[i] == hex_digit(y));
    }
    lemma_digits(a as nat, b as nat, 32);
}

} // verus!
