//! Random secrets, their digests, and the encodings in which they travel.
use crate::error::AppError;
use crate::net::hex_digit;
use crate::text::{has_prefix, parts};
use vstd::prelude::*;
use vstd::utf8::encode_utf8;

verus! {

/// Six bits of a run of bytes, counted from its start; the bits past its end are zero.
pub open spec fn sextet(bytes: Seq<u8>, i: int) -> int {
    let k = 3 * (i / 4);
    let a = bytes[k] as int;
    let b = if k + 1 < bytes.len() { bytes[k + 1] as int } else { 0 };
    let c = if k + 2 < bytes.len() { bytes[k + 2] as int } else { 0 };
    if i % 4 == 0 {
        a / 4
    } else if i % 4 == 1 {
        (a % 4) * 16 + b / 16
    } else if i % 4 == 2 {
        (b % 16) * 4 + c / 64
    } else {
        c % 64
    }
}

/// The character of six bits, with `plus` and `slash` for the last two.
pub open spec fn sextet_char(d: int, plus: char, slash: char) -> char {
    if d < 26 {
        (65 + d) as char
    } else if d < 52 {
        (97 + d - 26) as char
    } else if d < 62 {
        (48 + d - 52) as char
    } else if d == 62 {
        plus
    } else {
        slash
    }
}

/// The base64 text of a run of bytes, without padding.
pub open spec fn base64_chars(bytes: Seq<u8>, plus: char, slash: char) -> Seq<char> {
    Seq::new(
        (4 * bytes.len() + 2) / 3,
        |i: int| sextet_char(sextet(bytes, i), plus, slash),
    )
}

/// The URL-safe base64 text of a run of bytes, without padding.
pub open spec fn url_base64(bytes: Seq<u8>) -> Seq<char> {
    base64_chars(bytes, '-', '_')
}

/// The standard base64 text of a run of bytes, padded to whole groups of four.
pub open spec fn standard_base64(bytes: Seq<u8>) -> Seq<char> {
    let chars = base64_chars(bytes, '+', '/');
    chars + Seq::new(((4 - chars.len() % 4) % 4) as nat, |i: int| '=')
}

/// The lower-case hexadecimal text of a run of bytes.
pub open spec fn hex_text(bytes: Seq<u8>) -> Seq<char> {
    Seq::new(
        2 * bytes.len(),
        |i: int|
            hex_digit(
                if i % 2 == 0 {
                    bytes[i / 2] as nat / 16
                } else {
                    bytes[i / 2] as nat % 16
                },
            ),
    )
}

/// The BLAKE3 digest of a run of bytes.
pub uninterp spec fn blake3_digest(bytes: Seq<u8>) -> Seq<u8>;

/// Whether an encoded Argon2 hash is one of a password.
pub uninterp spec fn argon2_accepts(encoded: Seq<char>, password: Seq<u8>) -> bool;

/// The encoded Argon2 hash of a password under a salt.
pub uninterp spec fn argon2_hash(password: Seq<u8>, salt: Seq<u8>) -> Seq<char>;

/// `rand::RngCore::fill_bytes` of the thread's generator: as many bytes as asked for. Which ones
/// is left to chance.
#[verifier::external_body]
fn random_bytes(count: usize) -> (r: Vec<u8>)
    ensures
        r@.len() == count,
{
    let mut data = vec![0_u8; count];
    rand::RngCore::fill_bytes(&mut rand::rng(), &mut data);
    data
}

/// `base64` with the `URL_SAFE_NO_PAD` engine: the URL-safe text without padding.
#[verifier::external_body]
fn encode_url_base64(bytes: &[u8]) -> (r: String)
    ensures
        r@ == url_base64(bytes@),
{
    base64::Engine::encode(&base64::engine::general_purpose::URL_SAFE_NO_PAD, bytes)
}

/// `base64` with the `STANDARD` engine: the standard text with padding.
#[verifier::external_body]
pub(crate) fn encode_standard_base64(bytes: &[u8]) -> (r: String)
    ensures
        r@ == standard_base64(bytes@),
{
    base64::Engine::encode(&base64::engine::general_purpose::STANDARD, bytes)
}

/// What is wrong with a text that is the standard base64 text of no bytes.
pub uninterp spec fn base64_error(text: Seq<char>) -> Seq<char>;

/// `base64` with the `STANDARD` engine: the bytes whose standard text this is. The engine accepts
/// canonical padding and canonical last bits alone, so no other text is read. The text of its error
/// is named, not stated.
#[verifier::external_body]
pub(crate) fn decode_standard_base64(text: &str) -> (r: Result<Vec<u8>, String>)
    ensures
        r matches Ok(bytes) ==> text@ == standard_base64(bytes@),
        r is Err ==> forall|bytes: Seq<u8>| text@ != #[trigger] standard_base64(bytes),
        r matches Err(e) ==> e@ == base64_error(text@),
{
    base64::Engine::decode(&base64::engine::general_purpose::STANDARD, text).map_err(
        |error| error.to_string(),
    )
}

/// `blake3::hash` and `blake3::Hash::to_hex`: the digest of the bytes, 32 bytes long, in lower-case
/// hexadecimal.
#[verifier::external_body]
fn blake3_hex(bytes: &[u8]) -> (r: String)
    ensures
        r@ == hex_text(blake3_digest(bytes@)),
        r@.len() == 64,
{
    blake3::hash(bytes).to_hex().to_string()
}

/// Whether a text has the form of an encoded Argon2 hash: behind a dollar sign the name of one of
/// the three variants, and behind further dollar signs a salt and a hash, before which a version and
/// parameters may stand.
pub open spec fn argon2_text(encoded: Seq<char>) -> bool {
    let fields = parts(encoded, '$');
    &&& 4 <= fields.len() <= 6
    &&& fields[0].len() == 0
    &&& fields[1] == "argon2d"@ || fields[1] == "argon2i"@ || fields[1] == "argon2id"@
}

/// `argon2::Argon2::verify_password` with the default parameters: whether the text is an encoded
/// hash and one of this password. What is accepted has the form of such a hash. That no second
/// password is accepted with a hash is not said: digests may collide.
#[verifier::external_body]
fn argon2_verify(encoded: &str, password: &[u8]) -> (r: bool)
    ensures
        r == argon2_accepts(encoded@, password@),
        r ==> argon2_text(encoded@),
{
    argon2::PasswordHash::new(encoded).ok().and_then(
        |hash|
            argon2::PasswordVerifier::verify_password(
                &argon2::Argon2::default(),
                password,
                &hash,
            ).ok(),
    ).is_some()
}

/// `argon2::Argon2::hash_password` with the default parameters and the salt that
/// `SaltString::encode_b64` makes of the given bytes. It takes passwords of less than four
/// gigabytes, and refuses others as invalid. The hash that comes out is one of the variant Argon2id
/// and is accepted with the password it was made of.
#[verifier::external_body]
fn argon2_encode(password: &[u8], salt: &[u8]) -> (r: Result<String, String>)
    requires
        salt@.len() == 16,
    ensures
        r is Ok <==> password@.len() <= 0xffff_ffff,
        r matches Ok(encoded) ==> encoded@ == argon2_hash(password@, salt@) && argon2_accepts(
            encoded@,
            password@,
        ) && has_prefix(encoded@, "$argon2id$"@),
        r matches Err(e) ==> e@ == "invalid password"@,
{
    argon2::password_hash::SaltString::encode_b64(salt).and_then(
        |salt|
            argon2::PasswordHasher::hash_password(
                &argon2::Argon2::default(),
                password,
                &salt,
            ).map(|hash| hash.to_string()),
    ).map_err(|error| error.to_string())
}

/// The digest under which a token is stored.
pub open spec fn token_digest(token: Seq<char>) -> Seq<char> {
    hex_text(blake3_digest(encode_utf8(token)))
}

/// The text of a secret, given its bytes.
pub fn secret_of(bytes: &[u8]) -> (r: String)
    ensures
        r@ == url_base64(bytes@),
{
    encode_url_base64(bytes)
}

/// A new secret of so many random bytes, as URL-safe text.
pub fn random_secret(bytes: usize) -> (r: String)
    ensures
        exists|data: Seq<u8>| data.len() == bytes && r@ == #[trigger] url_base64(data),
{
    let data = random_bytes(bytes);
    secret_of(data.as_slice())
}

/// The digest of a token.
pub fn hash_token(token: &str) -> (r: String)
    ensures
        r@ == token_digest(token@),
        r@.len() == 64,
{
    blake3_hex(token.as_bytes())
}

/// Whether a password fits an encoded hash.
pub fn verify_password(encoded: &str, candidate: &str) -> (r: bool)
    ensures
        r == argon2_accepts(encoded@, encode_utf8(candidate@)),
        r ==> argon2_text(encoded@),
{
    argon2_verify(encoded, candidate.as_bytes())
}

/// Whether a password can be hashed: it takes less than four gigabytes.
pub open spec fn hashable(password: Seq<char>) -> bool {
    encode_utf8(password).len() <= 0xffff_ffff
}

/// Whether a text is the hash of a password, under some salt of 16 bytes.
pub open spec fn hash_of(encoded: Seq<char>, password: Seq<char>) -> bool {
    &&& has_prefix(encoded, "$argon2id$"@)
    &&& argon2_accepts(encoded, encode_utf8(password))
    &&& exists|salt: Seq<u8>|
        salt.len() == 16 && encoded == #[trigger] argon2_hash(encode_utf8(password), salt)
}

/// The encoded hash of a password under a salt of sixteen bytes.
pub fn hash_with_salt(password: &str, salt: &[u8]) -> (r: Result<String, AppError>)
    requires
        salt@.len() == 16,
    ensures
        r is Ok <==> hashable(password@),
        r matches Ok(encoded) ==> encoded@ == argon2_hash(encode_utf8(password@), salt@)
            && argon2_accepts(encoded@, encode_utf8(password@)) && has_prefix(
            encoded@,
            "$argon2id$"@,
        ),
        r matches Err(e) ==> crate::error::fault(e, "invalid password"@),
{
    match argon2_encode(password.as_bytes(), salt) {
        Ok(encoded) => Ok(encoded),
        Err(e) => Err(AppError::Internal(e)),
    }
}

/// The encoded hash of a password under a new random salt.
pub fn hash_password(password: &str) -> (r: Result<String, AppError>)
    ensures
        r is Ok <==> hashable(password@),
        r matches Ok(encoded) ==> hash_of(encoded@, password@),
        r matches Err(e) ==> crate::error::fault(e, "invalid password"@),
{
    let salt = random_bytes(16);
    hash_with_salt(password, salt.as_slice())
}

/// Whether a text consists of lower-case hexadecimal digits.
pub open spec fn lower_hex(s: Seq<char>) -> bool {
    forall|i: int| 0 <= i < s.len() ==> '0' <= #[trigger] s[i] <= '9' || 'a' <= s[i] <= 'f'
}

/// A hexadecimal text has lower-case digits alone.
pub proof fn lemma_hex_text(bytes: Seq<u8>)
    ensures
        lower_hex(hex_text(bytes)),
{
}

/// The alphabet tells the sixty-four digits apart.
proof fn lemma_alphabet(plus: char, slash: char, d: int, e: int)
    requires
        (plus == '-' && slash == '_') || (plus == '+' && slash == '/'),
        0 <= d < 64,
        0 <= e < 64,
        sextet_char(d, plus, slash) == sextet_char(e, plus, slash),
    ensures
        d == e,
{
}

/// Six bits make a number below sixty-four.
pub proof fn lemma_sextet(bytes: Seq<u8>, i: int)
    requires
        0 <= i < (4 * bytes.len() + 2) / 3,
    ensures
        0 <= sextet(bytes, i) < 64,
{
    let k = 3 * (i / 4);
    let a = bytes[k] as int;
    let b = if k + 1 < bytes.len() { bytes[k + 1] as int } else { 0 };
    let c = if k + 2 < bytes.len() { bytes[k + 2] as int } else { 0 };
    assert(0 <= a < 256 && 0 <= b < 256 && 0 <= c < 256);
}

/// The characters of a base64 text determine its bytes.
proof fn lemma_base64_chars(a: Seq<u8>, b: Seq<u8>, plus: char, slash: char)
    requires
        (plus == '-' && slash == '_') || (plus == '+' && slash == '/'),
        base64_chars(a, plus, slash) == base64_chars(b, plus, slash),
    ensures
        a == b,
{
    let (x, y) = (base64_chars(a, plus, slash), base64_chars(b, plus, slash));
    assert(x.len() == y.len());
    assert(a.len() == b.len());
    assert forall|i: int| 0 <= i < a.len() implies a[i] == b[i] by {
        let p = 4 * (i / 3) + i % 3;
        assert(p / 4 == i / 3);
        assert(p % 4 == i % 3);
        assert((p + 1) / 4 == i / 3);
        assert((p + 1) % 4 == i % 3 + 1);
        assert(x[p] == y[p]);
        assert(x[p + 1] == y[p + 1]);
        lemma_sextet(a, p);
        lemma_sextet(b, p);
        lemma_sextet(a, p + 1);
        lemma_sextet(b, p + 1);
        lemma_alphabet(plus, slash, sextet(a, p), sextet(b, p));
        lemma_alphabet(plus, slash, sextet(a, p + 1), sextet(b, p + 1));
    }
    assert(a =~= b);
}

/// The text of a secret determines its bytes: two secrets with one text are one.
pub proof fn law_secret_text_is_injective(a: Seq<u8>, b: Seq<u8>)
    requires
        url_base64(a) == url_base64(b),
    ensures
        a == b,
{
    lemma_base64_chars(a, b, '-', '_');
}

/// A padded base64 text determines its bytes.
pub proof fn law_standard_base64_is_injective(a: Seq<u8>, b: Seq<u8>)
    requires
        standard_base64(a) == standard_base64(b),
    ensures
        a == b,
{
    let (x, y) = (base64_chars(a, '+', '/'), base64_chars(b, '+', '/'));
    let (s, t) = (standard_base64(a), standard_base64(b));
    if x.len() < y.len() {
        let n = x.len() as int;
        lemma_sextet(b, n);
        assert(t[n] == y[n]);
        assert(s[n] == '=');
    }
    if y.len() < x.len() {
        let n = y.len() as int;
        lemma_sextet(a, n);
        assert(s[n] == x[n]);
        assert(t[n] == '=');
    }
    assert(s.take(x.len() as int) =~= x);
    assert(t.take(y.len() as int) =~= y);
    lemma_base64_chars(a, b, '+', '/');
}

} // verus!
