//! The nesting of DER, and where a certificate holds its public key.
use crate::wire::{be_bytes, be_value, lemma_be_bytes, radix, read_be, sub_bytes};
use vstd::prelude::*;

verus! {

/// The tag of a sequence.
pub const SEQUENCE: u8 = 0x30;

/// The tag of an integer.
pub const INTEGER: u8 = 0x02;

/// The tag in front of the version of a certificate.
pub const VERSION: u8 = 0xa0;

/// How many octets tell the length of an element, and the length that they tell. It takes the
/// shortest form there is: one octet below 128, else the number of octets that follow, up to four,
/// the first of which is not zero.
pub open spec fn length_value(s: Seq<u8>) -> Option<(nat, nat)> {
    if s.len() == 0 {
        None
    } else if s[0] < 0x80 {
        Some((1, s[0] as nat))
    } else {
        let n = s[0] - 0x80;
        if 1 <= n <= 4 && n < s.len() && s[1] != 0 && be_value(s.subrange(1, n + 1)) >= 0x80 {
            Some(((n + 1) as nat, be_value(s.subrange(1, n + 1))))
        } else {
            None
        }
    }
}

/// An element: its tag, what it holds, its own octets, and what follows it.
#[verifier::ext_equal]
pub struct Element {
    pub tag: u8,
    pub content: Seq<u8>,
    pub whole: Seq<u8>,
    pub rest: Seq<u8>,
}

/// The element at the front of a run of octets. Tags take one octet.
pub open spec fn element(s: Seq<u8>) -> Option<Element> {
    if s.len() == 0 || s[0] % 32 == 31 {
        None
    } else {
        match length_value(s.skip(1)) {
            Some((k, n)) => if 1 + k + n <= s.len() {
                Some(
                    Element {
                        tag: s[0],
                        content: s.subrange(1 + k as int, (1 + k + n) as int),
                        whole: s.take((1 + k + n) as int),
                        rest: s.skip((1 + k + n) as int),
                    },
                )
            } else {
                None
            },
            None => None,
        }
    }
}

/// What follows elements with these tags, where they stand in front.
pub open spec fn after_elements(s: Seq<u8>, tags: Seq<u8>) -> Option<Seq<u8>>
    decreases tags.len(),
{
    if tags.len() == 0 {
        Some(s)
    } else {
        match element(s) {
            Some(e) => if e.tag == tags[0] {
                after_elements(e.rest, tags.skip(1))
            } else {
                None
            },
            None => None,
        }
    }
}

/// The octets after the version, which may be left out.
pub open spec fn after_version(s: Seq<u8>) -> Seq<u8> {
    match element(s) {
        Some(e) => if e.tag == VERSION {
            e.rest
        } else {
            s
        },
        None => s,
    }
}

/// The element at the front of a run of octets, where it has a tag.
pub open spec fn held(s: Seq<u8>, tag: u8) -> Option<Element> {
    match element(s) {
        Some(e) => if e.tag == tag {
            Some(e)
        } else {
            None
        },
        None => None,
    }
}

/// What stands before the public key in a certificate, besides the version: serial number,
/// signature algorithm, issuer, validity and subject.
pub open spec fn before_key() -> Seq<u8> {
    seq![INTEGER, SEQUENCE, SEQUENCE, SEQUENCE, SEQUENCE]
}

/// The SubjectPublicKeyInfo of a certificate, header and all. The certificate is a sequence that
/// takes up all octets; its first element is the sequence that holds the key.
pub open spec fn public_key_info(der: Seq<u8>) -> Option<Seq<u8>> {
    match held(der, SEQUENCE) {
        Some(certificate) => if certificate.rest.len() == 0 {
            match held(certificate.content, SEQUENCE) {
                Some(signed) => match after_elements(after_version(signed.content), before_key()) {
                    Some(s) => match held(s, SEQUENCE) {
                        Some(key) => Some(key.whole),
                        None => None,
                    },
                    None => None,
                },
                None => None,
            }
        } else {
            None
        },
        None => None,
    }
}

/// How many octets a length from 128 on takes.
pub open spec fn length_width(n: nat) -> nat {
    if n < 0x100 {
        1
    } else if n < 0x1_0000 {
        2
    } else if n < 0x100_0000 {
        3
    } else {
        4
    }
}

/// The octets that tell a length.
pub open spec fn length_octets(n: nat) -> Seq<u8> {
    if n < 0x80 {
        seq![n as u8]
    } else {
        seq![(0x80 + length_width(n)) as u8] + be_bytes(n, length_width(n))
    }
}

/// The octets of an element: its tag, its length, and what it holds.
pub open spec fn element_octets(tag: u8, content: Seq<u8>) -> Seq<u8> {
    seq![tag] + length_octets(content.len()) + content
}

/// The octets of a length tell it, whatever follows.
proof fn lemma_length(n: nat, rest: Seq<u8>)
    requires
        n < 0x1_0000_0000,
    ensures
        length_value(length_octets(n) + rest) == Some((length_octets(n).len(), n)),
{
    let w = length_width(n);
    let s = length_octets(n) + rest;
    if n >= 0x80 {
        lemma_be_bytes(n, w);
        reveal_with_fuel(radix, 5);
        reveal_with_fuel(be_bytes, 5);
        assert(s.subrange(1, (w + 1) as int) =~= be_bytes(n, w));
        assert(s[1] == be_bytes(n, w)[0]);
        assert(be_bytes(n, w)[0] != 0);
    }
}

/// An element is read back as it was written, whatever follows.
proof fn lemma_element(tag: u8, content: Seq<u8>, rest: Seq<u8>)
    requires
        tag % 32 != 31,
        content.len() < 0x1_0000_0000,
    ensures
        element(element_octets(tag, content) + rest) == Some(
            Element { tag, content, whole: element_octets(tag, content), rest },
        ),
{
    let n = content.len();
    let k = length_octets(n).len();
    let s = element_octets(tag, content) + rest;
    lemma_length(n, content + rest);
    assert(s.skip(1) =~= length_octets(n) + (content + rest));
    assert(s.subrange(1 + k as int, (1 + k + n) as int) =~= content);
    assert(s.take((1 + k + n) as int) =~= element_octets(tag, content));
    assert(s.skip((1 + k + n) as int) =~= rest);
}

/// What a certificate holds besides its public key.
pub struct CertificateParts {
    pub version: Option<Seq<u8>>,
    pub serial: Seq<u8>,
    pub algorithm: Seq<u8>,
    pub issuer: Seq<u8>,
    pub validity: Seq<u8>,
    pub subject: Seq<u8>,
    pub extensions: Seq<u8>,
    pub signature: Seq<u8>,
}

/// What a certificate holds before its public key, from the subject back to the version.
pub open spec fn with_head(c: CertificateParts, rest: Seq<u8>) -> Seq<u8> {
    let s = element_octets(
        INTEGER,
        c.serial,
    ) + (element_octets(SEQUENCE, c.algorithm) + (element_octets(SEQUENCE, c.issuer) + (
    element_octets(SEQUENCE, c.validity) + (element_octets(SEQUENCE, c.subject) + rest))));
    match c.version {
        Some(version) => element_octets(VERSION, version) + s,
        None => s,
    }
}

/// The octets of a certificate on a public key.
pub open spec fn certificate_octets(c: CertificateParts, key: Seq<u8>) -> Seq<u8> {
    let signed = with_head(c, element_octets(SEQUENCE, key) + c.extensions);
    element_octets(SEQUENCE, element_octets(SEQUENCE, signed) + c.signature)
}

/// An element that was written in front is passed over, where its tag is the one that is asked for.
proof fn lemma_passed(tag: u8, content: Seq<u8>, rest: Seq<u8>, tags: Seq<u8>)
    requires
        tag % 32 != 31,
        (element_octets(tag, content) + rest).len() < 0x1_0000_0000,
        tags.len() > 0,
        tags[0] == tag,
    ensures
        after_elements(element_octets(tag, content) + rest, tags) == after_elements(
            rest,
            tags.skip(1),
        ),
        rest.len() < 0x1_0000_0000,
{
    lemma_element(tag, content, rest);
}

/// What stands before the public key is passed over.
proof fn lemma_head(c: CertificateParts, rest: Seq<u8>)
    requires
        with_head(c, rest).len() < 0x1_0000_0000,
    ensures
        after_elements(after_version(with_head(c, rest)), before_key()) == Some(rest),
{
    let e4 = element_octets(SEQUENCE, c.subject) + rest;
    let e3 = element_octets(SEQUENCE, c.validity) + e4;
    let e2 = element_octets(SEQUENCE, c.issuer) + e3;
    let e1 = element_octets(SEQUENCE, c.algorithm) + e2;
    let e0 = element_octets(INTEGER, c.serial) + e1;
    match c.version {
        Some(version) => {
            lemma_element(VERSION, version, e0);
        },
        None => {
            lemma_element(INTEGER, c.serial, e1);
        },
    }
    assert(after_version(with_head(c, rest)) == e0);
    let t0 = before_key();
    let t1 = t0.skip(1);
    let t2 = t1.skip(1);
    let t3 = t2.skip(1);
    let t4 = t3.skip(1);
    lemma_passed(INTEGER, c.serial, e1, t0);
    lemma_passed(SEQUENCE, c.algorithm, e2, t1);
    lemma_passed(SEQUENCE, c.issuer, e3, t2);
    lemma_passed(SEQUENCE, c.validity, e4, t3);
    lemma_passed(SEQUENCE, c.subject, rest, t4);
    assert(t4.skip(1).len() == 0);
}

/// The public key of a certificate is found, whatever else the certificate holds.
pub proof fn law_public_keys_are_found(c: CertificateParts, key: Seq<u8>)
    requires
        certificate_octets(c, key).len() < 0x1_0000_0000,
    ensures
        public_key_info(certificate_octets(c, key)) == Some(element_octets(SEQUENCE, key)),
{
    let after_key = element_octets(SEQUENCE, key) + c.extensions;
    let signed = with_head(c, after_key);
    let inner = element_octets(SEQUENCE, signed) + c.signature;
    lemma_element(SEQUENCE, inner, Seq::empty());
    assert(element_octets(SEQUENCE, inner) + Seq::<u8>::empty() =~= certificate_octets(c, key));
    lemma_element(SEQUENCE, signed, c.signature);
    lemma_head(c, after_key);
    lemma_element(SEQUENCE, key, c.extensions);
}

/// Where an element stands: its tag, where its content starts and where it ends.
struct Place {
    tag: u8,
    start: usize,
    end: usize,
}

/// Whether a place is that of the element at the front of a part of a run of octets.
spec fn placed(r: Option<Place>, s: Seq<u8>, from: int, to: int) -> bool {
    match element(s.subrange(from, to)) {
        Some(e) => {
            &&& r is Some
            &&& from < r->0.start <= r->0.end <= to
            &&& e.tag == r->0.tag
            &&& e.content == s.subrange(r->0.start as int, r->0.end as int)
            &&& e.whole == s.subrange(from, r->0.end as int)
            &&& e.rest == s.subrange(r->0.end as int, to)
        },
        None => r is None,
    }
}

/// Reads the element at the front of a part of a run of octets.
fn read_element(s: &[u8], from: usize, to: usize) -> (r: Option<Place>)
    requires
        from <= to <= s@.len(),
    ensures
        placed(r, s@, from as int, to as int),
{
    let ghost part = s@.subrange(from as int, to as int);
    let ghost tail = part.skip(1);
    if to - from < 2 || s[from] % 32 == 31 {
        return None;
    }
    let tag: u8 = s[from];
    let first: u8 = s[from + 1];
    assert(part[0] == tag);
    assert(tail[0] == first);
    let (k, n): (usize, u128) = if first < 0x80 {
        (1, first as u128)
    } else {
        let count: usize = (first - 0x80) as usize;
        if count == 0 || count > 4 || to - from < 2 + count {
            return None;
        }
        assert(tail[1] == s@[from + 2]);
        if s[from + 2] == 0 {
            return None;
        }
        let n = read_be(s, from + 2, from + 2 + count);
        assert(tail.subrange(1, count + 1) =~= s@.subrange(from + 2, from + 2 + count));
        if n < 0x80 {
            return None;
        }
        (count + 1, n)
    };
    assert(length_value(tail) == Some((k as nat, n as nat)));
    if n > (to - from - 1 - k) as u128 {
        return None;
    }
    let start: usize = from + 1 + k;
    let end: usize = start + n as usize;
    assert(part.subrange(1 + k as int, 1 + k + n) =~= s@.subrange(start as int, end as int));
    assert(part.take(1 + k + n) =~= s@.subrange(from as int, end as int));
    assert(part.skip(1 + k + n) =~= s@.subrange(end as int, to as int));
    Some(Place { tag, start, end })
}

/// Reads the SubjectPublicKeyInfo of a certificate.
pub fn subject_public_key_info(der: &[u8]) -> (r: Option<Vec<u8>>)
    ensures
        (match r {
            Some(info) => Some(info@),
            None => None,
        }) == public_key_info(der@),
{
    let whole: usize = der.len();
    assert(der@.subrange(0, whole as int) =~= der@);
    let certificate = match read_element(der, 0, whole) {
        Some(e) => e,
        None => {
            return None;
        },
    };
    if certificate.tag != SEQUENCE || certificate.end != whole {
        return None;
    }
    let signed = match read_element(der, certificate.start, certificate.end) {
        Some(e) => e,
        None => {
            return None;
        },
    };
    if signed.tag != SEQUENCE {
        return None;
    }
    let to: usize = signed.end;
    let from: usize = match read_element(der, signed.start, to) {
        Some(e) => if e.tag == VERSION {
            e.end
        } else {
            signed.start
        },
        None => signed.start,
    };
    let ghost inner = der@.subrange(from as int, to as int);
    assert(inner == after_version(der@.subrange(signed.start as int, to as int)));
    let tags: [u8; 5] = [INTEGER, SEQUENCE, SEQUENCE, SEQUENCE, SEQUENCE];
    assert(tags@ =~= before_key());
    let mut at: usize = from;
    let mut i: usize = 0;
    assert(tags@.skip(0) =~= tags@);
    while i < 5
        invariant
            i <= 5,
            from <= at <= to <= der@.len(),
            tags@ == before_key(),
            after_elements(inner, before_key()) == after_elements(
                der@.subrange(at as int, to as int),
                tags@.skip(i as int),
            ),
            inner == after_version(der@.subrange(signed.start as int, to as int)),
            signed.start <= to,
            public_key_info(der@) == (match after_elements(inner, before_key()) {
                Some(s) => match held(s, SEQUENCE) {
                    Some(key) => Some(key.whole),
                    None => None,
                },
                None => None,
            }),
        decreases 5 - i,
    {
        assert(tags@.skip(i as int)[0] == tags@[i as int]);
        assert(tags@.skip(i as int).skip(1) =~= tags@.skip(i + 1));
        match read_element(der, at, to) {
            Some(e) => {
                if e.tag != tags[i] {
                    return None;
                }
                at = e.end;
            },
            None => {
                return None;
            },
        }
        i += 1;
    }
    match read_element(der, at, to) {
        Some(e) => if e.tag == SEQUENCE {
            Some(sub_bytes(der, at, e.end))
        } else {
            None
        },
        None => None,
    }
}

} // verus!
