//! What travels on a carrier: frames that belong to one logical stream, and the records that
//! separate them on a byte stream.
use vstd::prelude::*;

verus! {

/// The mark of bytes in transit.
pub const DATA_FRAME_BYTES: u8 = 0;

/// The mark of the end of a direction.
pub const DATA_FRAME_EOF: u8 = 1;

/// A frame that carries bytes of a stream.
pub const CARRIER_FRAME_DATA: u8 = DATA_FRAME_BYTES;

/// A frame that ends one direction of a stream.
pub const CARRIER_FRAME_FIN: u8 = DATA_FRAME_EOF;

/// A frame that aborts a stream.
pub const CARRIER_FRAME_RESET: u8 = 2;

/// A frame that carries one datagram.
pub const CARRIER_FRAME_DATAGRAM: u8 = 3;

/// The largest payload of a UDP datagram.
pub const MAX_UDP_DATAGRAM: usize = 65507;

/// A record that holds a control message.
pub const RECORD_CONTROL: u8 = 0;

/// A record that holds a carrier frame.
pub const RECORD_BINARY: u8 = 1;

/// The longest payload of a record that a reader takes: sixteen mebibytes.
pub const MAX_RECORD_SIZE: usize = 16777216;

/// How many values a run of octets can take.
pub open spec fn radix(width: nat) -> nat
    decreases width,
{
    if width == 0 {
        1
    } else {
        256 * radix((width - 1) as nat)
    }
}

/// The last `width` octets of a number, the most significant first.
pub open spec fn be_bytes(n: nat, width: nat) -> Seq<u8>
    decreases width,
{
    if width == 0 {
        Seq::empty()
    } else {
        be_bytes(n / 256, (width - 1) as nat).push((n % 256) as u8)
    }
}

/// The number that octets denote, the most significant first.
pub open spec fn be_value(s: Seq<u8>) -> nat
    decreases s.len(),
{
    if s.len() == 0 {
        0
    } else {
        256 * be_value(s.drop_last()) + s.last() as nat
    }
}

/// Octets denote a number below their radix, and are the octets of that number.
pub proof fn lemma_be_value(s: Seq<u8>)
    ensures
        be_value(s) < radix(s.len()),
        be_bytes(be_value(s), s.len()) == s,
    decreases s.len(),
{
    if s.len() > 0 {
        lemma_be_value(s.drop_last());
        assert(be_value(s) / 256 == be_value(s.drop_last()));
        assert(be_bytes(be_value(s), s.len()) =~= s);
    } else {
        assert(be_bytes(0, 0) =~= s);
    }
}

/// The octets of a number below their radix denote it.
pub proof fn lemma_be_bytes(n: nat, width: nat)
    ensures
        be_bytes(n, width).len() == width,
        n < radix(width) ==> be_value(be_bytes(n, width)) == n,
    decreases width,
{
    if width > 0 {
        lemma_be_bytes(n / 256, (width - 1) as nat);
        let s = be_bytes(n, width);
        assert(s.drop_last() =~= be_bytes(n / 256, (width - 1) as nat));
        assert(n < radix(width) ==> n / 256 < radix((width - 1) as nat));
    }
}

/// The radix of each width in use.
pub proof fn lemma_radix()
    ensures
        radix(4) == 0x1_0000_0000,
        radix(16) == u128::MAX + 1,
        forall|w: nat| #![trigger radix(w)] w <= 15 ==> 256 * radix(w) <= radix(16),
{
    reveal_with_fuel(radix, 17);
    assert forall|w: nat| #![trigger radix(w)] w <= 15 implies 256 * radix(w) <= radix(16) by {
        lemma_radix_grows(w, 15);
    }
}

proof fn lemma_radix_grows(a: nat, b: nat)
    requires
        a <= b,
    ensures
        1 <= radix(a) <= radix(b),
    decreases b,
{
    if a < b {
        lemma_radix_grows(a, (b - 1) as nat);
    } else if a > 0 {
        lemma_radix_grows((a - 1) as nat, (b - 1) as nat);
    }
}

/// Writes the octets of a number.
fn write_be(n: u128, width: usize) -> (r: Vec<u8>)
    ensures
        r@ == be_bytes(n as nat, width as nat),
    decreases width,
{
    if width == 0 {
        let r: Vec<u8> = Vec::new();
        assert(r@ =~= be_bytes(n as nat, 0));
        r
    } else {
        let mut r = write_be(n / 256, width - 1);
        r.push((n % 256) as u8);
        r
    }
}

/// Reads up to sixteen octets as a number.
pub(crate) fn read_be(s: &[u8], from: usize, to: usize) -> (r: u128)
    requires
        from <= to <= s@.len(),
        to - from <= 16,
    ensures
        r == be_value(s@.subrange(from as int, to as int)),
{
    let mut value: u128 = 0;
    let mut i: usize = from;
    while i < to
        invariant
            from <= i <= to <= s@.len(),
            to - from <= 16,
            value == be_value(s@.subrange(from as int, i as int)),
        decreases to - i,
    {
        let ghost head = s@.subrange(from as int, i as int);
        assert(s@.subrange(from as int, i + 1).drop_last() =~= head);
        proof {
            lemma_be_value(head);
            lemma_radix();
            lemma_radix_grows(head.len(), 15);
        }
        value = value * 256 + s[i] as u128;
        i += 1;
    }
    value
}

/// The bytes of a frame: its kind, the sixteen octets of its stream, its payload.
pub open spec fn frame_bytes(kind: u8, id: u128, payload: Seq<u8>) -> Seq<u8> {
    seq![kind] + be_bytes(id as nat, 16) + payload
}

/// What a frame holds, where it is long enough to hold a kind and a stream.
pub open spec fn frame_value(frame: Seq<u8>) -> Option<(u8, u128, Seq<u8>)> {
    if frame.len() >= 17 {
        Some((frame[0], be_value(frame.subrange(1, 17)) as u128, frame.skip(17)))
    } else {
        None
    }
}

/// Builds a frame.
pub fn encode_carrier_frame(kind: u8, id: u128, payload: &[u8]) -> (r: Vec<u8>)
    ensures
        r@ == frame_bytes(kind, id, payload@),
{
    let mut out: Vec<u8> = Vec::new();
    out.push(kind);
    let mut octets = write_be(id, 16);
    out.append(&mut octets);
    out.extend_from_slice(payload);
    assert(out@ =~= frame_bytes(kind, id, payload@));
    out
}

/// Takes a frame apart.
pub fn decode_carrier_frame(frame: &[u8]) -> (r: Option<(u8, u128, Vec<u8>)>)
    ensures
        r is Some <==> frame_value(frame@) is Some,
        r matches Some((kind, id, payload)) ==> frame_value(frame@) == Some((kind, id, payload@)),
{
    let n: usize = frame.len();
    if n < 17 {
        return None;
    }
    proof {
        lemma_be_value(frame@.subrange(1, 17));
        lemma_radix();
    }
    let id: u128 = read_be(frame, 1, 17);
    let payload = sub_bytes(frame, 17, n);
    assert(payload@ =~= frame@.skip(17));
    Some((frame[0], id, payload))
}

/// A run of bytes as a list of its own.
pub(crate) fn sub_bytes(s: &[u8], from: usize, to: usize) -> (r: Vec<u8>)
    requires
        from <= to <= s@.len(),
    ensures
        r@ == s@.subrange(from as int, to as int),
{
    let mut out: Vec<u8> = Vec::new();
    let mut i: usize = from;
    while i < to
        invariant
            from <= i <= to <= s@.len(),
            out@ == s@.subrange(from as int, i as int),
        decreases to - i,
    {
        out.push(s[i]);
        assert(out@ =~= s@.subrange(from as int, i + 1));
        i += 1;
    }
    out
}

/// A frame that is taken apart gives back what it was built from, and what was taken apart
/// builds the same frame again.
pub proof fn law_frame_round_trip(kind: u8, id: u128, payload: Seq<u8>, frame: Seq<u8>)
    ensures
        frame_value(frame_bytes(kind, id, payload)) == Some((kind, id, payload)),
        frame_value(frame) matches Some((k, i, p)) ==> frame_bytes(k, i, p) == frame,
        frame_bytes(kind, id, payload).len() == 17 + payload.len(),
{
    lemma_radix();
    lemma_be_bytes(id as nat, 16);
    let f = frame_bytes(kind, id, payload);
    assert(f.subrange(1, 17) =~= be_bytes(id as nat, 16));
    assert(f.skip(17) =~= payload);
    if frame.len() >= 17 {
        lemma_be_value(frame.subrange(1, 17));
        assert(frame_bytes(
            frame[0],
            be_value(frame.subrange(1, 17)) as u128,
            frame.skip(17),
        ) =~= frame);
    }
}

/// The bytes of a record: its kind, the length of its payload in four octets, its payload.
pub open spec fn record_bytes(kind: u8, payload: Seq<u8>) -> Seq<u8> {
    seq![kind] + be_bytes(payload.len() % 0x1_0000_0000, 4) + payload
}

/// What the bytes at the front of a stream are.
#[derive(Debug, Clone, PartialEq, Eq)]
pub enum RecordRead {
    /// The record is not complete.
    NeedMore,
    /// The record announces more than a reader takes.
    TooLarge,
    /// A record, and how many bytes of the stream it takes up.
    Record { kind: u8, payload: Vec<u8>, used: usize },
}

/// The length that the header of a record announces.
pub open spec fn announced(s: Seq<u8>) -> int {
    be_value(s.subrange(1, 5)) as int
}

/// Whether a stream starts with a complete record of a length that a reader takes.
pub open spec fn record_ready(s: Seq<u8>) -> bool {
    s.len() >= 5 && announced(s) <= MAX_RECORD_SIZE && s.len() >= 5 + announced(s)
}

/// Builds a record.
pub fn encode_record(kind: u8, payload: &[u8]) -> (r: Vec<u8>)
    ensures
        r@ == record_bytes(kind, payload@),
{
    let mut out: Vec<u8> = Vec::new();
    out.push(kind);
    let mut octets = write_be(payload.len() as u128 % 0x1_0000_0000, 4);
    out.append(&mut octets);
    out.extend_from_slice(payload);
    assert(out@ =~= record_bytes(kind, payload@));
    out
}

/// Reads the record at the front of a stream.
pub fn read_record(s: &[u8]) -> (r: RecordRead)
    ensures
        r is TooLarge <==> s@.len() >= 5 && announced(s@) > MAX_RECORD_SIZE,
        r is Record <==> record_ready(s@),
        r matches RecordRead::Record { kind, payload, used } ==> kind == s@[0] && payload@
            == s@.subrange(5, 5 + announced(s@)) && used == 5 + announced(s@),
        record_read(r, s@),
{
    let n: usize = s.len();
    if n < 5 {
        return RecordRead::NeedMore;
    }
    let length: u128 = read_be(s, 1, 5);
    if length > MAX_RECORD_SIZE as u128 {
        return RecordRead::TooLarge;
    }
    let size: usize = length as usize;
    if n - 5 < size {
        return RecordRead::NeedMore;
    }
    RecordRead::Record { kind: s[0], payload: sub_bytes(s, 5, 5 + size), used: 5 + size }
}

/// The records that stand complete at the front of a stream, in order, up to the first that is
/// incomplete or too large.
pub open spec fn records_of(s: Seq<u8>) -> Seq<(u8, Seq<u8>)>
    decreases s.len(),
{
    if record_ready(s) {
        seq![(s[0], s.subrange(5, 5 + announced(s)))] + records_of(s.skip(5 + announced(s)))
    } else {
        Seq::empty()
    }
}

/// The stream on which records are written one after the other.
pub open spec fn stream_of(records: Seq<(u8, Seq<u8>)>) -> Seq<u8>
    decreases records.len(),
{
    if records.len() == 0 {
        Seq::empty()
    } else {
        record_bytes(records[0].0, records[0].1) + stream_of(records.skip(1))
    }
}

/// A record no longer than a reader takes is read back from the front of any stream that it was
/// written to.
pub proof fn law_record_round_trip(kind: u8, payload: Seq<u8>, rest: Seq<u8>)
    requires
        payload.len() <= MAX_RECORD_SIZE,
    ensures
        ({
            let s = record_bytes(kind, payload) + rest;
            &&& record_ready(s)
            &&& s[0] == kind
            &&& announced(s) == payload.len()
            &&& s.subrange(5, 5 + announced(s)) == payload
            &&& s.skip(5 + announced(s)) == rest
        }),
{
    lemma_radix();
    lemma_be_bytes(payload.len(), 4);
    let s = record_bytes(kind, payload) + rest;
    assert(s.subrange(1, 5) =~= be_bytes(payload.len(), 4));
    assert(s.subrange(5, 5 + payload.len() as int) =~= payload);
    assert(s.skip(5 + payload.len() as int) =~= rest);
}

/// Records written one after the other are read back one after the other.
pub proof fn law_record_stream(records: Seq<(u8, Seq<u8>)>)
    requires
        forall|i: int| 0 <= i < records.len() ==> (#[trigger] records[i]).1.len() <= MAX_RECORD_SIZE,
    ensures
        records_of(stream_of(records)) == records,
    decreases records.len(),
{
    if records.len() > 0 {
        let rest = records.skip(1);
        assert forall|i: int| 0 <= i < rest.len() implies (#[trigger] rest[i]).1.len()
            <= MAX_RECORD_SIZE by {
            assert(rest[i] == records[i + 1]);
        }
        law_record_stream(rest);
        law_record_round_trip(records[0].0, records[0].1, stream_of(rest));
        assert(records_of(stream_of(records)) =~= seq![records[0]] + rest);
        assert(seq![records[0]] + rest =~= records);
    } else {
        assert(records_of(stream_of(records)) =~= records);
    }
}

/// Whether a result is the record at the front of a run of bytes.
pub open spec fn record_read(r: RecordRead, s: Seq<u8>) -> bool {
    if s.len() >= 5 && announced(s) > MAX_RECORD_SIZE {
        r is TooLarge
    } else if record_ready(s) {
        r matches RecordRead::Record { kind, payload, used } && kind == s[0] && used == 5
            + announced(s) && payload@ == s.subrange(5, used as int)
    } else {
        r is NeedMore
    }
}

/// A record that was written is read back as it is, whatever follows it; before all of it is there, more
/// is asked for, and one that is too large is refused by its header.
pub proof fn law_records_are_read_back(
    r: RecordRead,
    kind: u8,
    payload: Seq<u8>,
    rest: Seq<u8>,
    n: int,
    early: RecordRead,
)
    requires
        payload.len() <= 16 * 1024 * 1024,
        record_read(r, record_bytes(kind, payload) + rest),
        0 <= n < 5 + payload.len(),
        record_read(early, record_bytes(kind, payload).take(n)),
    ensures
        r matches RecordRead::Record { kind: k, payload: p, used } && k == kind && p@ == payload
            && used == 5 + payload.len(),
        early is NeedMore,
{
    law_record_round_trip(kind, payload, rest);
    law_record_round_trip(kind, payload, Seq::empty());
    let whole = record_bytes(kind, payload);
    let part = whole.take(n);
    assert(whole + Seq::<u8>::empty() =~= whole);
    lemma_be_bytes(payload.len(), 4);
    if n >= 5 {
        assert(part.subrange(1, 5) =~= whole.subrange(1, 5));
    }
}

/// A record that announces more than sixteen mebibytes is refused as soon as its header is there; a
/// shorter one never is.
pub proof fn law_large_records_are_refused(r: RecordRead, s: Seq<u8>)
    requires
        record_read(r, s),
    ensures
        r is TooLarge <==> s.len() >= 5 && announced(s) > 16_777_216,
        s.len() < 5 ==> r is NeedMore,
{
}

} // verus!
