//! Fixed-layout binary records: a single-byte kind, the payload length as an
//! explicit 32-bit little-endian prefix, then the payload.

use vstd::prelude::*;

use vstd::arithmetic::div_mod::lemma_div_denominator;
use vstd::arithmetic::div_mod::lemma_fundamental_div_mod;

use crate::framing::concat_chunks;
use crate::framing::push_bytes;
use crate::traits::PacketParser;

verus! {

/// One binary record: a single-byte enumeration travelling as its raw
/// value, and a variable-length payload.  The payload must fit the 32-bit
/// length prefix, which the type keeps as its invariant.
#[derive(Debug, PartialEq, Eq)]
pub struct Record {
    kind: u8,
    payload: Vec<u8>,
}

/// The mathematical form of one record.
pub struct RecordView {
    /// The single-byte kind.
    pub kind: u8,
    /// The payload bytes.
    pub payload: Seq<u8>,
}

impl View for Record {
    type V = RecordView;

    closed spec fn view(&self) -> RecordView {
        RecordView { kind: self.kind, payload: self.payload@ }
    }
}

impl Record {
    #[verifier::type_invariant]
    spec fn payload_fits(self) -> bool {
        self.payload@.len() <= 0xffff_ffff
    }

    /// A record of the given kind and payload.
    pub fn new(kind: u8, payload: Vec<u8>) -> (r: Record)
        requires
            payload@.len() <= 0xffff_ffff,
        ensures
            r@.kind == kind,
            r@.payload == payload@,
    {
        Record { kind, payload }
    }

    /// The single-byte kind.
    pub fn kind(&self) -> (r: u8)
        ensures
            r == self@.kind,
    {
        self.kind
    }

    /// The payload bytes.
    pub fn payload(&self) -> (r: &Vec<u8>)
        ensures
            r@ == self@.payload,
    {
        &self.payload
    }
}

/// The four little-endian bytes of a 32-bit length.
pub open spec fn le32(n: int) -> Seq<u8> {
    seq![
        (n % 256) as u8,
        ((n / 256) % 256) as u8,
        ((n / 65536) % 256) as u8,
        ((n / 16777216) % 256) as u8,
    ]
}

/// The length a four-byte little-endian prefix carries.
pub open spec fn le32_value(b0: u8, b1: u8, b2: u8, b3: u8) -> int {
    b0 + 256 * b1 + 65536 * b2 + 16777216 * b3
}

/// Reading back the four little-endian bytes of a length gives the length.
pub proof fn lemma_le32_round_trip(n: int)
    requires
        0 <= n <= 0xffff_ffff,
    ensures
        le32_value(
            (n % 256) as u8,
            ((n / 256) % 256) as u8,
            ((n / 65536) % 256) as u8,
            ((n / 16777216) % 256) as u8,
        ) == n,
{
    let a1 = n / 256;
    let a2 = n / 65536;
    let a3 = n / 16777216;
    lemma_fundamental_div_mod(n, 256);
    lemma_fundamental_div_mod(a1, 256);
    lemma_fundamental_div_mod(a2, 256);
    lemma_div_denominator(n, 256, 256);
    lemma_div_denominator(n, 65536, 256);
    assert(a1 / 256 == a2);
    assert(a2 / 256 == a3);
    assert(a3 < 256);
    assert(a3 % 256 == a3);
}

/// The wire bytes of one record: the kind byte, the payload length as a
/// 32-bit little-endian prefix, then the payload.
pub open spec fn record_encoding(v: RecordView) -> Seq<u8> {
    seq![v.kind] + le32(v.payload.len() as int) + v.payload
}

/// The record, if any, that one decode step over the accumulated bytes `s`
/// produces: the header must be complete and announce a payload that has
/// fully arrived.
pub open spec fn record_extract_value(s: Seq<u8>) -> Option<RecordView> {
    if s.len() < 5 {
        None
    } else {
        let n = le32_value(s[1], s[2], s[3], s[4]);
        if s.len() < 5 + n {
            None
        } else {
            Some(RecordView { kind: s[0], payload: s.subrange(5, 5 + n) })
        }
    }
}

/// The bytes that one decode step over the accumulated bytes `s` retains.
pub open spec fn record_extract_rest(s: Seq<u8>) -> Seq<u8> {
    if s.len() < 5 {
        s
    } else {
        let n = le32_value(s[1], s[2], s[3], s[4]);
        if s.len() < 5 + n {
            s
        } else {
            s.skip(5 + n)
        }
    }
}

/// Decoding one encoded record yields the record back, with nothing
/// retained: the record codec is symmetric on every record that fits its
/// length prefix.
pub proof fn lemma_record_round_trip(v: RecordView)
    requires
        v.payload.len() <= 0xffff_ffff,
    ensures
        record_extract_value(record_encoding(v)) == Some(v),
        record_extract_rest(record_encoding(v)) == Seq::<u8>::empty(),
{
    let s = record_encoding(v);
    let n = v.payload.len() as int;
    assert(s.len() == 5 + n);
    assert(s[0] == v.kind);
    assert(s[1] == (n % 256) as u8);
    assert(s[2] == ((n / 256) % 256) as u8);
    assert(s[3] == ((n / 65536) % 256) as u8);
    assert(s[4] == ((n / 16777216) % 256) as u8);
    lemma_le32_round_trip(n);
    assert(le32_value(s[1], s[2], s[3], s[4]) == n);
    assert(s.subrange(5, 5 + n) =~= v.payload);
    assert(s.skip(5 + n) =~= Seq::<u8>::empty());
}

/// Every record that a whole byte stream carries, in order, leaving an
/// incomplete tail out.
pub open spec fn record_values(s: Seq<u8>) -> Seq<RecordView>
    decreases s.len(),
{
    if s.len() < 5 {
        Seq::empty()
    } else {
        let n = le32_value(s[1], s[2], s[3], s[4]);
        if s.len() < 5 + n {
            Seq::empty()
        } else {
            seq![RecordView { kind: s[0], payload: s.subrange(5, 5 + n) }] + record_values(
                s.skip(5 + n),
            )
        }
    }
}

/// How one decode step behaves when more bytes follow: a produced record
/// stays produced, with the new bytes appended to the retained ones, and a
/// step that produced nothing retained everything.
pub proof fn lemma_record_extract_append(s: Seq<u8>, t: Seq<u8>)
    ensures
        match record_extract_value(s) {
            Some(v) => record_extract_value(s + t) == Some(v) && record_extract_rest(s + t)
                == record_extract_rest(s) + t,
            None => record_extract_rest(s) == s,
        },
{
    match record_extract_value(s) {
        Some(v) => {
            assert((s + t)[0] == s[0]);
            assert((s + t)[1] == s[1]);
            assert((s + t)[2] == s[2]);
            assert((s + t)[3] == s[3]);
            assert((s + t)[4] == s[4]);
            let n = le32_value(s[1], s[2], s[3], s[4]);
            assert((s + t).subrange(5, 5 + n) =~= s.subrange(5, 5 + n));
            assert((s + t).skip(5 + n) =~= s.skip(5 + n) + t);
        },
        None => {},
    }
}

/// How the records of a whole stream split at one decode step over its front
/// part: the step's record, if any, heads the list, and the rest of the list
/// is carried by the retained bytes followed by the back part.
pub proof fn lemma_record_values_append(s: Seq<u8>, t: Seq<u8>)
    ensures
        record_values(s + t) == (match record_extract_value(s) {
            Some(v) => seq![v] + record_values(record_extract_rest(s) + t),
            None => record_values(record_extract_rest(s) + t),
        }),
{
    lemma_record_extract_append(s, t);
    match record_extract_value(s) {
        Some(v) => {
            let n = le32_value(s[1], s[2], s[3], s[4]);
            assert(record_values(s + t) == seq![
                RecordView { kind: (s + t)[0], payload: (s + t).subrange(5, 5 + n) },
            ] + record_values((s + t).skip(5 + n)));
        },
        None => {
            assert(record_extract_rest(s) + t =~= s + t);
        },
    }
}

/// The records an incremental decoder yields: starting from buffered bytes
/// `b`, one decode step as each chunk arrives, then step after step on what
/// remains once the stream ends.
pub open spec fn chunked_record_values(b: Seq<u8>, chunks: Seq<Seq<u8>>) -> Seq<RecordView>
    decreases chunks.len(),
{
    if chunks.len() == 0 {
        record_values(b)
    } else {
        let s = b + chunks[0];
        (match record_extract_value(s) {
            Some(v) => seq![v],
            None => Seq::empty(),
        }) + chunked_record_values(record_extract_rest(s), chunks.skip(1))
    }
}

/// Partial-frame idempotence of the record codec: however a byte stream is
/// split into chunks, feeding it through the decoder incrementally yields
/// the same records, in the same order, as the whole stream carries at once.
pub proof fn lemma_record_split_invariance(b: Seq<u8>, chunks: Seq<Seq<u8>>)
    ensures
        chunked_record_values(b, chunks) == record_values(b + concat_chunks(chunks)),
    decreases chunks.len(),
{
    if chunks.len() == 0 {
        assert(b + concat_chunks(chunks) =~= b);
    } else {
        let s = b + chunks[0];
        let rest = concat_chunks(chunks.skip(1));
        lemma_record_values_append(s, rest);
        lemma_record_split_invariance(record_extract_rest(s), chunks.skip(1));
        assert(b + concat_chunks(chunks) =~= s + rest);
    }
}

/// The record codec.  Unconsumed bytes, a partial header or a partial
/// payload, stay inside between calls.
pub struct RecordParser {
    buf: Vec<u8>,
}

impl PacketParser<Record> for RecordParser {
    closed spec fn buffered(&self) -> Seq<u8> {
        self.buf@
    }

    open spec fn encoding(v: RecordView) -> Seq<u8> {
        record_encoding(v)
    }

    open spec fn extract_rest(s: Seq<u8>) -> Seq<u8> {
        record_extract_rest(s)
    }

    open spec fn extract_value(s: Seq<u8>) -> Option<RecordView> {
        record_extract_value(s)
    }

    fn new() -> (r: Self) {
        RecordParser { buf: Vec::new() }
    }

    fn clone_inner(&self) -> (r: Self) {
        RecordParser { buf: vstd::slice::slice_to_vec(self.buf.as_slice()) }
    }

    fn parse_from_bytes(&mut self, data: &[u8]) -> (r: Option<Record>) {
        push_bytes(&mut self.buf, data);
        if self.buf.len() < 5 {
            return None;
        }
        let b1 = self.buf[1];
        let b2 = self.buf[2];
        let b3 = self.buf[3];
        let b4 = self.buf[4];
        let n: u32 = b1 as u32 + 256 * (b2 as u32) + 65536 * (b3 as u32) + 16777216 * (
        b4 as u32);
        let available = self.buf.len() - 5;
        if available < n as usize {
            return None;
        }
        let total = 5 + n as usize;
        let kind = self.buf[0];
        let payload = vstd::slice::slice_to_vec(vstd::slice::slice_subrange(
            self.buf.as_slice(),
            5,
            total,
        ));
        let tail = self.buf.split_off(total);
        self.buf = tail;
        Some(Record::new(kind, payload))
    }

    fn parse_to_bytes(&mut self, data: &Record) -> (r: Vec<u8>) {
        proof {
            use_type_invariant(data);
        }
        let mut out: Vec<u8> = Vec::new();
        out.push(data.kind);
        let n: u32 = data.payload.len() as u32;
        out.push((n % 256) as u8);
        out.push(((n / 256) % 256) as u8);
        out.push(((n / 65536) % 256) as u8);
        out.push(((n / 16777216) % 256) as u8);
        push_bytes(&mut out, data.payload.as_slice());
        proof {
            assert(out@ =~= record_encoding(data@));
        }
        out
    }
}

} // verus!
