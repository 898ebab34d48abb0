//! The batch codec: a binary wire format packing many frames into one
//! contiguous buffer for bulk transfer across a process boundary.
//!
//! Per-record layout, little-endian: a 4-byte identifier, a 1-byte payload
//! length (0 to 64), a 1-byte flag set (bit 0 extended, bit 1 fd, bit 2
//! remote, bit 3 error), then the payload bytes. Decoding parses records
//! while at least a full header remains; a trailing record shorter than
//! its announced length is silently discarded, not an error.

use vstd::prelude::*;
use vstd::slice::slice_subrange;
use vstd::bytes::{
    lemma_auto_spec_u32_to_from_le_bytes, spec_u32_from_le_bytes, spec_u32_to_le_bytes,
    u32_from_le_bytes, u32_to_le_bytes,
};

use crate::frame::{Frame, FrameKind, FD_MAX_PAYLOAD};

verus! {

/// Bytes of identifier, length and flags that precede each record's
/// payload.
pub const RECORD_HEADER_LEN: usize = 6;

/// One frame as the wire format carries it: the identifier, the payload
/// bytes, and the four flag bits. Unlike `Frame` this shape carries no
/// invariant: it is exactly what a buffer may spell out.
#[derive(Debug, Clone)]
pub struct FrameRecord {
    pub id: u32,
    pub data: Vec<u8>,
    pub extended: bool,
    pub fd: bool,
    pub remote: bool,
    pub error: bool,
}

/// The mathematical model of a `FrameRecord`.
pub struct RecordV {
    pub id: u32,
    pub data: Seq<u8>,
    pub extended: bool,
    pub fd: bool,
    pub remote: bool,
    pub error: bool,
}

impl View for FrameRecord {
    type V = RecordV;

    open spec fn view(&self) -> RecordV {
        RecordV {
            id: self.id,
            data: self.data@,
            extended: self.extended,
            fd: self.fd,
            remote: self.remote,
            error: self.error,
        }
    }
}

/// The models of a record list, element for element.
pub open spec fn record_views(rs: Seq<FrameRecord>) -> Seq<RecordV> {
    rs.map_values(|r: FrameRecord| r@)
}

impl FrameRecord {
    /// The wire record of a received frame: the frame's kind becomes the
    /// remote and error flag bits, the payload travels as-is.
    pub fn from_frame(f: &Frame) -> (r: FrameRecord)
        ensures
            r@.id == f@.id,
            r@.data == f@.payload,
            r@.extended == f@.extended,
            r@.fd == f@.fd,
            r@.remote == (f@.kind is Remote),
            r@.error == (f@.kind is Error),
    {
        let data = f.payload.clone();
        proof {
            assert(data@ =~= f.payload@);
        }
        FrameRecord {
            id: f.id,
            data,
            extended: f.extended,
            fd: f.fd,
            remote: matches!(f.kind, FrameKind::Remote),
            error: matches!(f.kind, FrameKind::Error),
        }
    }
}

/// A record the wire format can carry: the 1-byte length field holds
/// payloads up to the flexible-data-rate ceiling.
pub open spec fn record_encodable(r: RecordV) -> bool {
    r.data.len() <= FD_MAX_PAYLOAD
}

/// The flag byte: bit 0 extended, bit 1 fd, bit 2 remote, bit 3 error.
pub open spec fn spec_flags_byte(extended: bool, fd: bool, remote: bool, error: bool) -> u8 {
    ((if extended {
        1u8
    } else {
        0u8
    }) + (if fd {
        2u8
    } else {
        0u8
    }) + (if remote {
        4u8
    } else {
        0u8
    }) + (if error {
        8u8
    } else {
        0u8
    })) as u8
}

/// Bit 0 of a flag byte.
pub open spec fn spec_bit0(f: u8) -> bool {
    f % 2 == 1
}

/// Bit 1 of a flag byte.
pub open spec fn spec_bit1(f: u8) -> bool {
    (f / 2) % 2 == 1
}

/// Bit 2 of a flag byte.
pub open spec fn spec_bit2(f: u8) -> bool {
    (f / 4) % 2 == 1
}

/// Bit 3 of a flag byte.
pub open spec fn spec_bit3(f: u8) -> bool {
    (f / 8) % 2 == 1
}

/// Packing four flags into a byte and reading the bits back returns the
/// flags unchanged.
pub proof fn lemma_flags_byte_bits(extended: bool, fd: bool, remote: bool, error: bool)
    ensures
        spec_bit0(spec_flags_byte(extended, fd, remote, error)) == extended,
        spec_bit1(spec_flags_byte(extended, fd, remote, error)) == fd,
        spec_bit2(spec_flags_byte(extended, fd, remote, error)) == remote,
        spec_bit3(spec_flags_byte(extended, fd, remote, error)) == error,
{
}

/// One record's encoding: little-endian identifier, payload length, flag
/// byte, payload.
pub open spec fn record_bytes(r: RecordV) -> Seq<u8> {
    spec_u32_to_le_bytes(r.id) + seq![r.data.len() as u8] + seq![
        spec_flags_byte(r.extended, r.fd, r.remote, r.error),
    ] + r.data
}

/// A record list's encoding: each record's bytes, concatenated in order.
pub open spec fn encode_spec(rs: Seq<RecordV>) -> Seq<u8>
    decreases rs.len(),
{
    if rs.len() == 0 {
        Seq::<u8>::empty()
    } else {
        record_bytes(rs[0]) + encode_spec(rs.drop_first())
    }
}

/// What a buffer decodes to: records parsed front to back while at least
/// a full header remains; a trailing record whose announced payload
/// overruns the buffer is silently discarded.
pub open spec fn decode_spec(b: Seq<u8>) -> Seq<RecordV>
    decreases b.len(),
{
    if b.len() < RECORD_HEADER_LEN {
        Seq::<RecordV>::empty()
    } else {
        let dlen = b[4] as int;
        if b.len() < RECORD_HEADER_LEN + dlen {
            Seq::<RecordV>::empty()
        } else {
            let r = RecordV {
                id: spec_u32_from_le_bytes(b.subrange(0, 4)),
                data: b.subrange(RECORD_HEADER_LEN as int, RECORD_HEADER_LEN + dlen),
                extended: spec_bit0(b[5]),
                fd: spec_bit1(b[5]),
                remote: spec_bit2(b[5]),
                error: spec_bit3(b[5]),
            };
            seq![r] + decode_spec(b.skip(RECORD_HEADER_LEN + dlen))
        }
    }
}

/// Encoding distributes over concatenation of record lists.
pub proof fn lemma_encode_concat(a: Seq<RecordV>, b: Seq<RecordV>)
    ensures
        encode_spec(a + b) == encode_spec(a) + encode_spec(b),
    decreases a.len(),
{
    if a.len() == 0 {
        assert(a + b =~= b);
        assert(encode_spec(a) + encode_spec(b) =~= encode_spec(b));
    } else {
        assert((a + b).drop_first() =~= a.drop_first() + b);
        lemma_encode_concat(a.drop_first(), b);
        assert((a + b)[0] == a[0]);
        assert(record_bytes(a[0]) + (encode_spec(a.drop_first()) + encode_spec(b)) =~= (
        record_bytes(a[0]) + encode_spec(a.drop_first())) + encode_spec(b));
    }
}

/// The flag byte of a record.
fn encode_flags(extended: bool, fd: bool, remote: bool, error: bool) -> (f: u8)
    ensures
        f == spec_flags_byte(extended, fd, remote, error),
{
    let mut f: u8 = 0;
    if extended {
        f = f + 1;
    }
    if fd {
        f = f + 2;
    }
    if remote {
        f = f + 4;
    }
    if error {
        f = f + 8;
    }
    f
}

/// Encode records for bulk transfer: each record's encoding, concatenated
/// in the order given.
pub fn encode_records(records: &Vec<FrameRecord>) -> (out: Vec<u8>)
    requires
        forall|i: int| 0 <= i < records@.len() ==> record_encodable(records@[i]@),
    ensures
        out@ == encode_spec(record_views(records@)),
{
    let mut out: Vec<u8> = Vec::new();
    let mut i: usize = 0;
    proof {
        assert(record_views(records@).take(0) =~= Seq::<RecordV>::empty());
    }
    while i < records.len()
        invariant
            0 <= i <= records@.len(),
            forall|k: int| 0 <= k < records@.len() ==> record_encodable(records@[k]@),
            out@ == encode_spec(record_views(records@).take(i as int)),
        decreases records@.len() - i,
    {
        let rec = &records[i];
        let mut id_bytes = u32_to_le_bytes(rec.id);
        out.append(&mut id_bytes);
        out.push(rec.data.len() as u8);
        out.push(encode_flags(rec.extended, rec.fd, rec.remote, rec.error));
        let mut k: usize = 0;
        let ghost mid = out@;
        while k < rec.data.len()
            invariant
                0 <= k <= rec.data@.len(),
                out@ == mid + rec.data@.take(k as int),
            decreases rec.data@.len() - k,
        {
            out.push(rec.data[k]);
            proof {
                assert(out@ =~= mid + rec.data@.take(k + 1));
            }
            k = k + 1;
        }
        proof {
            let views = record_views(records@);
            lemma_auto_spec_u32_to_from_le_bytes();
            assert(rec.data@.take(rec.data@.len() as int) =~= rec.data@);
            assert(out@ =~= encode_spec(views.take(i as int)) + record_bytes(views[i as int]));
            assert(views.take(i + 1) =~= views.take(i as int) + seq![views[i as int]]);
            lemma_encode_concat(views.take(i as int), seq![views[i as int]]);
            let single = seq![views[i as int]];
            assert(single[0] == views[i as int]);
            assert(single.drop_first() =~= Seq::<RecordV>::empty());
            assert(encode_spec(single.drop_first()) =~= Seq::<u8>::empty());
            assert(encode_spec(single) =~= record_bytes(views[i as int]) + encode_spec(
                single.drop_first(),
            ));
            assert(encode_spec(single) =~= record_bytes(views[i as int]));
            assert(out@ =~= encode_spec(views.take(i + 1)));
        }
        i = i + 1;
    }
    proof {
        assert(record_views(records@).take(records@.len() as int) =~= record_views(records@));
    }
    out
}

/// Decode a buffer for bulk send: parse records front to back while at
/// least a full header remains, and silently discard a truncated trailing
/// record.
pub fn decode_records(bytes: &Vec<u8>) -> (records: Vec<FrameRecord>)
    ensures
        record_views(records@) == decode_spec(bytes@),
{
    let mut records: Vec<FrameRecord> = Vec::new();
    let mut offset: usize = 0;
    proof {
        assert(bytes@.skip(0) =~= bytes@);
        assert(record_views(records@) =~= Seq::<RecordV>::empty());
        assert(record_views(records@) + decode_spec(bytes@.skip(0)) =~= decode_spec(bytes@));
    }
    while bytes.len() - offset >= RECORD_HEADER_LEN
        invariant_except_break
            0 <= offset <= bytes@.len(),
            record_views(records@) + decode_spec(bytes@.skip(offset as int)) == decode_spec(
                bytes@,
            ),
        ensures
            record_views(records@) == decode_spec(bytes@),
        decreases bytes@.len() - offset,
    {
        let ghost tail = bytes@.skip(offset as int);
        let dlen = bytes[offset + 4] as usize;
        proof {
            assert(tail[4] == bytes@[offset + 4]);
        }
        if bytes.len() - offset - RECORD_HEADER_LEN < dlen {
            proof {
                assert(decode_spec(tail) =~= Seq::<RecordV>::empty());
                assert(record_views(records@) + decode_spec(tail) =~= record_views(records@));
            }
            break ;
        }
        let id = u32_from_le_bytes(slice_subrange(bytes.as_slice(), offset, offset + 4));
        let flags = bytes[offset + 5];
        let mut data: Vec<u8> = Vec::new();
        let start = offset + RECORD_HEADER_LEN;
        let end = start + dlen;
        let mut k: usize = start;
        while k < end
            invariant
                start + dlen == end,
                start <= k <= end,
                end <= bytes@.len(),
                data@ == bytes@.subrange(start as int, k as int),
            decreases end - k,
        {
            data.push(bytes[k]);
            proof {
                assert(data@ =~= bytes@.subrange(start as int, k + 1));
            }
            k = k + 1;
        }
        let rec = FrameRecord {
            id,
            data,
            extended: flags % 2 == 1,
            fd: (flags / 2) % 2 == 1,
            remote: (flags / 4) % 2 == 1,
            error: (flags / 8) % 2 == 1,
        };
        let ghost old_records = records@;
        records.push(rec);
        let next = end;
        proof {
            assert(tail.subrange(0, 4) =~= bytes@.subrange(offset as int, offset + 4));
            assert(tail[5] == bytes@[offset + 5]);
            assert(tail.subrange(
                RECORD_HEADER_LEN as int,
                RECORD_HEADER_LEN + dlen,
            ) =~= bytes@.subrange((offset + RECORD_HEADER_LEN) as int, next as int));
            assert(tail.skip(RECORD_HEADER_LEN + dlen) =~= bytes@.skip(next as int));
            assert(decode_spec(tail) =~= seq![rec@] + decode_spec(bytes@.skip(next as int)));
            assert(record_views(records@) =~= record_views(old_records) + seq![rec@]);
            assert(record_views(records@) + decode_spec(bytes@.skip(next as int))
                =~= record_views(old_records) + decode_spec(tail));
        }
        offset = next;
    }
    records
}

/// Round trip: encoding any list of wire-encodable records and decoding
/// the result reproduces every record — identifier, payload and flags —
/// byte for byte.
pub proof fn lemma_codec_round_trip(rs: Seq<RecordV>)
    requires
        forall|i: int| 0 <= i < rs.len() ==> record_encodable(#[trigger] rs[i]),
    ensures
        decode_spec(encode_spec(rs)) == rs,
    decreases rs.len(),
{
    lemma_auto_spec_u32_to_from_le_bytes();
    if rs.len() == 0 {
        assert(decode_spec(encode_spec(rs)) =~= rs);
    } else {
        let r = rs[0];
        let rest = rs.drop_first();
        let b = encode_spec(rs);
        let rb = record_bytes(r);
        assert(spec_u32_to_le_bytes(r.id).len() == 4);
        assert(rb.len() == RECORD_HEADER_LEN + r.data.len());
        assert(b =~= rb + encode_spec(rest));
        assert(b[4] == r.data.len() as u8);
        assert(b[4] as int == r.data.len());
        assert(b.len() >= RECORD_HEADER_LEN + r.data.len());
        assert(b.subrange(0, 4) =~= spec_u32_to_le_bytes(r.id));
        assert(b[5] == spec_flags_byte(r.extended, r.fd, r.remote, r.error));
        lemma_flags_byte_bits(r.extended, r.fd, r.remote, r.error);
        assert(b.subrange(RECORD_HEADER_LEN as int, RECORD_HEADER_LEN + r.data.len()) =~= r.data);
        assert(b.skip(RECORD_HEADER_LEN + r.data.len()) =~= encode_spec(rest));
        lemma_codec_round_trip(rest);
        let d = decode_spec(b);
        assert(d[0] == r);
        assert(d =~= seq![r] + rest);
        assert(seq![r] + rest =~= rs);
    }
}

} // verus!
