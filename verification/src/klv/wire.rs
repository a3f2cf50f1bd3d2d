//! The wire format, as mathematics.
//!
//! A packet is the 16-octet envelope key, the length of the content, and the
//! content: the records one after the other, each a tag octet, a length octet
//! and as many octets of value as the length says.

use vstd::prelude::*;
use crate::klv::error::ParseError;
use crate::klv::length::{length_field, length_field_len, parse_length};

verus! {

/// The number of octets of the envelope key.
pub const ENVELOPE_KEY_LEN: usize = 16;

/// The longest value that a record can carry.
pub const MAX_VALUE_LEN: usize = 255;

/// The most content that a packet can carry: with it the packet's own length
/// still fits in 32 bits.
pub const MAX_CONTENT_LEN: usize = 0xFFFF_FFEA;

/// The envelope key, `gstexamplers0000` in ASCII.
pub open spec fn envelope_key() -> Seq<u8> {
    seq![
        0x67u8, 0x73, 0x74, 0x65, 0x78, 0x61, 0x6d, 0x70,
        0x6c, 0x65, 0x72, 0x73, 0x30, 0x30, 0x30, 0x30,
    ]
}

/// One record: a tag and the octets of its value.
pub struct RawRecord {
    pub tag: u8,
    pub value: Seq<u8>,
}

/// The octets of one record.
pub open spec fn record_bytes(r: RawRecord) -> Seq<u8> {
    seq![r.tag, r.value.len() as u8] + r.value
}

/// The octets of the records, in their order.
pub open spec fn content_bytes(rs: Seq<RawRecord>) -> Seq<u8>
    decreases rs.len(),
{
    if rs.len() == 0 {
        Seq::empty()
    } else {
        content_bytes(rs.drop_last()) + record_bytes(rs.last())
    }
}

/// The number of octets of the records.
pub open spec fn content_len(rs: Seq<RawRecord>) -> nat
    decreases rs.len(),
{
    if rs.len() == 0 {
        0
    } else {
        content_len(rs.drop_last()) + 2 + rs.last().value.len()
    }
}

/// The content grows by one record's octets with each record.
pub proof fn lemma_content_push(rs: Seq<RawRecord>, r: RawRecord)
    ensures
        content_bytes(rs.push(r)) == content_bytes(rs) + record_bytes(r),
        content_len(rs.push(r)) == content_len(rs) + 2 + r.value.len(),
{
    assert(rs.push(r).drop_last() =~= rs);
}

/// The content has the length that `content_len` gives.
pub proof fn lemma_content_bytes_len(rs: Seq<RawRecord>)
    ensures
        content_bytes(rs).len() == content_len(rs),
    decreases rs.len(),
{
    if rs.len() > 0 {
        lemma_content_bytes_len(rs.drop_last());
    }
}

/// The content of the first records is no longer than that of all.
pub proof fn lemma_content_len_take(rs: Seq<RawRecord>, k: int)
    requires
        0 <= k <= rs.len(),
    ensures
        content_len(rs.take(k)) <= content_len(rs),
    decreases rs.len() - k,
{
    if k < rs.len() {
        lemma_content_len_take(rs, k + 1);
        assert(rs.take(k + 1).drop_last() =~= rs.take(k));
    } else {
        assert(rs.take(k) =~= rs);
    }
}

/// Whether the records can stand in one packet.
pub open spec fn valid_records(rs: Seq<RawRecord>) -> bool {
    &&& forall|i: int| 0 <= i < rs.len() ==> (#[trigger] rs[i]).value.len() <= MAX_VALUE_LEN
    &&& content_len(rs) <= MAX_CONTENT_LEN
}

/// The number of octets of the packet that holds the records.
pub open spec fn packet_len(rs: Seq<RawRecord>) -> nat {
    ENVELOPE_KEY_LEN as nat + length_field_len(content_len(rs)) + content_len(rs)
}

/// The packet that holds the records.
pub open spec fn packet(rs: Seq<RawRecord>) -> Seq<u8> {
    envelope_key() + length_field(content_len(rs)) + content_bytes(rs)
}

/// The value of the first record that carries `tag`, if any does.
pub open spec fn first_value(rs: Seq<RawRecord>, tag: u8) -> Option<Seq<u8>>
    decreases rs.len(),
{
    if rs.len() == 0 {
        None
    } else if rs[0].tag == tag {
        Some(rs[0].value)
    } else {
        first_value(rs.drop_first(), tag)
    }
}

/// The records that the content `c` holds.
pub open spec fn parse_content(c: Seq<u8>) -> Result<Seq<RawRecord>, ParseError>
    decreases c.len(),
{
    if c.len() == 0 {
        Ok(Seq::empty())
    } else if c.len() < 2 || c.len() < 2 + c[1] {
        Err(ParseError::TruncatedRecord)
    } else {
        let first = RawRecord { tag: c[0], value: c.subrange(2, 2 + c[1]) };
        match parse_content(c.subrange(2 + c[1], c.len() as int)) {
            Ok(rest) => Ok(seq![first] + rest),
            Err(e) => Err(e),
        }
    }
}

/// The records that the buffer `b` holds, or why it is no packet.
pub open spec fn parse_packet(b: Seq<u8>) -> Result<Seq<RawRecord>, ParseError> {
    if b.len() < ENVELOPE_KEY_LEN {
        Err(ParseError::TruncatedRecord)
    } else if b.subrange(0, ENVELOPE_KEY_LEN as int) != envelope_key() {
        Err(ParseError::EnvelopeKeyMismatch)
    } else {
        match parse_length(b.subrange(ENVELOPE_KEY_LEN as int, b.len() as int)) {
            Err(e) => Err(e),
            Ok((used, n)) => {
                if n > MAX_CONTENT_LEN {
                    Err(ParseError::InvalidLength)
                } else if b.len() < ENVELOPE_KEY_LEN + used + n {
                    Err(ParseError::TruncatedRecord)
                } else if b.len() > ENVELOPE_KEY_LEN + used + n {
                    Err(ParseError::TrailingData)
                } else {
                    parse_content(b.subrange(ENVELOPE_KEY_LEN + used, b.len() as int))
                }
            },
        }
    }
}

} // verus!
