//! Reading a packet.

use vstd::prelude::*;
use vstd::slice::{slice_subrange, slice_to_vec};
use crate::klv::encode::envelope_key_octets;
use crate::klv::error::ParseError;
use crate::klv::length::read_length;
use crate::klv::record::{Record, RecordSet};
use crate::klv::wire::{
    content_len, envelope_key, lemma_content_push, parse_content, parse_packet, RawRecord,
    ENVELOPE_KEY_LEN, MAX_CONTENT_LEN,
};

verus! {

/// What the records read so far and the content still to read make together.
pub open spec fn parse_rest(done: Seq<RawRecord>, rest: Seq<u8>) -> Result<
    Seq<RawRecord>,
    ParseError,
> {
    match parse_content(rest) {
        Ok(more) => Ok(done + more),
        Err(e) => Err(e),
    }
}

/// Whether `bytes` starts with the envelope key.
fn has_envelope_key(bytes: &[u8]) -> (b: bool)
    requires
        bytes@.len() >= ENVELOPE_KEY_LEN,
    ensures
        b == (bytes@.subrange(0, ENVELOPE_KEY_LEN as int) == envelope_key()),
{
    let key = envelope_key_octets();
    let ghost head = bytes@.subrange(0, ENVELOPE_KEY_LEN as int);
    let mut i: usize = 0;
    while i < ENVELOPE_KEY_LEN
        invariant
            i <= ENVELOPE_KEY_LEN,
            bytes@.len() >= ENVELOPE_KEY_LEN,
            key@ == envelope_key(),
            head == bytes@.subrange(0, ENVELOPE_KEY_LEN as int),
            forall|j: int| 0 <= j < i ==> head[j] == key@[j],
        decreases ENVELOPE_KEY_LEN - i,
    {
        if bytes[i] != key[i] {
            assert(head[i as int] != key@[i as int]);
            return false;
        }
        i += 1;
    }
    assert(head =~= key@);
    true
}

/// Reads the packet in `bytes`: its records in their order, or why `bytes`
/// is no packet. Nothing outside `bytes` is read.
pub fn decode(bytes: &[u8]) -> (r: Result<RecordSet, ParseError>)
    ensures
        match parse_packet(bytes@) {
            Ok(rs) => r is Ok && r->Ok_0@ == rs,
            Err(e) => r is Err && r->Err_0 == e,
        },
{
    let size = bytes.len();
    if size < ENVELOPE_KEY_LEN {
        return Err(ParseError::TruncatedRecord);
    }
    if !has_envelope_key(bytes) {
        return Err(ParseError::EnvelopeKeyMismatch);
    }
    let (used, n) = match read_length(bytes, ENVELOPE_KEY_LEN) {
        Ok(p) => p,
        Err(e) => {
            return Err(e);
        },
    };
    if n > MAX_CONTENT_LEN {
        return Err(ParseError::InvalidLength);
    }
    let start = ENVELOPE_KEY_LEN + used;
    if size - start < n {
        return Err(ParseError::TruncatedRecord);
    }
    if size - start > n {
        return Err(ParseError::TrailingData);
    }
    let ghost content = bytes@.subrange(start as int, size as int);
    let mut set = RecordSet::new();
    let mut pos: usize = start;
    assert(content.subrange(0, content.len() as int) =~= content);
    assert(Seq::<RawRecord>::empty() + parse_content(content)->Ok_0 =~= parse_content(
        content,
    )->Ok_0);
    while pos < size
        invariant
            size == bytes@.len(),
            start <= pos <= size,
            size - start <= MAX_CONTENT_LEN,
            content == bytes@.subrange(start as int, size as int),
            parse_packet(bytes@) == parse_content(content),
            content_len(set@) == pos - start,
            parse_rest(set@, content.subrange(pos - start, content.len() as int)) == parse_content(
                content,
            ),
        decreases size - pos,
    {
        let ghost rest = content.subrange(pos - start, content.len() as int);
        if size - pos < 2 {
            return Err(ParseError::TruncatedRecord);
        }
        let tag = bytes[pos];
        let width = bytes[pos + 1] as usize;
        assert(tag == rest[0] && width == rest[1]);
        if size - pos - 2 < width {
            return Err(ParseError::TruncatedRecord);
        }
        let value = slice_to_vec(slice_subrange(bytes, pos + 2, pos + 2 + width));
        assert(value@ =~= rest.subrange(2, 2 + width));
        // One octet never says more than a record can carry.
        let record = match Record::new(tag, value) {
            Ok(record) => record,
            Err(_) => {
                return Err(ParseError::InvalidLength);
            },
        };
        proof {
            lemma_content_push(set@, record@);
            let after = content.subrange(pos + 2 + width - start, content.len() as int);
            assert(rest.subrange(2 + width, rest.len() as int) =~= after);
            if parse_content(after) is Ok {
                assert(set@.push(record@) + parse_content(after)->Ok_0 =~= set@ + (seq![record@]
                    + parse_content(after)->Ok_0));
            }
        }
        // The content was found to be no more than a packet can carry.
        match set.push(record) {
            Ok(()) => {},
            Err(_) => {
                return Err(ParseError::InvalidLength);
            },
        }
        pos = pos + 2 + width;
    }
    assert(content.subrange(pos - start, content.len() as int) =~= Seq::<u8>::empty());
    assert(set@ + Seq::<RawRecord>::empty() =~= set@);
    Ok(set)
}

} // verus!
