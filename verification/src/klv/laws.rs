//! What holds between writing and reading.

use vstd::prelude::*;
use crate::klv::error::ParseError;
use crate::klv::length::{
    length_field, length_field_len, lemma_length_field_cut, lemma_length_field_reads_back,
};
use crate::klv::wire::{
    content_bytes, content_len, envelope_key, lemma_content_bytes_len, packet, packet_len,
    parse_content, parse_packet, record_bytes, valid_records, RawRecord, ENVELOPE_KEY_LEN,
    MAX_VALUE_LEN,
};

verus! {

/// The content starts with the octets of the first record.
pub proof fn lemma_content_front(r: RawRecord, rs: Seq<RawRecord>)
    ensures
        content_bytes(seq![r] + rs) == record_bytes(r) + content_bytes(rs),
        content_len(seq![r] + rs) == 2 + r.value.len() + content_len(rs),
    decreases rs.len(),
{
    let all = seq![r] + rs;
    if rs.len() == 0 {
        assert(all.drop_last() =~= Seq::<RawRecord>::empty());
        assert(content_bytes(Seq::<RawRecord>::empty()) =~= Seq::<u8>::empty());
        assert(content_len(Seq::<RawRecord>::empty()) == 0);
        assert(content_bytes(all) =~= record_bytes(r) + content_bytes(rs));
    } else {
        lemma_content_front(r, rs.drop_last());
        assert(all.drop_last() =~= seq![r] + rs.drop_last());
        assert(all.last() == rs.last());
        assert(content_bytes(all) =~= record_bytes(r) + content_bytes(rs));
    }
}

/// Content that was written from records reads back as those records.
pub proof fn lemma_content_reads_back(rs: Seq<RawRecord>)
    requires
        forall|i: int| 0 <= i < rs.len() ==> (#[trigger] rs[i]).value.len() <= MAX_VALUE_LEN,
    ensures
        parse_content(content_bytes(rs)) == Ok::<Seq<RawRecord>, ParseError>(rs),
    decreases rs.len(),
{
    if rs.len() == 0 {
        assert(rs =~= Seq::<RawRecord>::empty());
    } else {
        let r = rs[0];
        let rest = rs.drop_first();
        assert(rs =~= seq![r] + rest);
        lemma_content_front(r, rest);
        lemma_content_reads_back(rest);
        let c = content_bytes(rs);
        let n = r.value.len() as int;
        assert(c == record_bytes(r) + content_bytes(rest));
        assert(c[0] == r.tag && c[1] == n);
        assert(c.subrange(2, 2 + n) =~= r.value);
        assert(c.subrange(2 + n, c.len() as int) =~= content_bytes(rest));
        assert((RawRecord { tag: c[0], value: c.subrange(2, 2 + c[1]) }) == r);
        lemma_content_bytes_len(rest);
        assert(c.len() == 2 + n + content_len(rest));
    }
}

/// A written packet is as long as `packet_len` says.
pub proof fn law_packet_len(rs: Seq<RawRecord>)
    requires
        valid_records(rs),
    ensures
        packet(rs).len() == packet_len(rs),
{
    lemma_content_bytes_len(rs);
    lemma_length_field_reads_back(content_len(rs), Seq::empty());
}

/// Reading a written packet gives the records it was written from, each
/// with its tag and its value, in their order.
pub proof fn law_decode_encode(rs: Seq<RawRecord>)
    requires
        valid_records(rs),
    ensures
        parse_packet(packet(rs)) == Ok::<Seq<RawRecord>, ParseError>(rs),
{
    let p = packet(rs);
    let n = content_len(rs);
    lemma_content_bytes_len(rs);
    lemma_length_field_reads_back(n, content_bytes(rs));
    lemma_content_reads_back(rs);
    assert(p.subrange(0, ENVELOPE_KEY_LEN as int) =~= envelope_key());
    assert(p.subrange(ENVELOPE_KEY_LEN as int, p.len() as int) =~= length_field(n) + content_bytes(
        rs,
    ));
    assert(p.subrange(ENVELOPE_KEY_LEN + length_field_len(n), p.len() as int) =~= content_bytes(
        rs,
    ));
}

/// A buffer of at least sixteen octets that differs from the envelope key
/// in one of the first sixteen is refused for its key, whatever follows.
pub proof fn law_envelope_mismatch(b: Seq<u8>, i: int)
    requires
        b.len() >= ENVELOPE_KEY_LEN,
        0 <= i < ENVELOPE_KEY_LEN,
        b[i] != envelope_key()[i],
    ensures
        parse_packet(b) == Err::<Seq<RawRecord>, ParseError>(ParseError::EnvelopeKeyMismatch),
{
    assert(b.subrange(0, ENVELOPE_KEY_LEN as int)[i] == b[i]);
}

/// A written packet with one octet of its key changed is refused for its key.
pub proof fn law_altered_key(rs: Seq<RawRecord>, i: int, octet: u8)
    requires
        valid_records(rs),
        0 <= i < ENVELOPE_KEY_LEN,
        octet != envelope_key()[i],
    ensures
        parse_packet(packet(rs).update(i, octet)) == Err::<Seq<RawRecord>, ParseError>(
            ParseError::EnvelopeKeyMismatch,
        ),
{
    law_envelope_mismatch(packet(rs).update(i, octet), i);
}

/// A written packet that is cut short, at any place, is refused as truncated.
pub proof fn law_truncation(rs: Seq<RawRecord>, k: int)
    requires
        valid_records(rs),
        0 <= k < packet_len(rs),
    ensures
        parse_packet(packet(rs).subrange(0, k)) == Err::<Seq<RawRecord>, ParseError>(
            ParseError::TruncatedRecord,
        ),
{
    let p = packet(rs);
    let n = content_len(rs);
    let b = p.subrange(0, k);
    let used = length_field_len(n) as int;
    law_packet_len(rs);
    lemma_length_field_reads_back(n, Seq::empty());
    if k >= ENVELOPE_KEY_LEN {
        assert(b.subrange(0, ENVELOPE_KEY_LEN as int) =~= envelope_key());
        let after = b.subrange(ENVELOPE_KEY_LEN as int, b.len() as int);
        if k < ENVELOPE_KEY_LEN + used {
            assert(after =~= length_field(n).subrange(0, k - ENVELOPE_KEY_LEN));
            lemma_length_field_cut(n, k - ENVELOPE_KEY_LEN);
        } else {
            let more = content_bytes(rs).subrange(0, k - ENVELOPE_KEY_LEN - used);
            assert(after =~= length_field(n) + more);
            lemma_length_field_reads_back(n, more);
        }
    }
}

} // verus!
