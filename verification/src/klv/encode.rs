//! Writing a packet.

use vstd::prelude::*;
use crate::klv::error::EncodeError;
use crate::klv::length::{length_len, lemma_length_field_reads_back, shortest_form};
use crate::klv::record::RecordSet;
use crate::klv::wire::{
    content_bytes, content_len, envelope_key, lemma_content_bytes_len, lemma_content_len_take,
    lemma_content_push, packet, packet_len, valid_records, RawRecord, ENVELOPE_KEY_LEN,
};

verus! {

/// The envelope key.
pub fn envelope_key_octets() -> (k: [u8; 16])
    ensures
        k@ == envelope_key(),
{
    let k: [u8; 16] = [
        0x67, 0x73, 0x74, 0x65, 0x78, 0x61, 0x6d, 0x70,
        0x6c, 0x65, 0x72, 0x73, 0x30, 0x30, 0x30, 0x30,
    ];
    assert(k@ =~= envelope_key());
    k
}

/// The exact number of octets of the packet that holds the records.
pub fn encode_len(records: &RecordSet) -> (n: usize)
    ensures
        n == packet_len(records@),
        n == packet(records@).len(),
{
    let content = records.content_len();
    proof {
        lemma_content_bytes_len(records@);
        lemma_length_field_reads_back(content as nat, Seq::empty());
    }
    ENVELOPE_KEY_LEN + length_len(content) + content
}

/// Writes `src` into `dest` from place `pos` on.
fn put(dest: &mut [u8], pos: usize, src: &[u8])
    requires
        pos + src@.len() <= old(dest)@.len(),
    ensures
        final(dest)@ == old(dest)@.subrange(0, pos as int) + src@ + old(dest)@.subrange(
            pos + src@.len(),
            old(dest)@.len() as int,
        ),
{
    let n = src.len();
    let size = dest.len();
    let mut i: usize = 0;
    while i < n
        invariant
            n == src@.len(),
            size == dest@.len(),
            i <= n,
            pos + n <= dest@.len(),
            dest@.len() == old(dest)@.len(),
            dest@ == old(dest)@.subrange(0, pos as int) + src@.subrange(0, i as int) + old(
                dest,
            )@.subrange(pos + i, old(dest)@.len() as int),
        decreases n - i,
    {
        dest[pos + i] = src[i];
        i += 1;
        assert(dest@ =~= old(dest)@.subrange(0, pos as int) + src@.subrange(0, i as int) + old(
            dest,
        )@.subrange(pos + i, old(dest)@.len() as int));
    }
    assert(src@.subrange(0, n as int) =~= src@);
}

/// Writes the packet that holds the records to the start of `dest` and
/// returns its length. What follows the packet in `dest` stays as it was.
/// A destination shorter than `encode_len` is refused and left untouched.
pub fn encode(dest: &mut [u8], records: &RecordSet) -> (r: Result<usize, EncodeError>)
    ensures
        old(dest)@.len() < packet_len(records@) ==> r == Err::<usize, EncodeError>(
            EncodeError::BufferTooSmall,
        ) && final(dest)@ == old(dest)@,
        old(dest)@.len() >= packet_len(records@) ==> r == Ok::<usize, EncodeError>(
            packet_len(records@) as usize,
        ) && final(dest)@ == packet(records@) + old(dest)@.subrange(
            packet_len(records@) as int,
            old(dest)@.len() as int,
        ),
{
    let total = encode_len(records);
    if dest.len() < total {
        return Err(EncodeError::BufferTooSmall);
    }
    let content = records.content_len();
    let ghost rs = records@;
    let key = envelope_key_octets();
    put(dest, 0, key.as_slice());
    let field = shortest_form(content);
    proof {
        lemma_length_field_reads_back(content as nat, Seq::empty());
    }
    put(dest, ENVELOPE_KEY_LEN, field.as_slice());
    let mut pos: usize = ENVELOPE_KEY_LEN + field.len();
    let ghost head = envelope_key() + field@;
    assert(dest@ =~= head + old(dest)@.subrange(pos as int, old(dest)@.len() as int));
    let count = records.len();
    let mut k: usize = 0;
    assert(rs.take(0) =~= Seq::<RawRecord>::empty());
    while k < count
        invariant
            rs == records@,
            valid_records(rs),
            count == rs.len(),
            k <= count,
            head.len() + content_len(rs) == total,
            total <= old(dest)@.len(),
            dest@.len() == old(dest)@.len(),
            pos == head.len() + content_len(rs.take(k as int)),
            dest@ == head + content_bytes(rs.take(k as int)) + old(dest)@.subrange(
                pos as int,
                old(dest)@.len() as int,
            ),
        decreases count - k,
    {
        let rec = records.get(k).unwrap();
        let value = rec.value();
        proof {
            lemma_content_len_take(rs, k + 1);
            assert(rs.take(k + 1) =~= rs.take(k as int).push(rs[k as int]));
            lemma_content_push(rs.take(k as int), rs[k as int]);
            lemma_content_bytes_len(rs.take(k as int));
        }
        dest[pos] = rec.tag();
        dest[pos + 1] = value.len() as u8;
        put(dest, pos + 2, value);
        assert(dest@ =~= head + content_bytes(rs.take(k + 1)) + old(dest)@.subrange(
            pos + 2 + value@.len(),
            old(dest)@.len() as int,
        ));
        pos = pos + 2 + value.len();
        k += 1;
    }
    assert(rs.take(count as int) =~= rs);
    Ok(total)
}

/// The packet that holds the records, as a buffer of its own.
pub fn to_bytes(records: &RecordSet) -> (v: Vec<u8>)
    ensures
        v@ == packet(records@),
{
    let total = encode_len(records);
    let mut v: Vec<u8> = Vec::new();
    v.resize(total, 0u8);
    let written = encode(v.as_mut_slice(), records);
    assert(written == Ok::<usize, EncodeError>(total));
    assert(v@ =~= packet(records@));
    v
}

} // verus!
