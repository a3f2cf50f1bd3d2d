//! The length field that follows the envelope key.
//!
//! A length below 128 is one octet. A longer one is a marker octet, `0x81`,
//! `0x82` or `0x84`, followed by that many octets holding the number in
//! big-endian order.

use vstd::prelude::*;
use crate::klv::error::ParseError;

verus! {

/// The number of octets that the shortest form of the length `n` takes.
pub open spec fn length_field_len(n: nat) -> nat {
    if n < 0x80 {
        1
    } else if n < 0x100 {
        2
    } else if n < 0x1_0000 {
        3
    } else {
        5
    }
}

/// The shortest form of the length `n`, for `n` below 2^32.
pub open spec fn length_field(n: nat) -> Seq<u8>
    recommends
        n <= u32::MAX,
{
    if n < 0x80 {
        seq![n as u8]
    } else if n < 0x100 {
        seq![0x81u8, n as u8]
    } else if n < 0x1_0000 {
        seq![0x82u8, (n / 0x100) as u8, (n % 0x100) as u8]
    } else {
        seq![
            0x84u8,
            (n / 0x100_0000) as u8,
            (n / 0x1_0000 % 0x100) as u8,
            (n / 0x100 % 0x100) as u8,
            (n % 0x100) as u8,
        ]
    }
}

/// The shortest form has the length that `length_field_len` gives, and reads
/// back as the number it was made from.
pub proof fn lemma_length_field_reads_back(n: nat, rest: Seq<u8>)
    requires
        n <= u32::MAX,
    ensures
        length_field(n).len() == length_field_len(n),
        parse_length(length_field(n) + rest) == Ok::<(nat, nat), ParseError>(
            (length_field_len(n), n),
        ),
{
    let f = length_field(n);
    let s = f + rest;
    assert(forall|i: int| 0 <= i < f.len() ==> s[i] == f[i]);
    if n < 0x80 {
    } else if n < 0x100 {
    } else if n < 0x1_0000 {
        assert(s[1] == (n / 0x100) as u8 && s[2] == (n % 0x100) as u8);
    } else {
        assert(s[1] == (n / 0x100_0000) as u8 && s[2] == (n / 0x1_0000 % 0x100) as u8 && s[3] == (n
            / 0x100 % 0x100) as u8 && s[4] == (n % 0x100) as u8);
    }
}

/// A length field that is cut short reads as truncated.
pub proof fn lemma_length_field_cut(n: nat, k: int)
    requires
        n <= u32::MAX,
        0 <= k < length_field_len(n),
    ensures
        parse_length(length_field(n).subrange(0, k)) == Err::<(nat, nat), ParseError>(
            ParseError::TruncatedRecord,
        ),
{
}

/// The length field at the start of `s`: how many octets it takes and the
/// length it holds. Any of the four forms is read, the shortest or not.
pub open spec fn parse_length(s: Seq<u8>) -> Result<(nat, nat), ParseError> {
    if s.len() == 0 {
        Err(ParseError::TruncatedRecord)
    } else if s[0] < 0x80 {
        Ok((1, s[0] as nat))
    } else if s[0] == 0x81 {
        if s.len() < 2 {
            Err(ParseError::TruncatedRecord)
        } else {
            Ok((2, s[1] as nat))
        }
    } else if s[0] == 0x82 {
        if s.len() < 3 {
            Err(ParseError::TruncatedRecord)
        } else {
            Ok((3, (s[1] * 0x100 + s[2]) as nat))
        }
    } else if s[0] == 0x84 {
        if s.len() < 5 {
            Err(ParseError::TruncatedRecord)
        } else {
            Ok((5, (s[1] * 0x100_0000 + s[2] * 0x1_0000 + s[3] * 0x100 + s[4]) as nat))
        }
    } else {
        Err(ParseError::InvalidLength)
    }
}

/// The number of octets that `length_field` takes for `n`.
pub fn length_len(n: usize) -> (r: usize)
    ensures
        r == length_field_len(n as nat),
{
    if n < 0x80 {
        1
    } else if n < 0x100 {
        2
    } else if n < 0x1_0000 {
        3
    } else {
        5
    }
}

/// The shortest form of the length `n`, if `n` is below 2^32.
pub fn length_octets(n: usize) -> (v: Option<Vec<u8>>)
    ensures
        n <= u32::MAX ==> v is Some && v->Some_0@ == length_field(n as nat),
        n > u32::MAX ==> v is None,
{
    if n > 0xFFFF_FFFF {
        None
    } else {
        Some(shortest_form(n))
    }
}

/// The shortest form of the length `n`.
pub(crate) fn shortest_form(n: usize) -> (v: Vec<u8>)
    requires
        n <= u32::MAX,
    ensures
        v@ == length_field(n as nat),
{
    let mut v: Vec<u8> = Vec::new();
    if n < 0x80 {
        v.push(n as u8);
    } else if n < 0x100 {
        v.push(0x81);
        v.push(n as u8);
    } else if n < 0x1_0000 {
        v.push(0x82);
        v.push((n / 0x100) as u8);
        v.push((n % 0x100) as u8);
    } else {
        v.push(0x84);
        v.push((n / 0x100_0000) as u8);
        v.push((n / 0x1_0000 % 0x100) as u8);
        v.push((n / 0x100 % 0x100) as u8);
        v.push((n % 0x100) as u8);
    }
    assert(v@ =~= length_field(n as nat));
    v
}

/// Reads the length field that starts at `pos`: the number of octets it
/// takes and the length it holds. A place behind the end of `bytes` reads as
/// truncated.
pub fn read_length(bytes: &[u8], pos: usize) -> (r: Result<(usize, usize), ParseError>)
    ensures
        pos > bytes@.len() ==> r == Err::<(usize, usize), ParseError>(ParseError::TruncatedRecord),
        pos <= bytes@.len() ==> match parse_length(
            bytes@.subrange(pos as int, bytes@.len() as int),
        ) {
            Ok((used, n)) => r == Ok::<(usize, usize), ParseError>((used as usize, n as usize))
                && n <= u32::MAX,
            Err(e) => r == Err::<(usize, usize), ParseError>(e),
        },
{
    if pos > bytes.len() {
        return Err(ParseError::TruncatedRecord);
    }
    let ghost s = bytes@.subrange(pos as int, bytes@.len() as int);
    let left: usize = bytes.len() - pos;
    if left == 0 {
        return Err(ParseError::TruncatedRecord);
    }
    let first: u8 = bytes[pos];
    assert(first == s[0]);
    if first < 0x80 {
        Ok((1, first as usize))
    } else if first == 0x81 {
        if left < 2 {
            return Err(ParseError::TruncatedRecord);
        }
        assert(bytes[pos + 1] == s[1]);
        Ok((2, bytes[pos + 1] as usize))
    } else if first == 0x82 {
        if left < 3 {
            return Err(ParseError::TruncatedRecord);
        }
        assert(bytes[pos + 1] == s[1] && bytes[pos + 2] == s[2]);
        let n: u32 = bytes[pos + 1] as u32 * 0x100 + bytes[pos + 2] as u32;
        Ok((3, n as usize))
    } else if first == 0x84 {
        if left < 5 {
            return Err(ParseError::TruncatedRecord);
        }
        assert(bytes[pos + 1] == s[1] && bytes[pos + 2] == s[2] && bytes[pos + 3] == s[3]
            && bytes[pos + 4] == s[4]);
        let n: u32 = bytes[pos + 1] as u32 * 0x100_0000 + bytes[pos + 2] as u32 * 0x1_0000
            + bytes[pos + 3] as u32 * 0x100 + bytes[pos + 4] as u32;
        Ok((5, n as usize))
    } else {
        Err(ParseError::InvalidLength)
    }
}

} // verus!
