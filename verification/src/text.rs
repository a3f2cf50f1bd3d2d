//! Comparing text by its octets.

use vstd::prelude::*;
use vstd::utf8::{encode_utf8, encode_utf8_decode_utf8};

verus! {

/// Whether `s` begins with `prefix`.
pub open spec fn begins_with(s: Seq<u8>, prefix: Seq<u8>) -> bool {
    prefix.len() <= s.len() && s.subrange(0, prefix.len() as int) == prefix
}

/// Whether `s` begins with `prefix`.
pub fn bytes_begin_with(s: &[u8], prefix: &[u8]) -> (b: bool)
    ensures
        b == begins_with(s@, prefix@),
{
    let n = prefix.len();
    if s.len() < n {
        return false;
    }
    let ghost head = s@.subrange(0, n as int);
    let mut i: usize = 0;
    while i < n
        invariant
            n == prefix@.len(),
            n <= s@.len(),
            i <= n,
            head == s@.subrange(0, n as int),
            forall|k: int| 0 <= k < i ==> head[k] == prefix@[k],
        decreases n - i,
    {
        if s[i] != prefix[i] {
            assert(head[i as int] != prefix@[i as int]);
            return false;
        }
        i += 1;
    }
    assert(head =~= prefix@);
    true
}

/// Texts with the same octets are the same text.
pub proof fn lemma_same_octets(a: Seq<char>, b: Seq<char>)
    requires
        encode_utf8(a) == encode_utf8(b),
    ensures
        a == b,
{
    encode_utf8_decode_utf8(a);
    encode_utf8_decode_utf8(b);
}

/// Whether `a` and `b` are the same text.
pub fn same_text(a: &str, b: &str) -> (same: bool)
    ensures
        same == (a@ == b@),
{
    let x = a.as_bytes();
    let y = b.as_bytes();
    if x.len() != y.len() {
        return false;
    }
    let same = bytes_begin_with(x, y);
    proof {
        assert(x@.subrange(0, x@.len() as int) =~= x@);
        if same {
            lemma_same_octets(a@, b@);
        }
    }
    same
}

/// Whether the octets of `a` begin with those of `prefix`.
pub fn text_begins_with(a: &str, prefix: &str) -> (b: bool)
    ensures
        b == begins_with(encode_utf8(a@), encode_utf8(prefix@)),
{
    bytes_begin_with(a.as_bytes(), prefix.as_bytes())
}

} // verus!
