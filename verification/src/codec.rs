//! Obfuscation codec for persisted credential records.
//!
//! Every account record is passed through this reversible byte transform
//! before it is written to the disk image, so that credentials are not
//! stored as plain legible text.  The transform XORs each byte with a
//! fixed nine-byte repeating key; applying it twice restores the input.
//! It is deliberately weak and provides no confidentiality guarantee.

use vstd::prelude::*;

verus! {

/// The fixed repeating key used by the codec.
pub open spec fn codec_key() -> Seq<u8> {
    seq![7u8, 19u8, 4u8, 1u8, 3u8, 6u8, 11u8, 5u8, 2u8]
}

/// The codec applied to a whole byte sequence: byte `i` is XORed with
/// key byte `i mod 9`.
pub open spec fn codec_of(s: Seq<u8>) -> Seq<u8> {
    Seq::new(s.len(), |i: int| s[i] ^ codec_key()[i % 9])
}

/// Key byte for position `i`, as executable code.
fn key_at(i: usize) -> (b: u8)
    ensures
        b == codec_key()[i as int % 9],
{
    let r = i % 9;
    match r {
        0 => 7,
        1 => 19,
        2 => 4,
        3 => 1,
        4 => 3,
        5 => 6,
        6 => 11,
        7 => 5,
        _ => 2,
    }
}

/// Apply the obfuscation codec to `data` in place.
pub fn edcrypt(data: &mut Vec<u8>)
    ensures
        final(data)@ == codec_of(old(data)@),
{
    let n = data.len();
    for i in 0..n
        invariant
            n == data@.len(),
            n == old(data)@.len(),
            forall|j: int| 0 <= j < i ==> data@[j] == codec_of(old(data)@)[j],
            forall|j: int| i <= j < n ==> data@[j] == old(data)@[j],
    {
        let v = data[i];
        let k = key_at(i);
        data.set(i, v ^ k);
    }
    proof {
        assert(data@ =~= codec_of(old(data)@));
    }
}

proof fn lemma_xor_twice(a: u8, k: u8)
    ensures
        (a ^ k) ^ k == a,
{
    assert((a ^ k) ^ k == a) by (bit_vector);
}

/// The codec is an involution: applying it twice restores any byte
/// sequence, including the empty one.
pub proof fn lemma_codec_involution(s: Seq<u8>)
    ensures
        codec_of(codec_of(s)) == s,
{
    assert forall|i: int| 0 <= i < s.len() implies codec_of(codec_of(s))[i] == s[i] by {
        lemma_xor_twice(s[i], codec_key()[i % 9]);
    }
    assert(codec_of(codec_of(s)) =~= s);
}

} // verus!
