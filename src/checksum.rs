use vstd::prelude::*;

verus! {

/// The XOR of all bytes of `s`, folded from the left.
pub open spec fn xor_fold(s: Seq<u8>) -> u8
    decreases s.len(),
{
    if s.len() == 0 {
        0u8
    } else {
        (xor_fold(s.drop_last()) ^ s.last()) as u8
    }
}

/// The checksum of a byte sequence: the complement of the XOR of its bytes.
pub open spec fn checksum_of(s: Seq<u8>) -> u8 {
    (!xor_fold(s)) as u8
}

/// Computes the body checksum of `data`: all bytes XORed together, then
/// complemented.
pub fn checksum(data: &[u8]) -> (r: u8)
    ensures
        r == checksum_of(data@),
{
    let mut result: u8 = 0;
    let mut i: usize = 0;
    while i < data.len()
        invariant
            i <= data@.len(),
            result == xor_fold(data@.subrange(0, i as int)),
        decreases data@.len() - i,
    {
        assert(data@.subrange(0, i + 1).drop_last() =~= data@.subrange(0, i as int));
        result = result ^ data[i];
        i = i + 1;
    }
    assert(data@.subrange(0, data@.len() as int) =~= data@);
    !result
}

/// The checksum of the empty sequence is the all-ones byte.
pub proof fn lemma_checksum_empty()
    ensures
        xor_fold(Seq::<u8>::empty()) == 0,
        checksum_of(Seq::<u8>::empty()) == 0xFF,
{
    assert(!0u8 == 0xFFu8) by (bit_vector);
}

/// Complementing a checksum gives back the XOR of the bytes, and a sequence
/// followed by its own checksum byte XORs to all ones, so that its checksum
/// is zero: this is how a receiver can check a sender's trailing byte.
pub proof fn lemma_checksum_closes(s: Seq<u8>)
    ensures
        (!checksum_of(s)) as u8 == xor_fold(s),
        xor_fold(s.push(checksum_of(s))) == 0xFF,
        checksum_of(s.push(checksum_of(s))) == 0,
{
    let x = xor_fold(s);
    let t = s.push(checksum_of(s));
    assert(t.drop_last() =~= s);
    assert((!((!x) as u8)) as u8 == x) by (bit_vector);
    assert((x ^ ((!x) as u8)) as u8 == 0xFFu8) by (bit_vector);
    assert((!0xFFu8) as u8 == 0u8) by (bit_vector);
}

} // verus!
