//! Counting the leading zero bits of a serialized public key.

use vstd::prelude::*;
use vstd::std_specs::bits::u8_leading_zeros;

verus! {

/// Number of leading zero bits of `bytes`, read most significant byte first:
/// every leading zero byte counts for eight bits, and the first nonzero byte
/// adds its own leading zero bits and ends the count.
pub open spec fn leading_zero_bits(bytes: Seq<u8>) -> nat
    decreases bytes.len(),
{
    if bytes.len() == 0 {
        0
    } else if bytes[0] == 0 {
        8 + leading_zero_bits(bytes.drop_first())
    } else {
        u8_leading_zeros(bytes[0]) as nat
    }
}

/// The count never exceeds the number of bits in the input.
pub proof fn lemma_leading_zero_bits_bound(bytes: Seq<u8>)
    ensures
        leading_zero_bits(bytes) <= 8 * bytes.len(),
    decreases bytes.len(),
{
    if bytes.len() > 0 {
        if bytes[0] == 0 {
            lemma_leading_zero_bits_bound(bytes.drop_first());
        }
    }
}

/// An input made of zero bytes only counts all of its bits.
pub proof fn lemma_leading_zero_bits_all_zero(bytes: Seq<u8>)
    requires
        forall|i: int| 0 <= i < bytes.len() ==> bytes[i] == 0,
    ensures
        leading_zero_bits(bytes) == 8 * bytes.len(),
    decreases bytes.len(),
{
    if bytes.len() > 0 {
        let rest = bytes.drop_first();
        assert forall|i: int| 0 <= i < rest.len() implies rest[i] == 0 by {
            assert(rest[i] == bytes[i + 1]);
        }
        lemma_leading_zero_bits_all_zero(rest);
    }
}

/// When the first nonzero byte stands at position `i`, the count is eight bits
/// for each byte before it plus the leading zero bits of that byte.
pub proof fn lemma_leading_zero_bits_first_nonzero(bytes: Seq<u8>, i: int)
    requires
        0 <= i < bytes.len(),
        bytes[i] != 0,
        forall|j: int| 0 <= j < i ==> bytes[j] == 0,
    ensures
        leading_zero_bits(bytes) == 8 * i + u8_leading_zeros(bytes[i]),
        leading_zero_bits(bytes) < 8 * (i + 1),
    decreases i,
{
    if i > 0 {
        let rest = bytes.drop_first();
        assert(bytes[0] == 0);
        assert(rest[i - 1] == bytes[i]);
        assert forall|j: int| 0 <= j < i - 1 implies rest[j] == 0 by {
            assert(rest[j] == bytes[j + 1]);
        }
        lemma_leading_zero_bits_first_nonzero(rest, i - 1);
    }
}

/// A nonzero byte at position `i` keeps the count below `8 * (i + 1)`,
/// whatever stands before it.
pub proof fn lemma_leading_zero_bits_below_nonzero(bytes: Seq<u8>, i: int)
    requires
        0 <= i < bytes.len(),
        bytes[i] != 0,
    ensures
        leading_zero_bits(bytes) < 8 * (i + 1),
    decreases i,
{
    if bytes[0] == 0 {
        let rest = bytes.drop_first();
        assert(rest[i - 1] == bytes[i]);
        lemma_leading_zero_bits_below_nonzero(rest, i - 1);
    } else {
        vstd::std_specs::bits::axiom_u8_leading_zeros(bytes[0]);
    }
}

/// Counts the leading zero bits of `bytes`: eight for every leading zero
/// byte, and the leading zero bits of the first nonzero byte, if there is
/// one. The number of bits in `bytes` has to fit the result type.
pub fn get_leading_zero_bits(bytes: &[u8]) -> (bits: usize)
    requires
        8 * bytes@.len() <= usize::MAX,
    ensures
        bits == leading_zero_bits(bytes@),
        bits <= 8 * bytes@.len(),
        (forall|i: int| 0 <= i < bytes@.len() ==> bytes@[i] == 0) ==> bits == 8 * bytes@.len(),
        forall|i: int|
            0 <= i < bytes@.len() && #[trigger] bytes@[i] != 0 && (forall|j: int|
                0 <= j < i ==> bytes@[j] == 0) ==> bits == 8 * i + u8_leading_zeros(bytes@[i]),
{
    let mut res: usize = 0;
    let mut i: usize = 0;
    while i < bytes.len()
        invariant
            i <= bytes.len(),
            8 * bytes@.len() <= usize::MAX,
            res == 8 * i,
            forall|j: int| 0 <= j < i ==> bytes@[j] == 0,
        decreases bytes.len() - i,
    {
        let b: u8 = bytes[i];
        if b != 0 {
            proof {
                lemma_leading_zero_bits_first_nonzero(bytes@, i as int);
            }
            let low: u32 = b.leading_zeros();
            return res + low as usize;
        }
        res = res + 8;
        i = i + 1;
    }
    proof {
        lemma_leading_zero_bits_all_zero(bytes@);
    }
    res
}

} // verus!
