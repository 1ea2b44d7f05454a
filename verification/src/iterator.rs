//! Iterating over the individual set bits of a value.
//!
//! [`BitFlagsIter`] walks a value's bits from least to most significant and
//! yields one single-bit value for each bit that is set, whether or not any
//! table entry declares it.

use vstd::prelude::*;

use crate::bits::Bits;
use crate::flags::Flags;

verus! {

/// The single-bit patterns of `b` at positions `k` and above, lowest first.
pub open spec fn single_bits(b: u128, k: int) -> Seq<u128>
    decreases 128 - k,
{
    if k < 0 || k >= 128 {
        Seq::empty()
    } else if b & (1u128 << k) != 0 {
        seq![1u128 << k] + single_bits(b, k + 1)
    } else {
        single_bits(b, k + 1)
    }
}

/// An iterator over each single bit set in a flags value.
pub struct BitFlagsIter<'a, B: Bits> {
    /// The value whose bits are iterated.
    pub flags: Flags<'a, B>,
    /// The next bit position to consider.
    pub shift: u32,
}

impl<'a, B: Bits> BitFlagsIter<'a, B> {
    /// A fresh iterator over the set bits of `flags`.
    pub fn new(flags: Flags<'a, B>) -> (r: Self)
        ensures
            r.flags == flags,
            r.shift == 0,
    {
        BitFlagsIter { flags, shift: 0 }
    }

    /// The next single set bit, from least significant to most.
    pub fn next(&mut self) -> (r: Option<Flags<'a, B>>)
        ensures
            ({
                let bs = single_bits(old(self).flags@, old(self).shift as int);
                &&& final(self).flags == old(self).flags
                &&& if bs.len() == 0 {
                    r is None
                } else {
                    &&& r is Some
                    &&& r.unwrap()@ == bs[0]
                    &&& r.unwrap().table == old(self).flags.table
                    &&& single_bits(final(self).flags@, final(self).shift as int)
                        == bs.drop_first()
                }
            }),
    {
        let ghost b = self.flags@;
        let ghost k0 = self.shift as int;
        let p: u128 = self.flags.bits.to_pattern();
        while self.shift < 128
            invariant
                k0 == old(self).shift as int,
                k0 <= self.shift as int,
                self.flags == old(self).flags,
                b == self.flags@,
                p == b,
                single_bits(b, k0) == single_bits(b, self.shift as int),
            decreases 128 - self.shift,
        {
            let k = self.shift;
            let bit: u128 = 1u128 << k;
            if p & bit != 0 {
                self.shift = k + 1;
                proof {
                    self.flags.bits.lemma_pattern_in_mask();
                    B::lemma_mask_form(b);
                    assert(bit & b == bit && bit <= b) by (bit_vector)
                        requires
                            bit == 1u128 << k,
                            b & bit != 0,
                            k < 128,
                    ;
                    assert(bit & B::spec_mask() == bit) by {
                        crate::bits::lemma_bit_facts(bit, b, B::spec_mask());
                    }
                    assert(single_bits(b, k as int) == seq![bit] + single_bits(b, k + 1));
                    assert(single_bits(b, k as int).drop_first() =~= single_bits(b, k + 1));
                }
                return Some(Flags { table: self.flags.table, bits: B::from_pattern(bit) });
            }
            self.shift = k + 1;
        }
        None
    }
}

} // verus!
