//! Operator sugar for the set algebra.
//!
//! Each operator is defined to be exactly the correspondingly named method
//! — `|` is `union`, `&` is `intersection`, `^` is `symmetric_difference`,
//! `-` is `difference`, `!` is `complement` — and each operator's
//! specification states the same formula as that method's contract, so the
//! operator is sugar, not a second semantics.

use vstd::prelude::*;

use crate::bits::Bits;
use crate::bits::lemma_mask_ops;
use crate::flags::Flags;
use crate::flags::truncate_of;
use crate::flags::lemma_truncate_in_mask;

verus! {

impl<'a, B: Bits> vstd::std_specs::ops::BitOrSpecImpl for Flags<'a, B> {
    open spec fn obeys_bitor_spec() -> bool {
        true
    }

    open spec fn bitor_req(self, rhs: Flags<'a, B>) -> bool {
        true
    }

    open spec fn bitor_spec(self, rhs: Flags<'a, B>) -> Flags<'a, B> {
        Flags { table: self.table, bits: B::spec_from_pattern(self@ | rhs@) }
    }
}

impl<'a, B: Bits> core::ops::BitOr for Flags<'a, B> {
    type Output = Flags<'a, B>;

    /// The union of the two sets of flags.
    fn bitor(self, other: Self) -> (r: Self) {
        let r = self.union(other);
        proof {
            self.bits.lemma_pattern_in_mask();
            other.bits.lemma_pattern_in_mask();
            lemma_mask_ops(self@, other@, B::spec_mask());
            B::lemma_spec_from_pattern(self@ | other@);
            r.bits.lemma_pattern_injective(B::spec_from_pattern(self@ | other@));
        }
        r
    }
}

impl<'a, B: Bits> vstd::std_specs::ops::BitAndSpecImpl for Flags<'a, B> {
    open spec fn obeys_bitand_spec() -> bool {
        true
    }

    open spec fn bitand_req(self, rhs: Flags<'a, B>) -> bool {
        true
    }

    open spec fn bitand_spec(self, rhs: Flags<'a, B>) -> Flags<'a, B> {
        Flags { table: self.table, bits: B::spec_from_pattern(self@ & rhs@) }
    }
}

impl<'a, B: Bits> core::ops::BitAnd for Flags<'a, B> {
    type Output = Flags<'a, B>;

    /// The intersection of the two sets of flags.
    fn bitand(self, other: Self) -> (r: Self) {
        let r = self.intersection(other);
        proof {
            self.bits.lemma_pattern_in_mask();
            other.bits.lemma_pattern_in_mask();
            lemma_mask_ops(self@, other@, B::spec_mask());
            B::lemma_spec_from_pattern(self@ & other@);
            r.bits.lemma_pattern_injective(B::spec_from_pattern(self@ & other@));
        }
        r
    }
}

impl<'a, B: Bits> vstd::std_specs::ops::BitXorSpecImpl for Flags<'a, B> {
    open spec fn obeys_bitxor_spec() -> bool {
        true
    }

    open spec fn bitxor_req(self, rhs: Flags<'a, B>) -> bool {
        true
    }

    open spec fn bitxor_spec(self, rhs: Flags<'a, B>) -> Flags<'a, B> {
        Flags { table: self.table, bits: B::spec_from_pattern(self@ ^ rhs@) }
    }
}

impl<'a, B: Bits> core::ops::BitXor for Flags<'a, B> {
    type Output = Flags<'a, B>;

    /// The symmetric difference of the two sets of flags.
    fn bitxor(self, other: Self) -> (r: Self) {
        let r = self.symmetric_difference(other);
        proof {
            self.bits.lemma_pattern_in_mask();
            other.bits.lemma_pattern_in_mask();
            lemma_mask_ops(self@, other@, B::spec_mask());
            B::lemma_spec_from_pattern(self@ ^ other@);
            r.bits.lemma_pattern_injective(B::spec_from_pattern(self@ ^ other@));
        }
        r
    }
}

impl<'a, B: Bits> vstd::std_specs::ops::SubSpecImpl for Flags<'a, B> {
    open spec fn obeys_sub_spec() -> bool {
        true
    }

    open spec fn sub_req(self, rhs: Flags<'a, B>) -> bool {
        true
    }

    open spec fn sub_spec(self, rhs: Flags<'a, B>) -> Flags<'a, B> {
        Flags { table: self.table, bits: B::spec_from_pattern(self@ & !rhs@) }
    }
}

impl<'a, B: Bits> core::ops::Sub for Flags<'a, B> {
    type Output = Flags<'a, B>;

    /// The set difference of the two sets of flags.
    fn sub(self, other: Self) -> (r: Self) {
        let r = self.difference(other);
        proof {
            self.bits.lemma_pattern_in_mask();
            other.bits.lemma_pattern_in_mask();
            lemma_mask_ops(self@, other@, B::spec_mask());
            B::lemma_spec_from_pattern(self@ & !other@);
            r.bits.lemma_pattern_injective(B::spec_from_pattern(self@ & !other@));
        }
        r
    }
}

impl<'a, B: Bits> vstd::std_specs::ops::NotSpecImpl for Flags<'a, B> {
    open spec fn obeys_not_spec() -> bool {
        true
    }

    open spec fn not_req(self) -> bool {
        true
    }

    open spec fn not_spec(self) -> Flags<'a, B> {
        Flags {
            table: self.table,
            bits: B::spec_from_pattern(truncate_of(self.table@, self@ ^ B::spec_mask())),
        }
    }
}

impl<'a, B: Bits> core::ops::Not for Flags<'a, B> {
    type Output = Flags<'a, B>;

    /// The truncated complement of this set of flags.
    fn not(self) -> (r: Self) {
        let r = self.complement();
        proof {
            self.table.lemma_entries_in_mask();
            lemma_truncate_in_mask(self.table@, self@ ^ B::spec_mask(), B::spec_mask());
            B::lemma_spec_from_pattern(truncate_of(self.table@, self@ ^ B::spec_mask()));
            r.bits.lemma_pattern_injective(
                B::spec_from_pattern(truncate_of(self.table@, self@ ^ B::spec_mask())),
            );
        }
        r
    }
}

} // verus!
