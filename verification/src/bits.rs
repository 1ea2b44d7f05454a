//! The storage contract: fixed-width integer types usable as flag storage.
//!
//! Every storage type is modelled in specifications by its unsigned bit
//! pattern, a `u128` in which only the bits below the type's width can be
//! set.  Signed types are mapped through their two's-complement bit pattern,
//! so the whole algebra is stated once over `u128` patterns.

use vstd::prelude::*;

verus! {

/// Marker restricting [`Bits`] to the built-in storage types.
pub trait Sealed {}

/// Underlying storage for a flags type.
///
/// A `Bits` value is a fixed-width bit pattern.  `pattern` gives its
/// mathematical model: the unsigned value of its bits, always within
/// `spec_mask()`, the all-ones pattern of the type's width.
pub trait Bits: Copy + Sized + Sealed {
    /// The unsigned bit pattern of this value.
    spec fn pattern(self) -> u128;

    /// The all-ones pattern of this type's width.
    spec fn spec_mask() -> u128;

    /// The mask is a contiguous run of low bits: lying under it as a number
    /// and lying within it as a bit pattern are the same thing.
    proof fn lemma_mask_form(p: u128)
        ensures
            (p <= Self::spec_mask()) == (p & Self::spec_mask() == p),
    ;

    /// A pattern never has bits outside the type's width.
    proof fn lemma_pattern_in_mask(self)
        ensures
            self.pattern() & Self::spec_mask() == self.pattern(),
    ;

    /// Two values with the same bit pattern are the same value.
    proof fn lemma_pattern_injective(self, other: Self)
        ensures
            self.pattern() == other.pattern() ==> self == other,
    ;

    /// Every storage type is at least eight bits wide.
    proof fn lemma_mask_wide()
        ensures
            Self::spec_mask() >= 0xff,
    ;

    /// The all-ones pattern of this type's width.
    fn mask() -> (m: u128)
        ensures
            m == Self::spec_mask(),
    ;

    /// The bit pattern of this value.
    fn to_pattern(self) -> (p: u128)
        ensures
            p == self.pattern(),
    ;

    /// The value with the given bit pattern, as a specification-level map.
    spec fn spec_from_pattern(p: u128) -> Self;

    /// For patterns within the mask, `spec_from_pattern` inverts `pattern`.
    proof fn lemma_spec_from_pattern(p: u128)
        requires
            p & Self::spec_mask() == p,
        ensures
            Self::spec_from_pattern(p).pattern() == p,
    ;

    /// The value with the given bit pattern.
    fn from_pattern(p: u128) -> (r: Self)
        requires
            p & Self::spec_mask() == p,
        ensures
            r == Self::spec_from_pattern(p),
            r.pattern() == p,
    ;
}

impl Sealed for u8 {}

impl Bits for u8 {
    open spec fn pattern(self) -> u128 {
        self as u128
    }

    open spec fn spec_mask() -> u128 {
        0xff
    }

    proof fn lemma_mask_form(p: u128) {
        assert((p <= 0xff) == (p & 0xff == p)) by (bit_vector);
    }

    proof fn lemma_pattern_in_mask(self) {
        Self::lemma_mask_form(self as u128);
    }

    proof fn lemma_pattern_injective(self, other: Self) {
    }

    proof fn lemma_mask_wide() {
    }

    fn mask() -> u128 {
        0xff
    }

    fn to_pattern(self) -> u128 {
        self as u128
    }

    open spec fn spec_from_pattern(p: u128) -> Self {
        p as u8
    }

    proof fn lemma_spec_from_pattern(p: u128) {
        Self::lemma_mask_form(p);
    }

    fn from_pattern(p: u128) -> (r: Self) {
        proof {
            Self::lemma_spec_from_pattern(p);
        }
        p as u8
    }
}

impl Sealed for u16 {}

impl Bits for u16 {
    open spec fn pattern(self) -> u128 {
        self as u128
    }

    open spec fn spec_mask() -> u128 {
        0xffff
    }

    proof fn lemma_mask_form(p: u128) {
        assert((p <= 0xffff) == (p & 0xffff == p)) by (bit_vector);
    }

    proof fn lemma_pattern_in_mask(self) {
        Self::lemma_mask_form(self as u128);
    }

    proof fn lemma_pattern_injective(self, other: Self) {
    }

    proof fn lemma_mask_wide() {
    }

    fn mask() -> u128 {
        0xffff
    }

    fn to_pattern(self) -> u128 {
        self as u128
    }

    open spec fn spec_from_pattern(p: u128) -> Self {
        p as u16
    }

    proof fn lemma_spec_from_pattern(p: u128) {
        Self::lemma_mask_form(p);
    }

    fn from_pattern(p: u128) -> (r: Self) {
        proof {
            Self::lemma_spec_from_pattern(p);
        }
        p as u16
    }
}

impl Sealed for u32 {}

impl Bits for u32 {
    open spec fn pattern(self) -> u128 {
        self as u128
    }

    open spec fn spec_mask() -> u128 {
        0xffff_ffff
    }

    proof fn lemma_mask_form(p: u128) {
        assert((p <= 0xffff_ffff) == (p & 0xffff_ffff == p)) by (bit_vector);
    }

    proof fn lemma_pattern_in_mask(self) {
        Self::lemma_mask_form(self as u128);
    }

    proof fn lemma_pattern_injective(self, other: Self) {
    }

    proof fn lemma_mask_wide() {
    }

    fn mask() -> u128 {
        0xffff_ffff
    }

    fn to_pattern(self) -> u128 {
        self as u128
    }

    open spec fn spec_from_pattern(p: u128) -> Self {
        p as u32
    }

    proof fn lemma_spec_from_pattern(p: u128) {
        Self::lemma_mask_form(p);
    }

    fn from_pattern(p: u128) -> (r: Self) {
        proof {
            Self::lemma_spec_from_pattern(p);
        }
        p as u32
    }
}

impl Sealed for u64 {}

impl Bits for u64 {
    open spec fn pattern(self) -> u128 {
        self as u128
    }

    open spec fn spec_mask() -> u128 {
        0xffff_ffff_ffff_ffff
    }

    proof fn lemma_mask_form(p: u128) {
        assert((p <= 0xffff_ffff_ffff_ffff) == (p & 0xffff_ffff_ffff_ffff == p)) by (bit_vector);
    }

    proof fn lemma_pattern_in_mask(self) {
        Self::lemma_mask_form(self as u128);
    }

    proof fn lemma_pattern_injective(self, other: Self) {
    }

    proof fn lemma_mask_wide() {
    }

    fn mask() -> u128 {
        0xffff_ffff_ffff_ffff
    }

    fn to_pattern(self) -> u128 {
        self as u128
    }

    open spec fn spec_from_pattern(p: u128) -> Self {
        p as u64
    }

    proof fn lemma_spec_from_pattern(p: u128) {
        Self::lemma_mask_form(p);
    }

    fn from_pattern(p: u128) -> (r: Self) {
        proof {
            Self::lemma_spec_from_pattern(p);
        }
        p as u64
    }
}

impl Sealed for u128 {}

impl Bits for u128 {
    open spec fn pattern(self) -> u128 {
        self
    }

    open spec fn spec_mask() -> u128 {
        u128::MAX
    }

    proof fn lemma_mask_form(p: u128) {
        assert((p <= u128::MAX) == (p & u128::MAX == p)) by (bit_vector);
    }

    proof fn lemma_pattern_in_mask(self) {
        Self::lemma_mask_form(self);
    }

    proof fn lemma_pattern_injective(self, other: Self) {
    }

    proof fn lemma_mask_wide() {
    }

    fn mask() -> u128 {
        u128::MAX
    }

    fn to_pattern(self) -> u128 {
        self
    }

    open spec fn spec_from_pattern(p: u128) -> Self {
        p
    }

    proof fn lemma_spec_from_pattern(p: u128) {
    }

    fn from_pattern(p: u128) -> (r: Self) {
        p
    }
}

impl Sealed for i8 {}

impl Bits for i8 {
    open spec fn pattern(self) -> u128 {
        (self as u8) as u128
    }

    open spec fn spec_mask() -> u128 {
        0xff
    }

    proof fn lemma_mask_form(p: u128) {
        assert((p <= 0xff) == (p & 0xff == p)) by (bit_vector);
    }

    proof fn lemma_pattern_in_mask(self) {
        Self::lemma_mask_form((self as u8) as u128);
    }

    proof fn lemma_pattern_injective(self, other: Self) {
        assert((self as u8) as u128 == (other as u8) as u128 ==> self == other) by (bit_vector);
    }

    proof fn lemma_mask_wide() {
    }

    fn mask() -> u128 {
        0xff
    }

    fn to_pattern(self) -> u128 {
        (self as u8) as u128
    }

    open spec fn spec_from_pattern(p: u128) -> Self {
        (p as u8) as i8
    }

    proof fn lemma_spec_from_pattern(p: u128) {
        assert(p & 0xff == p ==> (((p as u8) as i8) as u8) as u128 == p) by (bit_vector);
    }

    fn from_pattern(p: u128) -> (r: Self) {
        proof {
            Self::lemma_spec_from_pattern(p);
        }
        (p as u8) as i8
    }
}

impl Sealed for i16 {}

impl Bits for i16 {
    open spec fn pattern(self) -> u128 {
        (self as u16) as u128
    }

    open spec fn spec_mask() -> u128 {
        0xffff
    }

    proof fn lemma_mask_form(p: u128) {
        assert((p <= 0xffff) == (p & 0xffff == p)) by (bit_vector);
    }

    proof fn lemma_pattern_in_mask(self) {
        Self::lemma_mask_form((self as u16) as u128);
    }

    proof fn lemma_pattern_injective(self, other: Self) {
        assert((self as u16) as u128 == (other as u16) as u128 ==> self == other) by (bit_vector);
    }

    proof fn lemma_mask_wide() {
    }

    fn mask() -> u128 {
        0xffff
    }

    fn to_pattern(self) -> u128 {
        (self as u16) as u128
    }

    open spec fn spec_from_pattern(p: u128) -> Self {
        (p as u16) as i16
    }

    proof fn lemma_spec_from_pattern(p: u128) {
        assert(p & 0xffff == p ==> (((p as u16) as i16) as u16) as u128 == p) by (bit_vector);
    }

    fn from_pattern(p: u128) -> (r: Self) {
        proof {
            Self::lemma_spec_from_pattern(p);
        }
        (p as u16) as i16
    }
}

impl Sealed for i32 {}

impl Bits for i32 {
    open spec fn pattern(self) -> u128 {
        (self as u32) as u128
    }

    open spec fn spec_mask() -> u128 {
        0xffff_ffff
    }

    proof fn lemma_mask_form(p: u128) {
        assert((p <= 0xffff_ffff) == (p & 0xffff_ffff == p)) by (bit_vector);
    }

    proof fn lemma_pattern_in_mask(self) {
        Self::lemma_mask_form((self as u32) as u128);
    }

    proof fn lemma_pattern_injective(self, other: Self) {
        assert((self as u32) as u128 == (other as u32) as u128 ==> self == other) by (bit_vector);
    }

    proof fn lemma_mask_wide() {
    }

    fn mask() -> u128 {
        0xffff_ffff
    }

    fn to_pattern(self) -> u128 {
        (self as u32) as u128
    }

    open spec fn spec_from_pattern(p: u128) -> Self {
        (p as u32) as i32
    }

    proof fn lemma_spec_from_pattern(p: u128) {
        assert(p & 0xffff_ffff == p ==> (((p as u32) as i32) as u32) as u128 == p)
            by (bit_vector);
    }

    fn from_pattern(p: u128) -> (r: Self) {
        proof {
            Self::lemma_spec_from_pattern(p);
        }
        (p as u32) as i32
    }
}

impl Sealed for i64 {}

impl Bits for i64 {
    open spec fn pattern(self) -> u128 {
        (self as u64) as u128
    }

    open spec fn spec_mask() -> u128 {
        0xffff_ffff_ffff_ffff
    }

    proof fn lemma_mask_form(p: u128) {
        assert((p <= 0xffff_ffff_ffff_ffff) == (p & 0xffff_ffff_ffff_ffff == p)) by (bit_vector);
    }

    proof fn lemma_pattern_in_mask(self) {
        Self::lemma_mask_form((self as u64) as u128);
    }

    proof fn lemma_pattern_injective(self, other: Self) {
        assert((self as u64) as u128 == (other as u64) as u128 ==> self == other) by (bit_vector);
    }

    proof fn lemma_mask_wide() {
    }

    fn mask() -> u128 {
        0xffff_ffff_ffff_ffff
    }

    fn to_pattern(self) -> u128 {
        (self as u64) as u128
    }

    open spec fn spec_from_pattern(p: u128) -> Self {
        (p as u64) as i64
    }

    proof fn lemma_spec_from_pattern(p: u128) {
        assert(p & 0xffff_ffff_ffff_ffff == p
            ==> (((p as u64) as i64) as u64) as u128 == p) by (bit_vector);
    }

    fn from_pattern(p: u128) -> (r: Self) {
        proof {
            Self::lemma_spec_from_pattern(p);
        }
        (p as u64) as i64
    }
}

impl Sealed for i128 {}

impl Bits for i128 {
    open spec fn pattern(self) -> u128 {
        self as u128
    }

    open spec fn spec_mask() -> u128 {
        u128::MAX
    }

    proof fn lemma_mask_form(p: u128) {
        assert((p <= u128::MAX) == (p & u128::MAX == p)) by (bit_vector);
    }

    proof fn lemma_pattern_in_mask(self) {
        Self::lemma_mask_form(self as u128);
    }

    proof fn lemma_pattern_injective(self, other: Self) {
        assert(self as u128 == other as u128 ==> self == other) by (bit_vector);
    }

    proof fn lemma_mask_wide() {
    }

    fn mask() -> u128 {
        u128::MAX
    }

    fn to_pattern(self) -> u128 {
        self as u128
    }

    open spec fn spec_from_pattern(p: u128) -> Self {
        p as i128
    }

    proof fn lemma_spec_from_pattern(p: u128) {
        assert(((p as i128) as u128) == p) by (bit_vector);
    }

    fn from_pattern(p: u128) -> (r: Self) {
        proof {
            Self::lemma_spec_from_pattern(p);
        }
        p as i128
    }
}


/// Combining two patterns that lie within a mask keeps the result within
/// it, whichever operation combines them; and clearing or complementing
/// against the mask agrees with the plain bitwise forms.
pub proof fn lemma_mask_ops(x: u128, y: u128, m: u128)
    by (bit_vector)
    requires
        x & m == x,
        y & m == y,
    ensures
        (x | y) & m == (x | y),
        (x & y) & m == (x & y),
        (x ^ y) & m == (x ^ y),
        (x & !y) & m == (x & !y),
        x & (y ^ m) == x & !y,
        (x ^ m) & m == (x ^ m),
{
}

/// Plain facts of the Boolean algebra of bit patterns: containment is
/// transitive and respects union, removal folds into a union, removed bits
/// can be restored, contained bits are absorbed, union associates, and zero
/// is neutral.
pub proof fn lemma_bit_facts(a: u128, b: u128, c: u128)
    by (bit_vector)
    ensures
        a & b == a && b & c == b ==> a & c == a,
        a & c == a && b & c == b ==> (a | b) & c == (a | b),
        (a & !b) & !c == a & !(b | c),
        b & a == b ==> b | (a & !b) == a,
        b & a == b ==> b | a == a,
        (a | b) | c == a | (b | c),
        0u128 | a == a,
        a | 0u128 == a,
        a & 0u128 == 0u128,
        0u128 & a == 0u128,
        a ^ 0u128 == a,
        a & !0u128 == a,
        b & (a | b) == b,
        a & b == a ==> a & (b | c) == a,
        a & b == a ==> a <= b,
        a & b == b & a,
{
}

} // verus!
