//! Atomic storage for flags values.
//!
//! [`Atomic`] wraps the atomic variant of a storage type together with a
//! flag table, and forwards the usual flag mutations to the hardware's
//! atomic bit operations.  The chosen memory ordering is passed straight
//! through to the underlying primitive; no guarantee beyond the
//! primitive's own is added, and nothing can be promised about the value
//! another thread may have stored in between.

use core::sync::atomic::AtomicI16;
use core::sync::atomic::AtomicI32;
use core::sync::atomic::AtomicI64;
use core::sync::atomic::AtomicI8;
use core::sync::atomic::AtomicU16;
use core::sync::atomic::AtomicU32;
use core::sync::atomic::AtomicU64;
use core::sync::atomic::AtomicU8;
use core::sync::atomic::Ordering;

use vstd::prelude::*;

use crate::bits::Bits;
use crate::flags::FlagTable;
use crate::flags::Flags;

verus! {

/// A type usable as atomic storage for a flags type.
pub trait AtomicBits: Sized {
    /// The plain storage type this atomic variant holds.
    type Bits;

    /// A fresh atomic holding the given value.
    fn new_atomic(v: Self::Bits) -> Self;

    /// Atomic AND; returns the previous value.
    fn fetch_and(&self, val: Self::Bits, order: Ordering) -> Self::Bits;

    /// Atomic OR; returns the previous value.
    fn fetch_or(&self, val: Self::Bits, order: Ordering) -> Self::Bits;

    /// Atomic XOR; returns the previous value.
    fn fetch_xor(&self, val: Self::Bits, order: Ordering) -> Self::Bits;

    /// Atomic load.
    fn load(&self, order: Ordering) -> Self::Bits;

    /// Atomic store.
    fn store(&self, val: Self::Bits, order: Ordering);

    /// Atomic exchange; returns the previous value.
    fn swap(&self, val: Self::Bits, order: Ordering) -> Self::Bits;
}

/// A storage type that has an atomic variant.
pub trait HasAtomic: Bits {
    /// The atomic variant.
    type Atomic: AtomicBits<Bits = Self>;
}

impl AtomicBits for AtomicU8 {
    type Bits = u8;

    fn new_atomic(v: u8) -> Self {
        AtomicU8::new(v)
    }

    fn fetch_and(&self, val: u8, order: Ordering) -> u8 {
        AtomicU8::fetch_and(self, val, order)
    }

    fn fetch_or(&self, val: u8, order: Ordering) -> u8 {
        AtomicU8::fetch_or(self, val, order)
    }

    fn fetch_xor(&self, val: u8, order: Ordering) -> u8 {
        AtomicU8::fetch_xor(self, val, order)
    }

    fn load(&self, order: Ordering) -> u8 {
        AtomicU8::load(self, order)
    }

    fn store(&self, val: u8, order: Ordering) {
        AtomicU8::store(self, val, order)
    }

    fn swap(&self, val: u8, order: Ordering) -> u8 {
        AtomicU8::swap(self, val, order)
    }
}

impl HasAtomic for u8 {
    type Atomic = AtomicU8;
}

impl AtomicBits for AtomicU16 {
    type Bits = u16;

    fn new_atomic(v: u16) -> Self {
        AtomicU16::new(v)
    }

    fn fetch_and(&self, val: u16, order: Ordering) -> u16 {
        AtomicU16::fetch_and(self, val, order)
    }

    fn fetch_or(&self, val: u16, order: Ordering) -> u16 {
        AtomicU16::fetch_or(self, val, order)
    }

    fn fetch_xor(&self, val: u16, order: Ordering) -> u16 {
        AtomicU16::fetch_xor(self, val, order)
    }

    fn load(&self, order: Ordering) -> u16 {
        AtomicU16::load(self, order)
    }

    fn store(&self, val: u16, order: Ordering) {
        AtomicU16::store(self, val, order)
    }

    fn swap(&self, val: u16, order: Ordering) -> u16 {
        AtomicU16::swap(self, val, order)
    }
}

impl HasAtomic for u16 {
    type Atomic = AtomicU16;
}

impl AtomicBits for AtomicU32 {
    type Bits = u32;

    fn new_atomic(v: u32) -> Self {
        AtomicU32::new(v)
    }

    fn fetch_and(&self, val: u32, order: Ordering) -> u32 {
        AtomicU32::fetch_and(self, val, order)
    }

    fn fetch_or(&self, val: u32, order: Ordering) -> u32 {
        AtomicU32::fetch_or(self, val, order)
    }

    fn fetch_xor(&self, val: u32, order: Ordering) -> u32 {
        AtomicU32::fetch_xor(self, val, order)
    }

    fn load(&self, order: Ordering) -> u32 {
        AtomicU32::load(self, order)
    }

    fn store(&self, val: u32, order: Ordering) {
        AtomicU32::store(self, val, order)
    }

    fn swap(&self, val: u32, order: Ordering) -> u32 {
        AtomicU32::swap(self, val, order)
    }
}

impl HasAtomic for u32 {
    type Atomic = AtomicU32;
}

impl AtomicBits for AtomicU64 {
    type Bits = u64;

    fn new_atomic(v: u64) -> Self {
        AtomicU64::new(v)
    }

    fn fetch_and(&self, val: u64, order: Ordering) -> u64 {
        AtomicU64::fetch_and(self, val, order)
    }

    fn fetch_or(&self, val: u64, order: Ordering) -> u64 {
        AtomicU64::fetch_or(self, val, order)
    }

    fn fetch_xor(&self, val: u64, order: Ordering) -> u64 {
        AtomicU64::fetch_xor(self, val, order)
    }

    fn load(&self, order: Ordering) -> u64 {
        AtomicU64::load(self, order)
    }

    fn store(&self, val: u64, order: Ordering) {
        AtomicU64::store(self, val, order)
    }

    fn swap(&self, val: u64, order: Ordering) -> u64 {
        AtomicU64::swap(self, val, order)
    }
}

impl HasAtomic for u64 {
    type Atomic = AtomicU64;
}

impl AtomicBits for AtomicI8 {
    type Bits = i8;

    fn new_atomic(v: i8) -> Self {
        AtomicI8::new(v)
    }

    fn fetch_and(&self, val: i8, order: Ordering) -> i8 {
        AtomicI8::fetch_and(self, val, order)
    }

    fn fetch_or(&self, val: i8, order: Ordering) -> i8 {
        AtomicI8::fetch_or(self, val, order)
    }

    fn fetch_xor(&self, val: i8, order: Ordering) -> i8 {
        AtomicI8::fetch_xor(self, val, order)
    }

    fn load(&self, order: Ordering) -> i8 {
        AtomicI8::load(self, order)
    }

    fn store(&self, val: i8, order: Ordering) {
        AtomicI8::store(self, val, order)
    }

    fn swap(&self, val: i8, order: Ordering) -> i8 {
        AtomicI8::swap(self, val, order)
    }
}

impl HasAtomic for i8 {
    type Atomic = AtomicI8;
}

impl AtomicBits for AtomicI16 {
    type Bits = i16;

    fn new_atomic(v: i16) -> Self {
        AtomicI16::new(v)
    }

    fn fetch_and(&self, val: i16, order: Ordering) -> i16 {
        AtomicI16::fetch_and(self, val, order)
    }

    fn fetch_or(&self, val: i16, order: Ordering) -> i16 {
        AtomicI16::fetch_or(self, val, order)
    }

    fn fetch_xor(&self, val: i16, order: Ordering) -> i16 {
        AtomicI16::fetch_xor(self, val, order)
    }

    fn load(&self, order: Ordering) -> i16 {
        AtomicI16::load(self, order)
    }

    fn store(&self, val: i16, order: Ordering) {
        AtomicI16::store(self, val, order)
    }

    fn swap(&self, val: i16, order: Ordering) -> i16 {
        AtomicI16::swap(self, val, order)
    }
}

impl HasAtomic for i16 {
    type Atomic = AtomicI16;
}

impl AtomicBits for AtomicI32 {
    type Bits = i32;

    fn new_atomic(v: i32) -> Self {
        AtomicI32::new(v)
    }

    fn fetch_and(&self, val: i32, order: Ordering) -> i32 {
        AtomicI32::fetch_and(self, val, order)
    }

    fn fetch_or(&self, val: i32, order: Ordering) -> i32 {
        AtomicI32::fetch_or(self, val, order)
    }

    fn fetch_xor(&self, val: i32, order: Ordering) -> i32 {
        AtomicI32::fetch_xor(self, val, order)
    }

    fn load(&self, order: Ordering) -> i32 {
        AtomicI32::load(self, order)
    }

    fn store(&self, val: i32, order: Ordering) {
        AtomicI32::store(self, val, order)
    }

    fn swap(&self, val: i32, order: Ordering) -> i32 {
        AtomicI32::swap(self, val, order)
    }
}

impl HasAtomic for i32 {
    type Atomic = AtomicI32;
}

impl AtomicBits for AtomicI64 {
    type Bits = i64;

    fn new_atomic(v: i64) -> Self {
        AtomicI64::new(v)
    }

    fn fetch_and(&self, val: i64, order: Ordering) -> i64 {
        AtomicI64::fetch_and(self, val, order)
    }

    fn fetch_or(&self, val: i64, order: Ordering) -> i64 {
        AtomicI64::fetch_or(self, val, order)
    }

    fn fetch_xor(&self, val: i64, order: Ordering) -> i64 {
        AtomicI64::fetch_xor(self, val, order)
    }

    fn load(&self, order: Ordering) -> i64 {
        AtomicI64::load(self, order)
    }

    fn store(&self, val: i64, order: Ordering) {
        AtomicI64::store(self, val, order)
    }

    fn swap(&self, val: i64, order: Ordering) -> i64 {
        AtomicI64::swap(self, val, order)
    }
}

impl HasAtomic for i64 {
    type Atomic = AtomicI64;
}

/// Atomic flags storage: a flag table together with the atomic variant of
/// its storage type.
pub struct Atomic<'a, B: HasAtomic> {
    /// The table loaded values are read against.
    pub table: &'a FlagTable<B>,
    /// The underlying atomic storage.
    pub inner: B::Atomic,
}

impl<'a, B: HasAtomic> Atomic<'a, B> {
    /// Atomic storage holding the given value.
    pub fn from_value(value: Flags<'a, B>) -> (r: Self)
        ensures
            r.table == value.table,
    {
        Atomic { table: value.table, inner: B::Atomic::new_atomic(value.bits) }
    }

    /// Atomic storage holding no flags.
    pub fn empty(table: &'a FlagTable<B>) -> (r: Self)
        ensures
            r.table == table,
    {
        Atomic::from_value(table.empty())
    }

    /// Atomic storage holding every declared flag.
    pub fn all(table: &'a FlagTable<B>) -> (r: Self)
        ensures
            r.table == table,
    {
        Atomic::from_value(table.all())
    }

    /// The value currently stored.
    pub fn load(&self, ordering: Ordering) -> (r: Flags<'a, B>)
        ensures
            r.table == self.table,
    {
        Flags { table: self.table, bits: self.inner.load(ordering) }
    }

    /// Stores a value.
    pub fn store(&self, value: Flags<'_, B>, ordering: Ordering) {
        self.inner.store(value.bits, ordering);
    }

    /// Stores a value and returns the one it replaced.
    pub fn swap(&self, value: Flags<'_, B>, ordering: Ordering) -> (r: Flags<'a, B>)
        ensures
            r.table == self.table,
    {
        Flags { table: self.table, bits: self.inner.swap(value.bits, ordering) }
    }

    /// Atomically sets the given flags and returns the previous value.
    pub fn fetch_insert(&self, value: Flags<'_, B>, ordering: Ordering) -> (r: Flags<'a, B>)
        ensures
            r.table == self.table,
    {
        Flags { table: self.table, bits: self.inner.fetch_or(value.bits, ordering) }
    }

    /// Atomically clears the given flags and returns the previous value.
    pub fn fetch_remove(&self, value: Flags<'_, B>, ordering: Ordering) -> (r: Flags<'a, B>)
        ensures
            r.table == self.table,
    {
        let m: u128 = B::mask();
        proof {
            value.bits.lemma_pattern_in_mask();
            crate::bits::lemma_mask_ops(value.bits.pattern(), value.bits.pattern(), B::spec_mask());
        }
        let cleared: B = B::from_pattern(value.bits.to_pattern() ^ m);
        Flags { table: self.table, bits: self.inner.fetch_and(cleared, ordering) }
    }

    /// Atomically toggles the given flags and returns the previous value.
    pub fn fetch_toggle(&self, value: Flags<'_, B>, ordering: Ordering) -> (r: Flags<'a, B>)
        ensures
            r.table == self.table,
    {
        Flags { table: self.table, bits: self.inner.fetch_xor(value.bits, ordering) }
    }

    /// Atomically sets or clears the given flags, as `set` directs, and
    /// returns the previous value.
    pub fn fetch_set(&self, val: Flags<'_, B>, set: bool, ordering: Ordering) -> (r: Flags<'a, B>)
        ensures
            r.table == self.table,
    {
        if set {
            self.fetch_insert(val, ordering)
        } else {
            self.fetch_remove(val, ordering)
        }
    }
}

} // verus!
