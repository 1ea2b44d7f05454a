//! Flag tables and flags values: the core set algebra.
//!
//! A [`FlagTable`] is the ordered vocabulary of one flags type: a list of
//! (name-or-anonymous, bit pattern) entries, fixed after construction.  A
//! [`Flags`] value pairs a reference to its table with a raw storage value;
//! the raw value may hold bits outside every declared entry ("unknown
//! bits"), which all binary operations preserve and only truncating
//! conversions and `complement` discard.

use vstd::prelude::*;

use crate::bits::Bits;
use crate::bits::lemma_mask_ops;
use crate::bits::lemma_bit_facts;

verus! {

/// The model of one table entry: its name, if any, and its bit pattern.
pub type FlagModel = (Option<Seq<char>>, u128);

/// One declared flag: a name (or none, for anonymous entries) and its bits.
#[derive(Debug, Clone)]
pub struct Flag<B> {
    /// The declared name; `None` marks an anonymous entry.
    pub name: Option<String>,
    /// The bits of this entry.
    pub value: B,
}

impl<B: Bits> View for Flag<B> {
    type V = FlagModel;

    open spec fn view(&self) -> FlagModel {
        (
            match self.name {
                Some(ref n) => Some(n@),
                None => None,
            },
            self.value.pattern(),
        )
    }
}

impl<B: Bits> Flag<B> {
    /// A named flag entry.
    pub fn new(name: &str, value: B) -> (r: Self)
        ensures
            r@ == (Some(name@), value.pattern()),
    {
        Flag { name: Some(name.to_owned()), value }
    }

    /// An anonymous flag entry: it widens the set of defined bits without
    /// being reported by name.
    pub fn unnamed(value: B) -> (r: Self)
        ensures
            r@ == (None::<Seq<char>>, value.pattern()),
    {
        Flag { name: None, value }
    }

    /// Whether this entry has a name.
    pub fn is_named(&self) -> (r: bool)
        ensures
            r == (self@.0 is Some),
    {
        self.name.is_some()
    }

    /// The bits of this entry.
    pub fn value(&self) -> (r: B)
        ensures
            r.pattern() == self@.1,
    {
        self.value
    }
}

/// The union of every entry's bits, in table order.
pub open spec fn all_of(t: Seq<FlagModel>) -> u128
    decreases t.len(),
{
    if t.len() == 0 {
        0u128
    } else {
        all_of(t.drop_last()) | t.last().1
    }
}

/// The entry-by-entry truncation of a bit pattern: the union of the bits of
/// every entry all of whose bits are present in `b`.  A multi-bit entry is
/// recognised only as a whole.
pub open spec fn truncate_of(t: Seq<FlagModel>, b: u128) -> u128
    decreases t.len(),
{
    if t.len() == 0 {
        0u128
    } else if b & t.last().1 == t.last().1 {
        truncate_of(t.drop_last(), b) | t.last().1
    } else {
        truncate_of(t.drop_last(), b)
    }
}

/// The bits of the first named entry called `n`, if any.
pub open spec fn lookup_name(t: Seq<FlagModel>, n: Seq<char>) -> Option<u128>
    decreases t.len(),
{
    if t.len() == 0 {
        None
    } else {
        match lookup_name(t.drop_last(), n) {
            Some(p) => Some(p),
            None => if t.last().0 == Some(n) {
                Some(t.last().1)
            } else {
                None
            },
        }
    }
}

/// The names of the entries whose bits equal `b` exactly, in table order.
pub open spec fn exact_names(t: Seq<FlagModel>, b: u128) -> Seq<Seq<char>>
    decreases t.len(),
{
    if t.len() == 0 {
        Seq::empty()
    } else if t.last().0 is Some && t.last().1 == b {
        exact_names(t.drop_last(), b).push(t.last().0->0)
    } else {
        exact_names(t.drop_last(), b)
    }
}

/// Truncation against a table whose entries lie within a mask stays within
/// that mask.
pub proof fn lemma_truncate_in_mask(t: Seq<FlagModel>, b: u128, m: u128)
    requires
        forall|i: int| 0 <= i < t.len() ==> #[trigger] (t[i].1) & m == t[i].1,
    ensures
        truncate_of(t, b) & m == truncate_of(t, b),
    decreases t.len(),
{
    if t.len() == 0 {
        lemma_bit_facts(m, 0, 0);
    } else {
        assert(t[t.len() - 1] == t.last());
        assert forall|i: int| 0 <= i < t.drop_last().len() implies #[trigger] (t.drop_last()[i].1)
            & m == t.drop_last()[i].1 by {
            assert(t.drop_last()[i] == t[i]);
        }
        lemma_truncate_in_mask(t.drop_last(), b, m);
        lemma_bit_facts(truncate_of(t.drop_last(), b), t.last().1, m);
    }
}

/// Membership: every bit of `b` is present in `a`.
pub open spec fn spec_contains(a: u128, b: u128) -> bool {
    a & b == b
}

/// Overlap: `a` and `b` share at least one bit.
pub open spec fn spec_intersects(a: u128, b: u128) -> bool {
    a & b != 0
}

/// The ordered vocabulary of one flags type.
///
/// The label names the flags type in diagnostic output; the entries are the
/// declared flags, in declaration order, immutable after construction.
#[derive(Debug, Clone)]
pub struct FlagTable<B> {
    /// The name of the flags type, used when rendering values for debugging.
    pub label: String,
    /// The declared entries, in declaration order.
    pub entries: Vec<Flag<B>>,
}

impl<B: Bits> View for FlagTable<B> {
    type V = Seq<FlagModel>;

    open spec fn view(&self) -> Seq<FlagModel> {
        self.entries@.map(|i: int, f: Flag<B>| f@)
    }
}

/// A flags value: a raw storage value together with its table.
///
/// The raw bits may include bits no entry declares; every operation below
/// states exactly how it treats them.
#[derive(Debug, Clone, Copy)]
pub struct Flags<'a, B: Bits> {
    /// The table this value is read against.
    pub table: &'a FlagTable<B>,
    /// The raw storage value.
    pub bits: B,
}

impl<'a, B: Bits> View for Flags<'a, B> {
    type V = u128;

    open spec fn view(&self) -> u128 {
        self.bits.pattern()
    }
}

impl<'a, B: Bits> PartialEq for Flags<'a, B> {
    /// Two flags values are equal exactly when their raw bits are equal,
    /// regardless of which entries explain those bits.
    fn eq(&self, other: &Self) -> (r: bool) {
        self.bits.to_pattern() == other.bits.to_pattern()
    }
}

impl<'a, B: Bits> vstd::std_specs::cmp::PartialEqSpecImpl for Flags<'a, B> {
    open spec fn obeys_eq_spec() -> bool {
        true
    }

    open spec fn eq_spec(&self, other: &Self) -> bool {
        self.bits.pattern() == other.bits.pattern()
    }
}

impl<B: Bits> FlagTable<B> {
    /// A table from its label and its ordered entries.
    pub fn new(label: &str, entries: Vec<Flag<B>>) -> (r: Self)
        ensures
            r@ == entries@.map(|i: int, f: Flag<B>| f@),
            r.label@ == label@,
    {
        FlagTable { label: label.to_owned(), entries }
    }

    /// Every entry's bits lie within the storage width.
    pub proof fn lemma_entries_in_mask(&self)
        ensures
            forall|i: int| 0 <= i < self@.len() ==> #[trigger] (self@[i].1) & B::spec_mask()
                == self@[i].1,
    {
        assert forall|i: int| 0 <= i < self@.len() implies #[trigger] (self@[i].1)
            & B::spec_mask() == self@[i].1 by {
            self.entries@[i].value.lemma_pattern_in_mask();
        }
    }

    /// The value with no bits set.
    pub fn empty(&self) -> (r: Flags<'_, B>)
        ensures
            r@ == 0,
            r.table == self,
    {
        proof {
            assert(0u128 & B::spec_mask() == 0) by (bit_vector);
        }
        Flags { table: self, bits: B::from_pattern(0) }
    }

    /// The value whose bits are the union of every entry's bits, named and
    /// anonymous alike.
    pub fn all(&self) -> (r: Flags<'_, B>)
        ensures
            r@ == all_of(self@),
            r.table == self,
    {
        let ghost t = self@;
        let mut acc: u128 = 0;
        proof {
            assert(0u128 & B::spec_mask() == 0) by (bit_vector);
        }
        let n: usize = self.entries.len();
        let mut i: usize = 0;
        while i < n
            invariant
                0 <= i <= n,
                n == self.entries.len(),
                t == self@,
                acc == all_of(t.subrange(0, i as int)),
                acc & B::spec_mask() == acc,
            decreases n - i,
        {
            let e: u128 = self.entries[i].value.to_pattern();
            proof {
                self.entries@[i as int].value.lemma_pattern_in_mask();
                lemma_mask_ops(acc, e, B::spec_mask());
                assert(t.subrange(0, i + 1).drop_last() =~= t.subrange(0, i as int));
                assert(t.subrange(0, i + 1).last() == t[i as int]);
            }
            acc = acc | e;
            i = i + 1;
        }
        proof {
            assert(t.subrange(0, n as int) =~= t);
        }
        Flags { table: self, bits: B::from_pattern(acc) }
    }

    /// The value with the given raw bits, kept verbatim: unknown bits are
    /// preserved.  This is the deliberate escape hatch; callers take
    /// responsibility for any bits outside the declared entries.
    pub fn from_bits_retain(&self, bits: B) -> (r: Flags<'_, B>)
        ensures
            r@ == bits.pattern(),
            r.table == self,
    {
        Flags { table: self, bits }
    }

    /// The given raw bits truncated entry by entry: the result keeps the
    /// bits of each entry that is wholly present in `bits` and drops every
    /// other bit.
    pub fn from_bits_truncate(&self, bits: B) -> (r: Flags<'_, B>)
        ensures
            r@ == truncate_of(self@, bits.pattern()),
            r.table == self,
    {
        let ghost t = self@;
        let p: u128 = bits.to_pattern();
        let mut acc: u128 = 0;
        proof {
            assert(0u128 & B::spec_mask() == 0) by (bit_vector);
        }
        let n: usize = self.entries.len();
        let mut i: usize = 0;
        while i < n
            invariant
                0 <= i <= n,
                n == self.entries.len(),
                t == self@,
                p == bits.pattern(),
                acc == truncate_of(t.subrange(0, i as int), p),
                acc & B::spec_mask() == acc,
            decreases n - i,
        {
            let e: u128 = self.entries[i].value.to_pattern();
            proof {
                self.entries@[i as int].value.lemma_pattern_in_mask();
                lemma_mask_ops(acc, e, B::spec_mask());
                assert(t.subrange(0, i + 1).drop_last() =~= t.subrange(0, i as int));
                assert(t.subrange(0, i + 1).last() == t[i as int]);
            }
            if p & e == e {
                acc = acc | e;
            }
            i = i + 1;
        }
        proof {
            assert(t.subrange(0, n as int) =~= t);
        }
        Flags { table: self, bits: B::from_pattern(acc) }
    }

    /// The checked conversion: the given raw bits, if and only if truncation
    /// would keep them all; `None` as soon as any bit would be dropped.
    pub fn from_bits(&self, bits: B) -> (r: Option<Flags<'_, B>>)
        ensures
            r is Some <==> truncate_of(self@, bits.pattern()) == bits.pattern(),
            r is Some ==> r.unwrap()@ == bits.pattern() && r.unwrap().table == self,
    {
        let truncated = self.from_bits_truncate(bits);
        if truncated.bits.to_pattern() == bits.to_pattern() {
            Some(self.from_bits_retain(bits))
        } else {
            None
        }
    }

    /// The value of the first entry with exactly this name; `None` when no
    /// named entry matches.  Names are case-sensitive; anonymous entries
    /// never match.
    pub fn from_name(&self, name: &str) -> (r: Option<Flags<'_, B>>)
        ensures
            match lookup_name(self@, name@) {
                Some(p) => r is Some && r.unwrap()@ == p && r.unwrap().table == self,
                None => r is None,
            },
    {
        let ghost t = self@;
        let n: usize = self.entries.len();
        let mut i: usize = 0;
        while i < n
            invariant
                0 <= i <= n,
                n == self.entries.len(),
                t == self@,
                lookup_name(t.subrange(0, i as int), name@) is None,
            decreases n - i,
        {
            proof {
                assert(t.subrange(0, i + 1).drop_last() =~= t.subrange(0, i as int));
                assert(t.subrange(0, i + 1).last() == t[i as int]);
            }
            let matched: bool = match &self.entries[i].name {
                Some(entry_name) => crate::text::str_eq(entry_name.as_str(), name),
                None => false,
            };
            if matched {
                proof {
                    lemma_lookup_extend(t, name@, i as int);
                }
                return Some(Flags { table: self, bits: self.entries[i].value });
            }
            i = i + 1;
        }
        proof {
            assert(t.subrange(0, n as int) =~= t);
        }
        None
    }
}

impl<B: Bits> FlagTable<B> {
    /// The union of a list of values: bulk construction, equivalent to
    /// folding `union` over `empty`.
    pub fn from_iter<'b>(&self, items: &Vec<Flags<'b, B>>) -> (r: Flags<'_, B>)
        ensures
            r@ == union_of(items@),
            r.table == self,
    {
        let mut r = self.empty();
        r.extend(items);
        proof {
            lemma_bit_facts(union_of(items@), 0, 0);
        }
        r
    }
}

/// If no entry before `i` is named `n` and entry `i` is, the whole-table
/// lookup finds entry `i`.
pub(crate) proof fn lemma_lookup_extend(t: Seq<FlagModel>, n: Seq<char>, i: int)
    requires
        0 <= i < t.len(),
        lookup_name(t.subrange(0, i), n) is None,
        t[i].0 == Some(n),
    ensures
        lookup_name(t, n) == Some(t[i].1),
    decreases t.len(),
{
    if t.len() == i + 1 {
        assert(t.subrange(0, i) =~= t.drop_last());
    } else {
        assert(t.drop_last().subrange(0, i) =~= t.subrange(0, i));
        lemma_lookup_extend(t.drop_last(), n, i);
    }
}

impl<'a, B: Bits> Flags<'a, B> {
    /// The table this value is read against.
    pub open spec fn spec_table(&self) -> Seq<FlagModel> {
        self.table@
    }

    /// The raw storage value.
    pub fn bits(&self) -> (r: B)
        ensures
            r.pattern() == self@,
    {
        self.bits
    }

    /// Whether no bit at all is set.  An entry declared with value zero does
    /// not affect this: a value is empty exactly when its raw bits are zero.
    pub fn is_empty(&self) -> (r: bool)
        ensures
            r == (self@ == 0),
    {
        self.bits.to_pattern() == 0
    }

    /// Whether every declared bit is set.  Unknown bits are ignored, so a
    /// value with extra bits can still be "all".
    pub fn is_all(&self) -> (r: bool)
        ensures
            r == (all_of(self.spec_table()) | self@ == self@),
    {
        let a: u128 = self.table.all().bits.to_pattern();
        a | self.bits.to_pattern() == self.bits.to_pattern()
    }

    /// Whether this value and `other` share at least one bit.
    pub fn intersects<'b>(&self, other: Flags<'b, B>) -> (r: bool)
        ensures
            r == spec_intersects(self@, other@),
    {
        self.bits.to_pattern() & other.bits.to_pattern() != 0
    }

    /// Whether every bit of `other` is present in this value.  A zero-valued
    /// `other` is contained in every value.
    pub fn contains<'b>(&self, other: Flags<'b, B>) -> (r: bool)
        ensures
            r == spec_contains(self@, other@),
    {
        self.bits.to_pattern() & other.bits.to_pattern() == other.bits.to_pattern()
    }

    /// Sets the bits of `other` in place.
    pub fn insert<'b>(&mut self, other: Flags<'b, B>)
        ensures
            final(self)@ == old(self)@ | other@,
            final(self).table == old(self).table,
    {
        proof {
            self.bits.lemma_pattern_in_mask();
            other.bits.lemma_pattern_in_mask();
            lemma_mask_ops(self.bits.pattern(), other.bits.pattern(), B::spec_mask());
        }
        self.bits = B::from_pattern(self.bits.to_pattern() | other.bits.to_pattern());
    }

    /// Clears the bits of `other` in place.
    pub fn remove<'b>(&mut self, other: Flags<'b, B>)
        ensures
            final(self)@ == old(self)@ & !other@,
            final(self).table == old(self).table,
    {
        proof {
            self.bits.lemma_pattern_in_mask();
            other.bits.lemma_pattern_in_mask();
            lemma_mask_ops(self.bits.pattern(), other.bits.pattern(), B::spec_mask());
        }
        let m: u128 = B::mask();
        self.bits = B::from_pattern(self.bits.to_pattern() & (other.bits.to_pattern() ^ m));
    }

    /// Toggles the bits of `other` in place.
    pub fn toggle<'b>(&mut self, other: Flags<'b, B>)
        ensures
            final(self)@ == old(self)@ ^ other@,
            final(self).table == old(self).table,
    {
        proof {
            self.bits.lemma_pattern_in_mask();
            other.bits.lemma_pattern_in_mask();
            lemma_mask_ops(self.bits.pattern(), other.bits.pattern(), B::spec_mask());
        }
        self.bits = B::from_pattern(self.bits.to_pattern() ^ other.bits.to_pattern());
    }

    /// Sets or clears the bits of `other` in place, as `value` directs.
    pub fn set<'b>(&mut self, other: Flags<'b, B>, value: bool)
        ensures
            final(self)@ == if value {
                old(self)@ | other@
            } else {
                old(self)@ & !other@
            },
            final(self).table == old(self).table,
    {
        if value {
            self.insert(other);
        } else {
            self.remove(other);
        }
    }

    /// The bits present in both `self` and `other`.  Unknown bits common to
    /// both are preserved.
    pub fn intersection<'b>(self, other: Flags<'b, B>) -> (r: Self)
        ensures
            r@ == self@ & other@,
            r.table == self.table,
    {
        proof {
            self.bits.lemma_pattern_in_mask();
            other.bits.lemma_pattern_in_mask();
            lemma_mask_ops(self.bits.pattern(), other.bits.pattern(), B::spec_mask());
        }
        Flags {
            table: self.table,
            bits: B::from_pattern(self.bits.to_pattern() & other.bits.to_pattern()),
        }
    }

    /// The bits present in `self` or `other` or both.  Unknown bits are
    /// preserved.
    pub fn union<'b>(self, other: Flags<'b, B>) -> (r: Self)
        ensures
            r@ == self@ | other@,
            r.table == self.table,
    {
        proof {
            self.bits.lemma_pattern_in_mask();
            other.bits.lemma_pattern_in_mask();
            lemma_mask_ops(self.bits.pattern(), other.bits.pattern(), B::spec_mask());
        }
        Flags {
            table: self.table,
            bits: B::from_pattern(self.bits.to_pattern() | other.bits.to_pattern()),
        }
    }

    /// The bits present in `self` and not in `other`.  Unknown bits of
    /// `self` survive unless `other` also has them.
    pub fn difference<'b>(self, other: Flags<'b, B>) -> (r: Self)
        ensures
            r@ == self@ & !other@,
            r.table == self.table,
    {
        proof {
            self.bits.lemma_pattern_in_mask();
            other.bits.lemma_pattern_in_mask();
            lemma_mask_ops(self.bits.pattern(), other.bits.pattern(), B::spec_mask());
        }
        let m: u128 = B::mask();
        Flags {
            table: self.table,
            bits: B::from_pattern(self.bits.to_pattern() & (other.bits.to_pattern() ^ m)),
        }
    }

    /// The bits present in exactly one of `self` and `other`.
    pub fn symmetric_difference<'b>(self, other: Flags<'b, B>) -> (r: Self)
        ensures
            r@ == self@ ^ other@,
            r.table == self.table,
    {
        proof {
            self.bits.lemma_pattern_in_mask();
            other.bits.lemma_pattern_in_mask();
            lemma_mask_ops(self.bits.pattern(), other.bits.pattern(), B::spec_mask());
        }
        Flags {
            table: self.table,
            bits: B::from_pattern(self.bits.to_pattern() ^ other.bits.to_pattern()),
        }
    }

    /// The truncated complement: the declared flags not present in `self`.
    /// Complementing deliberately goes through truncation, so unknown bits
    /// of `self` are dropped, not inverted into new unknown bits.
    pub fn complement(self) -> (r: Flags<'a, B>)
        ensures
            r@ == truncate_of(self.spec_table(), self@ ^ B::spec_mask()),
            r.table == self.table,
    {
        proof {
            self.bits.lemma_pattern_in_mask();
            lemma_mask_ops(self.bits.pattern(), self.bits.pattern(), B::spec_mask());
        }
        let m: u128 = B::mask();
        self.table.from_bits_truncate(B::from_pattern(self.bits.to_pattern() ^ m))
    }

    /// The union of a list of values, folded onto this one in place.
    pub fn extend<'b>(&mut self, others: &Vec<Flags<'b, B>>)
        ensures
            final(self)@ == old(self)@ | union_of(others@),
            final(self).table == old(self).table,
    {
        let n: usize = others.len();
        let mut i: usize = 0;
        proof {
            lemma_bit_facts(old(self)@, 0, 0);
        }
        while i < n
            invariant
                0 <= i <= n,
                n == others.len(),
                self@ == old(self)@ | union_of(others@.subrange(0, i as int)),
                self.table == old(self).table,
            decreases n - i,
        {
            proof {
                assert(others@.subrange(0, i + 1).drop_last() =~= others@.subrange(0, i as int));
                assert(others@.subrange(0, i + 1).last() == others@[i as int]);
                lemma_bit_facts(
                    old(self)@,
                    union_of(others@.subrange(0, i as int)),
                    others@[i as int]@,
                );
            }
            let other = others[i];
            self.insert(other);
            i = i + 1;
        }
        proof {
            assert(others@.subrange(0, n as int) =~= others@);
        }
    }

    /// The names of the entries whose bits equal this value's bits exactly,
    /// in table order.
    pub fn names(&self) -> (r: Vec<String>)
        ensures
            r@.map(|i: int, s: String| s@) == exact_names(self.spec_table(), self@),
    {
        let ghost t = self.spec_table();
        let p: u128 = self.bits.to_pattern();
        let mut r: Vec<String> = Vec::new();
        let n: usize = self.table.entries.len();
        let mut i: usize = 0;
        while i < n
            invariant
                0 <= i <= n,
                n == self.table.entries.len(),
                t == self.spec_table(),
                p == self@,
                r@.map(|j: int, s: String| s@) == exact_names(t.subrange(0, i as int), p),
            decreases n - i,
        {
            proof {
                assert(t.subrange(0, i + 1).drop_last() =~= t.subrange(0, i as int));
                assert(t.subrange(0, i + 1).last() == t[i as int]);
            }
            let entry = &self.table.entries[i];
            match &entry.name {
                Some(entry_name) => {
                    if entry.value.to_pattern() == p {
                        let ghost before = r@;
                        r.push(entry_name.clone());
                        proof {
                            assert(r@.map(|j: int, s: String| s@) =~= before.map(
                                |j: int, s: String| s@).push(entry_name@));
                        }
                    }
                },
                None => {},
            }
            i = i + 1;
        }
        proof {
            assert(t.subrange(0, n as int) =~= t);
        }
        r
    }
}

/// The union of the bit patterns of a list of values.
pub open spec fn union_of<'a, B: Bits>(vs: Seq<Flags<'a, B>>) -> u128
    decreases vs.len(),
{
    if vs.len() == 0 {
        0u128
    } else {
        union_of(vs.drop_last()) | vs.last()@
    }
}

} // verus!
