//! Iterating over the set flags of a value.
//!
//! [`IterNames`] decomposes a value into named table entries: an entry is
//! yielded when all of its bits are set in the *original* value and at least
//! one of its bits has not been claimed by an earlier entry.  Checking
//! against the original value is what makes overlapping entries work: with
//! entries `A = 0b001` and `B = 0b101`, the value `0b101` yields both `A`
//! and `B`.  [`Iter`] wraps it and yields one final value holding whatever
//! bits no named entry claimed, so that the union of everything yielded
//! reconstructs the original value exactly.

use vstd::prelude::*;

use crate::bits::Bits;
use crate::bits::lemma_mask_ops;
use crate::flags::FlagModel;
use crate::flags::FlagTable;
use crate::flags::Flags;

verus! {

/// Whether the entry `e` is yielded when iterating a value whose original
/// bits are `source` and whose unclaimed bits are `state`.
pub open spec fn entry_matched(e: FlagModel, source: u128, state: u128) -> bool {
    e.0 is Some && source & e.1 == e.1 && state & e.1 != 0
}

/// The (name, bits) pairs the named iterator yields from entry `i` onward.
/// Iteration stops early once no unclaimed bits remain.
pub open spec fn iter_yields(t: Seq<FlagModel>, i: int, source: u128, state: u128) -> Seq<
    (Seq<char>, u128),
>
    decreases t.len() - i,
{
    if i < 0 || i >= t.len() || state == 0 {
        Seq::empty()
    } else if entry_matched(t[i], source, state) {
        seq![(t[i].0->0, t[i].1)] + iter_yields(t, i + 1, source, state & !t[i].1)
    } else {
        iter_yields(t, i + 1, source, state)
    }
}

/// The unclaimed bits left after the named iterator has run from entry `i`.
pub open spec fn iter_state(t: Seq<FlagModel>, i: int, source: u128, state: u128) -> u128
    decreases t.len() - i,
{
    if i < 0 || i >= t.len() || state == 0 {
        state
    } else if entry_matched(t[i], source, state) {
        iter_state(t, i + 1, source, state & !t[i].1)
    } else {
        iter_state(t, i + 1, source, state)
    }
}

/// An iterator over the named flags set in a value, with their names.
///
/// Bits that correspond to no named entry are not yielded; after the
/// iterator is exhausted they can be read with [`IterNames::remaining`].
pub struct IterNames<'a, B: Bits> {
    /// The table being iterated.
    pub table: &'a FlagTable<B>,
    /// The next entry to consider.
    pub idx: usize,
    /// The original value, against which membership is checked.
    pub source: B,
    /// The bits no yielded entry has claimed yet.
    pub state: B,
}

impl<'a, B: Bits> IterNames<'a, B> {
    /// A fresh iterator over the named flags set in `flags`.
    pub fn new(flags: &Flags<'a, B>) -> (r: Self)
        ensures
            r.table == flags.table,
            r.idx == 0,
            r.source == flags.bits,
            r.state == flags.bits,
    {
        IterNames { table: flags.table, idx: 0, source: flags.bits, state: flags.bits }
    }

    /// The bits not yielded yet.
    ///
    /// Once the iterator has finished, this is the value's unknown bits:
    /// whatever no named entry accounted for.
    pub fn remaining(&self) -> (r: Flags<'a, B>)
        ensures
            r@ == self.state.pattern(),
            r.table == self.table,
    {
        Flags { table: self.table, bits: self.state }
    }

    /// The next named entry whose bits are all set in the original value
    /// and not all claimed by earlier entries, in table order.
    pub fn next(&mut self) -> (r: Option<(String, Flags<'a, B>)>)
        ensures
            ({
                let t = old(self).table@;
                let src = old(self).source.pattern();
                let ys = iter_yields(t, old(self).idx as int, src, old(self).state.pattern());
                &&& final(self).table == old(self).table
                &&& final(self).source == old(self).source
                &&& if ys.len() == 0 {
                    &&& r is None
                    &&& final(self).state == old(self).state
                    &&& iter_state(t, old(self).idx as int, src, old(self).state.pattern())
                        == old(self).state.pattern()
                } else {
                    &&& r is Some
                    &&& r.unwrap().0@ == ys[0].0
                    &&& r.unwrap().1@ == ys[0].1
                    &&& r.unwrap().1.table == old(self).table
                    &&& final(self).state.pattern() == old(self).state.pattern() & !ys[0].1
                    &&& iter_yields(t, final(self).idx as int, src, final(self).state.pattern())
                        == ys.drop_first()
                    &&& iter_state(t, final(self).idx as int, src, final(self).state.pattern())
                        == iter_state(t, old(self).idx as int, src, old(self).state.pattern())
                }
            }),
    {
        let ghost t = self.table@;
        let ghost idx0 = self.idx as int;
        let table = self.table;
        let src: u128 = self.source.to_pattern();
        let st: u128 = self.state.to_pattern();
        let n: usize = table.entries.len();
        while self.idx < n
            invariant
                idx0 == old(self).idx as int,
                idx0 <= self.idx as int,
                n == table.entries.len(),
                t == table@,
                t == old(self).table@,
                self.table == old(self).table,
                self.table == table,
                self.source == old(self).source,
                self.state == old(self).state,
                src == self.source.pattern(),
                st == self.state.pattern(),
                iter_yields(t, idx0, src, st) == iter_yields(t, self.idx as int, src, st),
                iter_state(t, idx0, src, st) == iter_state(t, self.idx as int, src, st),
            decreases n - self.idx,
        {
            if st == 0 {
                return None;
            }
            let i = self.idx;
            let e: u128 = table.entries[i].value.to_pattern();
            let is_match: bool = (src & e == e) && (st & e != 0);
            match &table.entries[i].name {
                Some(entry_name) => {
                    if is_match {
                        proof {
                            table.entries@[i as int].value.lemma_pattern_in_mask();
                            self.state.lemma_pattern_in_mask();
                            lemma_mask_ops(st, e, B::spec_mask());
                        }
                        let m: u128 = B::mask();
                        self.state = B::from_pattern(st & (e ^ m));
                        self.idx = i + 1;
                        let name = entry_name.clone();
                        let value = Flags { table, bits: B::from_pattern(e) };
                        proof {
                            let ys = iter_yields(t, idx0, src, st);
                            assert(t[i as int] == table.entries@[i as int]@);
                            assert(t[i as int].0 == Some(entry_name@));
                            assert(e == t[i as int].1);
                            assert(entry_matched(t[i as int], src, st));
                            assert(ys == seq![(t[i as int].0->0, t[i as int].1)] + iter_yields(
                                t,
                                i + 1,
                                src,
                                st & !e,
                            ));
                            assert(ys[0] == (t[i as int].0->0, t[i as int].1));
                            assert(ys.drop_first() =~~= iter_yields(t, i + 1, src, st & !e));
                            assert(iter_state(t, i as int, src, st) == iter_state(
                                t,
                                i + 1,
                                src,
                                st & !e,
                            ));
                            assert(name@ == entry_name@);
                        }
                        return Some((name, value));
                    }
                },
                None => {},
            }
            self.idx = i + 1;
        }
        None
    }
}

/// An iterator over the flags set in a value.
///
/// After all named entries are yielded, any bits that correspond to no
/// named entry are yielded as one final value, so that the union of every
/// yielded value reconstructs the original exactly.
pub struct Iter<'a, B: Bits> {
    /// The underlying iterator over named entries.
    pub inner: IterNames<'a, B>,
    /// Whether the final unknown-bits value has been yielded already.
    pub done: bool,
}

/// The bit patterns [`Iter`] yields from entry `i` onward: the matched named
/// entries, then the unclaimed remainder if it is nonzero and the final
/// value has not been yielded.
pub open spec fn iter_bit_seq(
    t: Seq<FlagModel>,
    i: int,
    source: u128,
    state: u128,
    done: bool,
) -> Seq<u128> {
    if done {
        Seq::empty()
    } else {
        iter_yields(t, i, source, state).map(|j: int, y: (Seq<char>, u128)| y.1) + (
        if iter_state(t, i, source, state) != 0 {
            seq![iter_state(t, i, source, state)]
        } else {
            Seq::empty()
        })
    }
}

impl<'a, B: Bits> Iter<'a, B> {
    /// A fresh iterator over the flags set in `flags`.
    pub fn new(flags: &Flags<'a, B>) -> (r: Self)
        ensures
            r.inner.table == flags.table,
            r.inner.idx == 0,
            r.inner.source == flags.bits,
            r.inner.state == flags.bits,
            !r.done,
    {
        Iter { inner: IterNames::new(flags), done: false }
    }

    /// The next value: a named entry while any match, then one final value
    /// holding the remaining unclaimed bits, if there are any.
    pub fn next(&mut self) -> (r: Option<Flags<'a, B>>)
        ensures
            ({
                let t = old(self).inner.table@;
                let src = old(self).inner.source.pattern();
                let ys = iter_yields(
                    t,
                    old(self).inner.idx as int,
                    src,
                    old(self).inner.state.pattern(),
                );
                let bs = iter_bit_seq(
                    t,
                    old(self).inner.idx as int,
                    src,
                    old(self).inner.state.pattern(),
                    old(self).done,
                );
                &&& final(self).inner.table == old(self).inner.table
                &&& final(self).inner.source == old(self).inner.source
                &&& if old(self).done {
                    &&& final(self).done
                    &&& if ys.len() == 0 {
                        r is None
                    } else {
                        &&& r is Some
                        &&& r.unwrap()@ == ys[0].1
                        &&& r.unwrap().table == old(self).inner.table
                    }
                } else {
                    if bs.len() == 0 {
                        r is None && final(self).done
                    } else {
                        &&& r is Some
                        &&& r.unwrap()@ == bs[0]
                        &&& r.unwrap().table == old(self).inner.table
                        &&& iter_bit_seq(
                            t,
                            final(self).inner.idx as int,
                            src,
                            final(self).inner.state.pattern(),
                            final(self).done,
                        ) == bs.drop_first()
                    }
                }
            }),
    {
        let ghost t = self.inner.table@;
        let ghost src = self.inner.source.pattern();
        let ghost st0 = self.inner.state.pattern();
        let ghost i0 = self.inner.idx as int;
        let ghost done0 = self.done;
        let ghost bs = iter_bit_seq(t, i0, src, st0, done0);
        let ghost ys = iter_yields(t, i0, src, st0);
        match self.inner.next() {
            Some((_, flag)) => {
                proof {
                    if !done0 {
                        assert(bs[0] == ys[0].1);
                        assert(iter_bit_seq(
                            t,
                            self.inner.idx as int,
                            src,
                            self.inner.state.pattern(),
                            self.done,
                        ) =~= bs.drop_first());
                    }
                }
                Some(flag)
            },
            None => {
                if !self.done {
                    self.done = true;
                    let rem = self.inner.remaining();
                    if !rem.is_empty() {
                        proof {
                            assert(bs =~= seq![st0]);
                            assert(iter_bit_seq(
                                t,
                                self.inner.idx as int,
                                src,
                                self.inner.state.pattern(),
                                true,
                            ) =~= bs.drop_first());
                        }
                        Some(rem)
                    } else {
                        proof {
                            assert(bs =~= Seq::<u128>::empty());
                        }
                        None
                    }
                } else {
                    None
                }
            },
        }
    }
}

impl<'a, B: Bits> Flags<'a, B> {
    /// Iterate over the flags set in this value.  Any bits that correspond
    /// to no named entry are yielded as one final value.
    pub fn iter(&self) -> (r: Iter<'a, B>)
        ensures
            r.inner.table == self.table,
            r.inner.idx == 0,
            r.inner.source == self.bits,
            r.inner.state == self.bits,
            !r.done,
    {
        Iter::new(self)
    }

    /// Iterate over the named flags set in this value, with their names.
    pub fn iter_names(&self) -> (r: IterNames<'a, B>)
        ensures
            r.table == self.table,
            r.idx == 0,
            r.source == self.bits,
            r.state == self.bits,
    {
        IterNames::new(self)
    }
}

/// The bit patterns of the named entries of a table, in table order.
pub open spec fn named_bits(t: Seq<FlagModel>) -> Seq<u128>
    decreases t.len(),
{
    if t.len() == 0 {
        Seq::empty()
    } else if t.last().0 is Some {
        named_bits(t.drop_last()).push(t.last().1)
    } else {
        named_bits(t.drop_last())
    }
}

impl<B: Bits> FlagTable<B> {
    /// The values of every named entry, in declaration order.  Entries with
    /// the same bits are all reported; anonymous entries are skipped.
    pub fn iter_named(&self) -> (r: Vec<Flags<'_, B>>)
        ensures
            r@.map(|i: int, f: Flags<'_, B>| f@) == named_bits(self@),
            forall|i: int| 0 <= i < r@.len() ==> (#[trigger] r@[i]).table == self,
    {
        let ghost t = self@;
        let mut r: Vec<Flags<'_, B>> = Vec::new();
        let n: usize = self.entries.len();
        let mut i: usize = 0;
        while i < n
            invariant
                0 <= i <= n,
                n == self.entries.len(),
                t == self@,
                r@.map(|j: int, f: Flags<'_, B>| f@) == named_bits(t.subrange(0, i as int)),
                forall|j: int| 0 <= j < r@.len() ==> (#[trigger] r@[j]).table == self,
            decreases n - i,
        {
            proof {
                assert(t.subrange(0, i + 1).drop_last() =~= t.subrange(0, i as int));
                assert(t.subrange(0, i + 1).last() == t[i as int]);
            }
            let entry = &self.entries[i];
            if entry.name.is_some() {
                let ghost before = r@;
                r.push(Flags { table: self, bits: entry.value });
                proof {
                    assert(r@.map(|j: int, f: Flags<'_, B>| f@) =~= before.map(
                        |j: int, f: Flags<'_, B>| f@,
                    ).push(entry.value.pattern()));
                }
            }
            i = i + 1;
        }
        proof {
            assert(t.subrange(0, n as int) =~= t);
        }
        r
    }
}

} // verus!
