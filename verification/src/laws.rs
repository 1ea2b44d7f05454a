//! The library's laws: what the components guarantee together.
//!
//! Each public proof function here states one law of the library over the
//! same specification functions that the executable functions' contracts
//! use, and proves it for every input its hypotheses allow.

use vstd::prelude::*;
use vstd::arithmetic::div_mod::lemma_fundamental_div_mod;
use vstd::std_specs::ops::BitAndSpec;
use vstd::std_specs::ops::BitOrSpec;
use vstd::std_specs::ops::BitXorSpec;
use vstd::std_specs::ops::NotSpec;
use vstd::std_specs::ops::SubSpec;

use crate::bits::lemma_bit_facts;
use crate::bits::lemma_mask_ops;
use crate::flags::FlagModel;
use crate::flags::lookup_name;
use crate::flags::spec_contains;
use crate::flags::truncate_of;
use crate::fmt::hex_digit_char;
use crate::fmt::hex_digits;
use crate::fmt::hex_prefix_chars;
use crate::fmt::sep_chars;
use crate::fmt::spec_format;
use crate::fmt::spec_format_at;
use crate::iter::entry_matched;
use crate::iter::iter_bit_seq;
use crate::iter::iter_state;
use crate::iter::iter_yields;
use crate::parser::ParseErrorKind;
use crate::parser::all_hex;
use crate::parser::hex_digit_val;
use crate::parser::hex_value;
use crate::parser::is_flag_ws;
use crate::parser::is_hex_digit;
use crate::parser::lemma_first_sep_at;
use crate::parser::seg_parse;
use crate::parser::segs_parse;
use crate::parser::spec_parse;
use crate::parser::trim_of;

verus! {

/// The union of a sequence of bit patterns.
pub open spec fn or_of(bs: Seq<u128>) -> u128
    decreases bs.len(),
{
    if bs.len() == 0 {
        0u128
    } else {
        bs.first() | or_of(bs.drop_first())
    }
}

/// The bit patterns of the entries the named iterator yields.
pub open spec fn yield_bits(t: Seq<FlagModel>, i: int, source: u128, state: u128) -> Seq<u128> {
    iter_yields(t, i, source, state).map(|j: int, y: (Seq<char>, u128)| y.1)
}

/// Appending one pattern to a union adds exactly that pattern.
proof fn lemma_or_of_snoc(bs: Seq<u128>, x: u128)
    ensures
        or_of(bs.push(x)) == or_of(bs) | x,
    decreases bs.len(),
{
    if bs.len() == 0 {
        assert(bs.push(x)[0] == x);
        assert(bs.push(x).drop_first() =~= Seq::<u128>::empty());
        lemma_bit_facts(x, 0, 0);
        assert(bs.push(x).len() == 1);
        assert(or_of(bs.push(x)) == bs.push(x).first() | or_of(bs.push(x).drop_first()));
        assert(or_of(Seq::<u128>::empty()) == 0);
        assert(or_of(bs.push(x)) == x | 0);
        assert(or_of(bs) == 0);
        assert(or_of(bs) | x == x);
    } else {
        assert(bs.push(x)[0] == bs[0]);
        assert(bs.push(x).drop_first() =~= bs.drop_first().push(x));
        lemma_or_of_snoc(bs.drop_first(), x);
        lemma_bit_facts(bs.first(), or_of(bs.drop_first()), x);
        assert(bs.push(x).len() > 0);
        assert(or_of(bs.push(x)) == bs.push(x).first() | or_of(bs.push(x).drop_first()));
        assert(or_of(bs.push(x)) == bs[0] | (or_of(bs.drop_first()) | x));
        assert(or_of(bs) == bs.first() | or_of(bs.drop_first()));
    }
}

/// What the named iterator leaves behind is the source bits with every
/// yielded entry's bits removed.
proof fn lemma_iter_state_clears(t: Seq<FlagModel>, i: int, source: u128, state: u128)
    ensures
        iter_state(t, i, source, state) == state & !or_of(yield_bits(t, i, source, state)),
    decreases t.len() - i,
{
    if i < 0 || i >= t.len() || state == 0 {
        lemma_bit_facts(state, 0, 0);
    } else if entry_matched(t[i], source, state) {
        let e = t[i].1;
        lemma_iter_state_clears(t, i + 1, source, state & !e);
        assert(yield_bits(t, i, source, state) =~= seq![e] + yield_bits(
            t,
            i + 1,
            source,
            state & !e,
        ));
        assert(yield_bits(t, i, source, state).drop_first() =~= yield_bits(
            t,
            i + 1,
            source,
            state & !e,
        ));
        lemma_bit_facts(state, e, or_of(yield_bits(t, i + 1, source, state & !e)));
    } else {
        lemma_iter_state_clears(t, i + 1, source, state);
    }
}

/// Every bit the named iterator yields comes from the source.
proof fn lemma_iter_yields_in_source(t: Seq<FlagModel>, i: int, source: u128, state: u128)
    ensures
        or_of(yield_bits(t, i, source, state)) & source == or_of(yield_bits(t, i, source, state)),
    decreases t.len() - i,
{
    if i < 0 || i >= t.len() || state == 0 {
        lemma_bit_facts(source, 0, 0);
    } else if entry_matched(t[i], source, state) {
        let e = t[i].1;
        lemma_iter_yields_in_source(t, i + 1, source, state & !e);
        assert(yield_bits(t, i, source, state) =~= seq![e] + yield_bits(
            t,
            i + 1,
            source,
            state & !e,
        ));
        assert(yield_bits(t, i, source, state).drop_first() =~= yield_bits(
            t,
            i + 1,
            source,
            state & !e,
        ));
        lemma_bit_facts(source, e, 0);
        lemma_bit_facts(e, or_of(yield_bits(t, i + 1, source, state & !e)), source);
    } else {
        lemma_iter_yields_in_source(t, i + 1, source, state);
    }
}

/// Round-trip via the canonical iterator: for every value, including one
/// holding unknown bits, OR-folding everything a fresh [`crate::iter::Iter`]
/// yields — the matched named entries and then the one unclaimed remainder
/// — reconstructs the value's bits exactly.
pub proof fn lemma_iter_reconstruct(t: Seq<FlagModel>, b: u128)
    ensures
        or_of(iter_bit_seq(t, 0, b, b, false)) == b,
{
    lemma_iter_state_clears(t, 0, b, b);
    lemma_iter_yields_in_source(t, 0, b, b);
    let yb = yield_bits(t, 0, b, b);
    let fin = iter_state(t, 0, b, b);
    lemma_bit_facts(b, or_of(yb), 0);
    lemma_bit_facts(or_of(yb), 0, 0);
    if fin != 0 {
        assert(iter_bit_seq(t, 0, b, b, false) =~= yb.push(fin));
        lemma_or_of_snoc(yb, fin);
    } else {
        assert(iter_bit_seq(t, 0, b, b, false) =~= yb);
    }
}

/// An entry wholly present in the converted bits survives truncation.
proof fn lemma_truncate_entry_in(t: Seq<FlagModel>, b: u128, i: int)
    requires
        0 <= i < t.len(),
        b & t[i].1 == t[i].1,
    ensures
        t[i].1 & truncate_of(t, b) == t[i].1,
    decreases t.len(),
{
    let e = t[i].1;
    assert(t[t.len() - 1] == t.last());
    if i == t.len() - 1 {
        lemma_bit_facts(truncate_of(t.drop_last(), b), e, 0);
    } else {
        assert(t.drop_last()[i] == t[i]);
        lemma_truncate_entry_in(t.drop_last(), b, i);
        lemma_bit_facts(e, truncate_of(t.drop_last(), b), t.last().1);
    }
}

/// Truncation never invents bits: the result is contained in its input.
proof fn lemma_truncate_contained(t: Seq<FlagModel>, b: u128)
    ensures
        truncate_of(t, b) & b == truncate_of(t, b),
    decreases t.len(),
{
    if t.len() == 0 {
        lemma_bit_facts(b, 0, 0);
    } else {
        assert(t[t.len() - 1] == t.last());
        lemma_truncate_contained(t.drop_last(), b);
        let e = t.last().1;
        if b & e == e {
            lemma_bit_facts(b, e, 0);
            lemma_bit_facts(truncate_of(t.drop_last(), b), e, b);
        }
    }
}

/// A prefix of the table truncates the truncated bits exactly as it
/// truncates the original bits: both recognise the same entries.
proof fn lemma_truncate_prefix_eq(t: Seq<FlagModel>, b: u128, k: int)
    requires
        0 <= k <= t.len(),
    ensures
        truncate_of(t.subrange(0, k), truncate_of(t, b)) == truncate_of(t.subrange(0, k), b),
    decreases k,
{
    let tv = truncate_of(t, b);
    if k > 0 {
        lemma_truncate_prefix_eq(t, b, k - 1);
        assert(t.subrange(0, k).drop_last() =~= t.subrange(0, k - 1));
        assert(t.subrange(0, k).last() == t[k - 1]);
        let e = t[k - 1].1;
        if b & e == e {
            lemma_truncate_entry_in(t, b, k - 1);
            lemma_bit_facts(e, tv, 0);
        }
        if tv & e == e {
            lemma_truncate_contained(t, b);
            lemma_bit_facts(e, tv, b);
            lemma_bit_facts(b, e, 0);
        }
    }
}

/// Truncation idempotence: truncating the bits of a truncated value
/// changes nothing, for every input.
pub proof fn lemma_truncate_idempotent(t: Seq<FlagModel>, b: u128)
    ensures
        truncate_of(t, truncate_of(t, b)) == truncate_of(t, b),
{
    lemma_truncate_prefix_eq(t, b, t.len() as int);
    assert(t.subrange(0, t.len() as int) =~= t);
}

/// Algebra–operator agreement: each operator's specification produces a
/// value with exactly the bits the correspondingly named method's contract
/// promises — `|` union's, `&` intersection's, `^` symmetric difference's,
/// `-` difference's, and `!` the truncated complement's — for all values.
pub proof fn lemma_operator_agreement<'a, B: crate::bits::Bits>(
    a: crate::flags::Flags<'a, B>,
    b: crate::flags::Flags<'a, B>,
)
    ensures
        a.bitor_spec(b)@ == a@ | b@,
        a.bitand_spec(b)@ == a@ & b@,
        a.bitxor_spec(b)@ == a@ ^ b@,
        a.sub_spec(b)@ == a@ & !b@,
        a.not_spec()@ == truncate_of(a.table@, a@ ^ B::spec_mask()),
{
    a.bits.lemma_pattern_in_mask();
    b.bits.lemma_pattern_in_mask();
    lemma_mask_ops(a@, b@, B::spec_mask());
    B::lemma_spec_from_pattern(a@ | b@);
    B::lemma_spec_from_pattern(a@ & b@);
    B::lemma_spec_from_pattern(a@ ^ b@);
    B::lemma_spec_from_pattern(a@ & !b@);
    a.table.lemma_entries_in_mask();
    crate::flags::lemma_truncate_in_mask(a.table@, a@ ^ B::spec_mask(), B::spec_mask());
    B::lemma_spec_from_pattern(truncate_of(a.table@, a@ ^ B::spec_mask()));
}

/// Union of bit patterns — and with it [`crate::flags::Flags::union`] and
/// `|`, whose contracts state exactly this operation on the model — is
/// commutative and associative.
pub proof fn lemma_union_commutative_associative(a: u128, b: u128, c: u128)
    by (bit_vector)
    ensures
        a | b == b | a,
        (a | b) | c == a | (b | c),
{
}

/// Intersection of bit patterns — and with it
/// [`crate::flags::Flags::intersection`] and `&` — is commutative and
/// associative.
pub proof fn lemma_intersection_commutative_associative(a: u128, b: u128, c: u128)
    by (bit_vector)
    ensures
        a & b == b & a,
        (a & b) & c == a & (b & c),
{
}

/// Symmetric difference of bit patterns — and with it
/// [`crate::flags::Flags::symmetric_difference`] and `^` — is commutative.
pub proof fn lemma_symmetric_difference_commutative(a: u128, b: u128)
    by (bit_vector)
    ensures
        a ^ b == b ^ a,
{
}

/// The zero-flag paradox: an entry declared with value zero is contained
/// in every value — `x.contains(zero)` holds for all `x` — and yet that
/// zero value is itself empty, since [`crate::flags::Flags::is_empty`]'s
/// contract asks only whether any raw bit is set, and it has none.
pub proof fn lemma_zero_flag_paradox(x: u128)
    ensures
        spec_contains(x, 0),
{
    lemma_bit_facts(x, 0, 0);
}

/// Whether every character is the grammar's whitespace.
pub open spec fn all_ws(p: Seq<char>) -> bool {
    forall|i: int| 0 <= i < p.len() ==> is_flag_ws(#[trigger] p[i])
}

/// A flag name the text codec round-trips: nonempty, free of separators
/// and whitespace, and not mistakable for a hex number.
pub open spec fn wf_name(n: Seq<char>) -> bool {
    &&& n.len() > 0
    &&& forall|i: int| 0 <= i < n.len() ==> (#[trigger] n[i]) != '|' && !is_flag_ws(n[i])
    &&& !(n.len() >= 2 && n[0] == '0' && n[1] == 'x')
}

/// A table whose rendering always parses back: every name is well formed
/// and no two entries share a name.
pub open spec fn parseable_names(t: Seq<FlagModel>) -> bool {
    &&& forall|i: int|
        0 <= i < t.len() && (#[trigger] t[i].0) is Some ==> wf_name(t[i].0->0)
    &&& forall|i: int, j: int|
        0 <= i < t.len() && 0 <= j < t.len() && (#[trigger] t[i].0) is Some && t[i].0 == (
        #[trigger] t[j].0) ==> i == j
}

/// Whether every entry's bits lie within a mask.
pub open spec fn entries_within(t: Seq<FlagModel>, mask: u128) -> bool {
    forall|i: int| 0 <= i < t.len() ==> #[trigger] (t[i].1) & mask == t[i].1
}

/// The bits the canonical rendering speaks for, from entry `i` onward: the
/// matched entries' bits and the unclaimed remainder.
pub open spec fn fmt_value(t: Seq<FlagModel>, i: int, source: u128, state: u128) -> u128
    decreases t.len() - i,
{
    if state == 0 {
        0u128
    } else if i < 0 || i >= t.len() {
        state
    } else if entry_matched(t[i], source, state) {
        t[i].1 | fmt_value(t, i + 1, source, state & !t[i].1)
    } else {
        fmt_value(t, i + 1, source, state)
    }
}

/// The rendered bits are the yielded bits together with the remainder.
proof fn lemma_fmt_value_is(t: Seq<FlagModel>, i: int, source: u128, state: u128)
    ensures
        fmt_value(t, i, source, state) == or_of(yield_bits(t, i, source, state)) | iter_state(
            t,
            i,
            source,
            state,
        ),
    decreases t.len() - i,
{
    if state == 0 {
        lemma_bit_facts(0, 0, 0);
    } else if i < 0 || i >= t.len() {
        lemma_bit_facts(state, 0, 0);
    } else if entry_matched(t[i], source, state) {
        let e = t[i].1;
        lemma_fmt_value_is(t, i + 1, source, state & !e);
        assert(yield_bits(t, i, source, state) =~= seq![e] + yield_bits(
            t,
            i + 1,
            source,
            state & !e,
        ));
        assert(yield_bits(t, i, source, state).drop_first() =~= yield_bits(
            t,
            i + 1,
            source,
            state & !e,
        ));
        lemma_bit_facts(
            e,
            or_of(yield_bits(t, i + 1, source, state & !e)),
            iter_state(t, i + 1, source, state & !e),
        );
    } else {
        lemma_fmt_value_is(t, i + 1, source, state);
    }
}

/// From the top of the table, the rendered bits are the value's bits.
proof fn lemma_fmt_value_top(t: Seq<FlagModel>, b: u128)
    ensures
        fmt_value(t, 0, b, b) == b,
{
    lemma_fmt_value_is(t, 0, b, b);
    lemma_iter_state_clears(t, 0, b, b);
    lemma_iter_yields_in_source(t, 0, b, b);
    lemma_bit_facts(b, or_of(yield_bits(t, 0, b, b)), 0);
}

/// A hex digit character denotes its digit and is neither a separator nor
/// whitespace.
proof fn lemma_hex_digit_char_props(d: u128)
    requires
        d < 16,
    ensures
        is_hex_digit(hex_digit_char(d)),
        hex_digit_val(hex_digit_char(d)) == d,
        hex_digit_char(d) != '|',
        !is_flag_ws(hex_digit_char(d)),
{
}

/// The rendering of a number in hex is nonempty, all hex digits — hence
/// free of separators and whitespace — and denotes the number itself.
proof fn lemma_hex_digits_props(v: u128)
    ensures
        hex_digits(v).len() >= 1,
        all_hex(hex_digits(v)),
        hex_value(hex_digits(v)) == v,
        forall|k: int|
            0 <= k < hex_digits(v).len() ==> (#[trigger] hex_digits(v)[k]) != '|' && !is_flag_ws(
                hex_digits(v)[k],
            ),
    decreases v,
{
    if v < 16 {
        lemma_hex_digit_char_props(v);
        let hd = hex_digits(v);
        assert(hd == seq![hex_digit_char(v)]);
        assert(hd.drop_last() =~= Seq::<char>::empty());
        assert(hex_value(hd.drop_last()) == 0);
        assert(hd.last() == hex_digit_char(v));
        assert(hex_value(hd) == hex_digit_val(hex_digit_char(v)));
    } else {
        lemma_hex_digits_props(v / 16);
        lemma_hex_digit_char_props(v % 16);
        let hd = hex_digits(v);
        assert(hd == hex_digits(v / 16).push(hex_digit_char(v % 16)));
        assert(hd.drop_last() =~= hex_digits(v / 16));
        assert(hd.last() == hex_digit_char(v % 16));
        lemma_fundamental_div_mod(v as int, 16);
        assert forall|k: int|
            0 <= k < hd.len() implies (#[trigger] hd[k]) != '|' && !is_flag_ws(hd[k]) by {
            if k < hd.len() - 1 {
                assert(hd[k] == hex_digits(v / 16)[k]);
            }
        }
        assert forall|k: int| 0 <= k < hd.len() implies is_hex_digit(#[trigger] hd[k]) by {
            if k < hd.len() - 1 {
                assert(hd[k] == hex_digits(v / 16)[k]);
            }
        }
    }
}

/// A name that belongs to no entry is not found.
proof fn lemma_lookup_absent(t: Seq<FlagModel>, n: Seq<char>)
    requires
        forall|j: int| 0 <= j < t.len() ==> (#[trigger] t[j].0) != Some(n),
    ensures
        lookup_name(t, n) is None,
    decreases t.len(),
{
    if t.len() > 0 {
        assert forall|j: int|
            0 <= j < t.drop_last().len() implies (#[trigger] t.drop_last()[j].0) != Some(n) by {
            assert(t.drop_last()[j] == t[j]);
        }
        lemma_lookup_absent(t.drop_last(), n);
        assert(t[t.len() - 1] == t.last());
    }
}

/// Over a table with unambiguous names, looking an entry's name up finds
/// exactly that entry.
proof fn lemma_lookup_unique(t: Seq<FlagModel>, i: int)
    requires
        parseable_names(t),
        0 <= i < t.len(),
        t[i].0 is Some,
    ensures
        lookup_name(t, t[i].0->0) == Some(t[i].1),
    decreases t.len(),
{
    let n = t[i].0->0;
    assert(t[t.len() - 1] == t.last());
    if i == t.len() - 1 {
        assert forall|j: int|
            0 <= j < t.drop_last().len() implies (#[trigger] t.drop_last()[j].0) != Some(n) by {
            assert(t.drop_last()[j] == t[j]);
            if t[j].0 == Some(n) {
                assert(t[j].0 == t[i].0);
            }
        }
        lemma_lookup_absent(t.drop_last(), n);
    } else {
        assert forall|j: int, k: int|
            0 <= j < t.drop_last().len() && 0 <= k < t.drop_last().len() && (#[trigger] t.drop_last(
        )[j].0) is Some && t.drop_last()[j].0 == (#[trigger] t.drop_last()[k].0) implies j == k by {
            assert(t.drop_last()[j] == t[j]);
            assert(t.drop_last()[k] == t[k]);
        }
        assert forall|j: int|
            0 <= j < t.drop_last().len() && (#[trigger] t.drop_last()[j].0) is Some implies wf_name(
            t.drop_last()[j].0->0,
        ) by {
            assert(t.drop_last()[j] == t[j]);
        }
        assert(t.drop_last()[i] == t[i]);
        lemma_lookup_unique(t.drop_last(), i);
    }
}

/// Leading whitespace does not change what trimming leaves.
proof fn lemma_trim_ws_prefix(p: Seq<char>, s: Seq<char>)
    requires
        all_ws(p),
    ensures
        trim_of(p + s) == trim_of(s),
    decreases p.len(),
{
    if p.len() == 0 {
        assert(p + s =~= s);
    } else {
        assert((p + s)[0] == p[0]);
        assert((p + s).drop_first() =~= p.drop_first() + s);
        assert forall|i: int|
            0 <= i < p.drop_first().len() implies is_flag_ws(#[trigger] p.drop_first()[i]) by {
            assert(p.drop_first()[i] == p[i + 1]);
        }
        lemma_trim_ws_prefix(p.drop_first(), s);
    }
}

/// A token with no whitespace at either end trims to itself, with or
/// without one trailing space.
proof fn lemma_trim_token(n: Seq<char>)
    requires
        n.len() > 0,
        !is_flag_ws(n[0]),
        !is_flag_ws(n[n.len() - 1]),
    ensures
        trim_of(n) == n,
        trim_of(n.push(' ')) == n,
{
    assert(n.first() == n[0]);
    assert(n.last() == n[n.len() - 1]);
    assert(n.push(' ')[0] == n[0]);
    assert(n.push(' ').first() == n[0]);
    assert(n.push(' ').last() == ' ');
    assert(n.push(' ').drop_last() =~= n);
}

/// A rendering that continues an output line is the separator followed by
/// the same rendering starting fresh.
proof fn lemma_format_first(t: Seq<FlagModel>, i: int, source: u128, state: u128)
    requires
        state != 0,
    ensures
        spec_format_at(t, i, source, state, false) == sep_chars() + spec_format_at(
            t,
            i,
            source,
            state,
            true,
        ),
    decreases t.len() - i,
{
    if i < 0 || i >= t.len() {
        assert(spec_format_at(t, i, source, state, false) =~= sep_chars() + spec_format_at(
            t,
            i,
            source,
            state,
            true,
        ));
    } else if entry_matched(t[i], source, state) {
        assert(spec_format_at(t, i, source, state, false) =~= sep_chars() + spec_format_at(
            t,
            i,
            source,
            state,
            true,
        ));
    } else {
        lemma_format_first(t, i + 1, source, state);
    }
}

/// A nonempty rendering neither starts nor ends with whitespace.
proof fn lemma_format_shape(t: Seq<FlagModel>, i: int, source: u128, state: u128)
    requires
        parseable_names(t),
        state != 0,
    ensures
        ({
            let s = spec_format_at(t, i, source, state, true);
            s.len() > 0 && !is_flag_ws(s[0]) && !is_flag_ws(s[s.len() - 1])
        }),
    decreases t.len() - i,
{
    let s = spec_format_at(t, i, source, state, true);
    if i < 0 || i >= t.len() {
        lemma_hex_digits_props(state);
        let hd = hex_digits(state);
        assert(s =~= hex_prefix_chars() + hd);
        assert(s[0] == '0');
        assert(s[s.len() - 1] == hd[hd.len() - 1]);
    } else if entry_matched(t[i], source, state) {
        let n = t[i].0->0;
        let st2 = state & !t[i].1;
        assert(wf_name(n));
        let rest = spec_format_at(t, i + 1, source, st2, false);
        assert(s =~= n + rest);
        assert(s[0] == n[0]);
        if st2 == 0 {
            assert(rest =~= Seq::<char>::empty());
            assert(s =~= n);
            assert(s[s.len() - 1] == n[n.len() - 1]);
        } else {
            lemma_format_first(t, i + 1, source, st2);
            lemma_format_shape(t, i + 1, source, st2);
            let tail = spec_format_at(t, i + 1, source, st2, true);
            assert(s =~= n + sep_chars() + tail);
            assert(s[s.len() - 1] == tail[tail.len() - 1]);
        }
    } else {
        lemma_format_shape(t, i + 1, source, state);
    }
}

/// Parsing an all-whitespace-padded rendering from entry `i` onward gives
/// exactly the bits the rendering speaks for.
proof fn lemma_roundtrip_padded(
    t: Seq<FlagModel>,
    mask: u128,
    i: int,
    source: u128,
    state: u128,
    p: Seq<char>,
)
    requires
        parseable_names(t),
        entries_within(t, mask),
        state & mask == state,
        state != 0,
        0 <= i,
        all_ws(p),
    ensures
        segs_parse(t, mask, p + spec_format_at(t, i, source, state, true)) == Ok::<
            u128,
            ParseErrorKind,
        >(fmt_value(t, i, source, state)),
    decreases t.len() - i,
{
    let s = p + spec_format_at(t, i, source, state, true);
    assert forall|k: int| 0 <= k < p.len() implies s[k] != '|' && is_flag_ws(#[trigger] s[k]) by {
        assert(s[k] == p[k]);
    }
    if i >= t.len() {
        lemma_hex_digits_props(state);
        let hd = hex_digits(state);
        let hx = hex_prefix_chars() + hd;
        assert(spec_format_at(t, i, source, state, true) =~= hx);
        assert forall|k: int| 0 <= k < s.len() implies (#[trigger] s[k]) != '|' by {
            if k >= p.len() {
                assert(s[k] == hx[k - p.len()]);
                if k - p.len() >= 2 {
                    assert(hx[k - p.len()] == hd[k - p.len() - 2]);
                }
            }
        }
        lemma_first_sep_at(s, s.len() as int);
        lemma_trim_ws_prefix(p, hx);
        assert(hx[0] == '0');
        assert(hx[hx.len() - 1] == hd[hd.len() - 1]);
        lemma_trim_token(hx);
        let tok = trim_of(s);
        assert(tok == hx);
        assert(tok[0] == '0' && tok[1] == 'x');
        assert(tok.skip(2) =~= hd);
        lemma_bit_facts(state, mask, 0);
        assert(seg_parse(t, mask, s) == Ok::<u128, ParseErrorKind>(state));
        assert(fmt_value(t, i, source, state) == state);
    } else if entry_matched(t[i], source, state) {
        let e = t[i].1;
        let n = t[i].0->0;
        assert(wf_name(n));
        assert(t[i].1 & mask == t[i].1);
        lemma_mask_ops(state, e, mask);
        let st2 = state & !e;
        lemma_lookup_unique(t, i);
        let rest = spec_format_at(t, i + 1, source, st2, false);
        if st2 == 0 {
            assert(rest =~= Seq::<char>::empty());
            assert(s =~= p + n);
            assert forall|k: int| 0 <= k < s.len() implies (#[trigger] s[k]) != '|' by {
                if k >= p.len() {
                    assert(s[k] == n[k - p.len()]);
                }
            }
            lemma_first_sep_at(s, s.len() as int);
            lemma_trim_ws_prefix(p, n);
            lemma_trim_token(n);
            assert(trim_of(s) == n);
            assert(seg_parse(t, mask, s) == Ok::<u128, ParseErrorKind>(e));
            lemma_bit_facts(e, 0, 0);
            assert(fmt_value(t, i + 1, source, st2) == 0);
            assert(fmt_value(t, i, source, state) == e);
        } else {
            lemma_format_first(t, i + 1, source, st2);
            let tail = spec_format_at(t, i + 1, source, st2, true);
            assert(s =~= p + n + sep_chars() + tail);
            let m: int = (p.len() + n.len() + 1) as int;
            assert(s[m] == '|');
            assert forall|k: int| 0 <= k < m implies (#[trigger] s[k]) != '|' by {
                if p.len() <= k < p.len() + n.len() {
                    assert(s[k] == n[k - p.len()]);
                } else if k == p.len() + n.len() {
                    assert(s[k] == sep_chars()[0]);
                }
            }
            lemma_first_sep_at(s, m);
            assert(s.take(m) =~= p + n.push(' '));
            lemma_trim_ws_prefix(p, n.push(' '));
            lemma_trim_token(n);
            assert(trim_of(s.take(m)) == n);
            assert(seg_parse(t, mask, s.take(m)) == Ok::<u128, ParseErrorKind>(e));
            assert(s.skip(m + 1) =~= seq![' '] + tail);
            assert(all_ws(seq![' ']));
            lemma_roundtrip_padded(t, mask, i + 1, source, st2, seq![' ']);
            assert(segs_parse(t, mask, s.skip(m + 1)) == Ok::<u128, ParseErrorKind>(
                fmt_value(t, i + 1, source, st2),
            ));
            assert(fmt_value(t, i, source, state) == e | fmt_value(t, i + 1, source, st2));
        }
    } else {
        assert(spec_format_at(t, i, source, state, true) == spec_format_at(
            t,
            i + 1,
            source,
            state,
            true,
        ));
        lemma_roundtrip_padded(t, mask, i + 1, source, state, p);
    }
}

/// Text round-trip: for every value — unknown-bit-bearing values included
/// — parsing the canonical rendering gives the value back, over any table
/// whose entries fit the storage width and whose names are well formed and
/// unambiguous.
pub proof fn lemma_parse_format_roundtrip(t: Seq<FlagModel>, mask: u128, b: u128)
    requires
        parseable_names(t),
        entries_within(t, mask),
        b & mask == b,
    ensures
        spec_parse(t, mask, spec_format(t, b)) == Ok::<u128, ParseErrorKind>(b),
{
    let s = spec_format(t, b);
    if b == 0 {
        assert(s =~= Seq::<char>::empty());
    } else {
        lemma_format_shape(t, 0, b, b);
        assert(s.first() == s[0]);
        assert(s.last() == s[s.len() - 1]);
        assert(trim_of(s) == s);
        lemma_roundtrip_padded(t, mask, 0, b, b, Seq::empty());
        assert(Seq::<char>::empty() + s =~= s);
        lemma_fmt_value_top(t, b);
    }
}

} // verus!
