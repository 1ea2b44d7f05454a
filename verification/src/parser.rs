//! Parsing flags from text.
//!
//! The grammar is whitespace-insensitive around `|` and case-sensitive in
//! names:
//!
//! ```text
//! Flags := Flag ('|' Flag)*  |  ε
//! Flag  := Identifier | '0x' HexDigit+
//! ```
//!
//! Empty input parses to the empty value.  A `0x` token parses as hex of
//! the storage width and is kept verbatim, unknown bits included; any other
//! token must name a declared flag.  All parsed components are combined
//! with union.  The first offending token decides the error: an empty slot
//! between separators, an unknown name, or a malformed or too-wide hex
//! number.

use vstd::prelude::*;

use crate::bits::Bits;
use crate::bits::lemma_mask_ops;
use crate::flags::FlagModel;
use crate::flags::FlagTable;
use crate::flags::Flags;
use crate::flags::lookup_name;
use crate::text::str_eq_range;
use crate::text::to_char_vec;

verus! {

/// The kind of a parse failure.
#[derive(Debug, Clone, Copy)]
pub enum ParseErrorKind {
    /// A `|`-separated slot held no token at all.
    EmptyFlag,
    /// A token matched no declared flag name.
    InvalidNamedFlag,
    /// A `0x`-prefixed token was not a hex number of the storage width.
    InvalidHexFlag,
}

/// An error encountered while parsing flags from text.
///
/// The error records only what went wrong, not the offending text: callers
/// that need the text still hold the input they passed in.
#[derive(Debug, Clone, Copy)]
pub struct ParseError {
    /// What went wrong.
    pub kind: ParseErrorKind,
}

/// The human-readable message of each error kind.
pub open spec fn message_of(k: ParseErrorKind) -> Seq<char> {
    match k {
        ParseErrorKind::EmptyFlag => "encountered empty flag"@,
        ParseErrorKind::InvalidNamedFlag => "unrecognized named flag"@,
        ParseErrorKind::InvalidHexFlag => "invalid hex flag"@,
    }
}

impl ParseError {
    /// An invalid hex flag was encountered.
    pub fn invalid_hex_flag() -> (r: Self)
        ensures
            r.kind == ParseErrorKind::InvalidHexFlag,
    {
        ParseError { kind: ParseErrorKind::InvalidHexFlag }
    }

    /// A named flag that corresponds to no declared flag was encountered.
    pub fn invalid_named_flag() -> (r: Self)
        ensures
            r.kind == ParseErrorKind::InvalidNamedFlag,
    {
        ParseError { kind: ParseErrorKind::InvalidNamedFlag }
    }

    /// A hex or named flag wasn't found between separators.
    pub fn empty_flag() -> (r: Self)
        ensures
            r.kind == ParseErrorKind::EmptyFlag,
    {
        ParseError { kind: ParseErrorKind::EmptyFlag }
    }

    /// The human-readable message of this error.
    pub fn message(&self) -> (r: String)
        ensures
            r@ == message_of(self.kind),
    {
        match self.kind {
            ParseErrorKind::EmptyFlag => "encountered empty flag".to_owned(),
            ParseErrorKind::InvalidNamedFlag => "unrecognized named flag".to_owned(),
            ParseErrorKind::InvalidHexFlag => "invalid hex flag".to_owned(),
        }
    }
}

/// The whitespace the grammar ignores around tokens.
pub open spec fn is_flag_ws(c: char) -> bool {
    c == ' ' || c == '\t' || c == '\n' || c == '\r' || c == '\u{000C}'
}

/// The characters left when leading and trailing whitespace is removed.
pub open spec fn trim_of(s: Seq<char>) -> Seq<char>
    decreases s.len(),
{
    if s.len() == 0 {
        s
    } else if is_flag_ws(s.first()) {
        trim_of(s.drop_first())
    } else if is_flag_ws(s.last()) {
        trim_of(s.drop_last())
    } else {
        s
    }
}

/// Whether a character is a hex digit of either case.
pub open spec fn is_hex_digit(c: char) -> bool {
    (48 <= c as u32 && c as u32 <= 57) || (97 <= c as u32 && c as u32 <= 102) || (65 <= c as u32
        && c as u32 <= 70)
}

/// The value of a hex digit of either case.
pub open spec fn hex_digit_val(c: char) -> u128 {
    if 48 <= c as u32 && c as u32 <= 57 {
        (c as u32 - 48) as u128
    } else if 97 <= c as u32 && c as u32 <= 102 {
        (c as u32 - 87) as u128
    } else if 65 <= c as u32 && c as u32 <= 70 {
        (c as u32 - 55) as u128
    } else {
        0
    }
}

/// Whether every character is a hex digit.
pub open spec fn all_hex(s: Seq<char>) -> bool {
    forall|i: int| 0 <= i < s.len() ==> is_hex_digit(#[trigger] s[i])
}

/// The number a string of hex digits denotes, most significant digit first.
pub open spec fn hex_value(s: Seq<char>) -> int
    decreases s.len(),
{
    if s.len() == 0 {
        0int
    } else {
        hex_value(s.drop_last()) * 16 + hex_digit_val(s.last())
    }
}

/// The index of the first `|`, or the length when there is none.
pub open spec fn first_sep(s: Seq<char>) -> nat
    decreases s.len(),
{
    if s.len() == 0 {
        0nat
    } else if s.first() == '|' {
        0nat
    } else {
        1 + first_sep(s.drop_first())
    }
}

/// The result of parsing one already-split `|`-slot: its raw text is
/// trimmed, then read as a hex number or a declared flag name.
pub open spec fn seg_parse(t: Seq<FlagModel>, mask: u128, seg: Seq<char>) -> Result<
    u128,
    ParseErrorKind,
> {
    let tok = trim_of(seg);
    if tok.len() == 0 {
        Err(ParseErrorKind::EmptyFlag)
    } else if tok.len() >= 2 && tok[0] == '0' && tok[1] == 'x' {
        let h = tok.skip(2);
        if h.len() > 0 && all_hex(h) && hex_value(h) <= mask {
            Ok(hex_value(h) as u128)
        } else {
            Err(ParseErrorKind::InvalidHexFlag)
        }
    } else {
        match lookup_name(t, tok) {
            Some(p) => Ok(p),
            None => Err(ParseErrorKind::InvalidNamedFlag),
        }
    }
}

/// The result of parsing a nonempty, outer-trimmed input: the slots are
/// read left to right, their values are combined with union, and the first
/// offending slot decides the error.
pub open spec fn segs_parse(t: Seq<FlagModel>, mask: u128, s: Seq<char>) -> Result<
    u128,
    ParseErrorKind,
>
    decreases s.len(),
{
    let i = first_sep(s) as int;
    if i >= s.len() {
        seg_parse(t, mask, s)
    } else {
        match seg_parse(t, mask, s.take(i)) {
            Ok(p) => match segs_parse(t, mask, s.skip(i + 1)) {
                Ok(rest) => Ok(p | rest),
                Err(e) => Err(e),
            },
            Err(e) => Err(e),
        }
    }
}

/// The result of parsing flags from text: the empty (all-whitespace) input
/// gives the empty value, anything else is read slot by slot.
pub open spec fn spec_parse(t: Seq<FlagModel>, mask: u128, s: Seq<char>) -> Result<
    u128,
    ParseErrorKind,
> {
    let w = trim_of(s);
    if w.len() == 0 {
        Ok(0u128)
    } else {
        segs_parse(t, mask, w)
    }
}

/// Whether a character is the grammar's whitespace.
fn ws_char(c: char) -> (r: bool)
    ensures
        r == is_flag_ws(c),
{
    c == ' ' || c == '\t' || c == '\n' || c == '\r' || c == '\u{000C}'
}

/// The window `v[lo..hi]` with its leading and trailing whitespace removed.
fn trim_window(v: &Vec<char>, lo: usize, hi: usize) -> (r: (usize, usize))
    requires
        lo <= hi <= v@.len(),
    ensures
        lo <= r.0 <= r.1 <= hi,
        v@.subrange(r.0 as int, r.1 as int) == trim_of(v@.subrange(lo as int, hi as int)),
{
    let mut a: usize = lo;
    let mut b: usize = hi;
    while a < b && ws_char(v[a])
        invariant
            lo <= a <= b <= hi <= v@.len(),
            b == hi,
            trim_of(v@.subrange(a as int, b as int)) == trim_of(
                v@.subrange(lo as int, hi as int),
            ),
        decreases b - a,
    {
        proof {
            assert(v@.subrange(a as int, b as int).first() == v@[a as int]);
            assert(v@.subrange(a as int, b as int).drop_first() =~= v@.subrange(
                a + 1,
                b as int,
            ));
        }
        a = a + 1;
    }
    while a < b && ws_char(v[b - 1])
        invariant
            lo <= a <= b <= hi <= v@.len(),
            a < b ==> !is_flag_ws(v@[a as int]),
            trim_of(v@.subrange(a as int, b as int)) == trim_of(
                v@.subrange(lo as int, hi as int),
            ),
        decreases b - a,
    {
        proof {
            assert(v@.subrange(a as int, b as int).first() == v@[a as int]);
            assert(v@.subrange(a as int, b as int).last() == v@[b - 1]);
            assert(v@.subrange(a as int, b as int).drop_last() =~= v@.subrange(
                a as int,
                b - 1,
            ));
        }
        b = b - 1;
    }
    proof {
        if a < b {
            assert(v@.subrange(a as int, b as int).first() == v@[a as int]);
            assert(v@.subrange(a as int, b as int).last() == v@[b - 1]);
        }
    }
    (a, b)
}

/// Sixteen times a number relates to a bound exactly as the number relates
/// to a sixteenth of the bound.
proof fn lemma_times16(a: int, q: int)
    by (nonlinear_arith)
    requires
        a >= 0,
        q >= 0,
    ensures
        a <= q / 16 ==> 16 * a <= q,
        a > q / 16 ==> 16 * a > q,
{
}

/// A hex number is never negative.
proof fn lemma_hex_nonneg(s: Seq<char>)
    ensures
        hex_value(s) >= 0,
    decreases s.len(),
{
    if s.len() > 0 {
        lemma_hex_nonneg(s.drop_last());
    }
}

/// A hex number is at least the number its first digits denote.
proof fn lemma_hex_prefix_le(s: Seq<char>, i: int)
    requires
        0 <= i <= s.len(),
    ensures
        hex_value(s.subrange(0, i)) <= hex_value(s),
    decreases s.len() - i,
{
    if i == s.len() {
        assert(s.subrange(0, i) =~= s);
    } else {
        lemma_hex_prefix_le(s, i + 1);
        assert(s.subrange(0, i + 1).drop_last() =~= s.subrange(0, i));
        lemma_hex_nonneg(s.subrange(0, i));
    }
}

/// The number denoted by the hex digits `v[lo..hi]`, when they are
/// nonempty, all hex, and fit in the width that `mask` describes.
fn parse_hex_window<B: Bits>(v: &Vec<char>, lo: usize, hi: usize) -> (r: Option<u128>)
    requires
        lo <= hi <= v@.len(),
    ensures
        ({
            let h = v@.subrange(lo as int, hi as int);
            if h.len() > 0 && all_hex(h) && hex_value(h) <= B::spec_mask() {
                r is Some && r.unwrap() as int == hex_value(h) && r.unwrap() & B::spec_mask()
                    == r.unwrap()
            } else {
                r is None
            }
        }),
{
    let ghost h = v@.subrange(lo as int, hi as int);
    if lo == hi {
        return None;
    }
    let m: u128 = B::mask();
    proof {
        B::lemma_mask_wide();
    }
    let mut acc: u128 = 0;
    let mut j: usize = lo;
    while j < hi
        invariant
            lo <= j <= hi <= v@.len(),
            m == B::spec_mask(),
            m >= 0xff,
            h == v@.subrange(lo as int, hi as int),
            all_hex(h.subrange(0, j - lo)),
            acc as int == hex_value(h.subrange(0, j - lo)),
            acc <= m,
        decreases hi - j,
    {
        let c: char = v[j];
        proof {
            assert(h[j - lo] == v@[j as int]);
        }
        let u: u32 = c as u32;
        let d: u128;
        if u >= 48 && u <= 57 {
            d = (u - 48) as u128;
        } else if u >= 97 && u <= 102 {
            d = (u - 87) as u128;
        } else if u >= 65 && u <= 70 {
            d = (u - 55) as u128;
        } else {
            proof {
                assert(!is_hex_digit(h[j - lo]));
            }
            return None;
        }
        proof {
            assert(d == hex_digit_val(h[j - lo]));
            assert(d <= 15);
        }
        if acc > (m - d) / 16 {
            proof {
                lemma_times16(acc as int, (m - d) as int);
                assert(h.subrange(0, j - lo + 1).drop_last() =~= h.subrange(0, j - lo));
                assert(hex_value(h.subrange(0, j - lo + 1)) > m);
                lemma_hex_prefix_le(h, j - lo + 1);
            }
            return None;
        }
        proof {
            lemma_times16(acc as int, (m - d) as int);
            assert(h.subrange(0, j - lo + 1).drop_last() =~= h.subrange(0, j - lo));
        }
        acc = acc * 16 + d;
        j = j + 1;
    }
    proof {
        assert(h.subrange(0, (hi - lo) as int) =~= h);
        B::lemma_mask_form(acc);
    }
    Some(acc)
}

/// If the first `m` characters are not `|` and the one after them, if any,
/// is, then `m` is where the first separator search ends.
pub(crate) proof fn lemma_first_sep_at(s: Seq<char>, m: int)
    requires
        0 <= m <= s.len(),
        forall|k: int| 0 <= k < m ==> s[k] != '|',
        m < s.len() ==> s[m] == '|',
    ensures
        first_sep(s) == m,
    decreases s.len(),
{
    if m == 0 {
    } else {
        assert(s[0] != '|');
        assert forall|k: int| 0 <= k < m - 1 implies s.drop_first()[k] != '|' by {
            assert(s.drop_first()[k] == s[k + 1]);
        }
        lemma_first_sep_at(s.drop_first(), m - 1);
    }
}

/// The value of the name `v[lo..hi]`, read against the table.
fn lookup_window<B: Bits>(table: &FlagTable<B>, v: &Vec<char>, lo: usize, hi: usize) -> (r: Option<
    u128,
>)
    requires
        lo <= hi <= v@.len(),
    ensures
        ({
            let tok = v@.subrange(lo as int, hi as int);
            match lookup_name(table@, tok) {
                Some(p) => r == Some(p) && p & B::spec_mask() == p,
                None => r is None,
            }
        }),
{
    let ghost t = table@;
    let ghost tok = v@.subrange(lo as int, hi as int);
    let n: usize = table.entries.len();
    let mut i: usize = 0;
    while i < n
        invariant
            0 <= i <= n,
            n == table.entries.len(),
            t == table@,
            tok == v@.subrange(lo as int, hi as int),
            lo <= hi <= v@.len(),
            lookup_name(t.subrange(0, i as int), tok) is None,
        decreases n - i,
    {
        proof {
            assert(t.subrange(0, i + 1).drop_last() =~= t.subrange(0, i as int));
            assert(t.subrange(0, i + 1).last() == t[i as int]);
        }
        let matched: bool = match &table.entries[i].name {
            Some(entry_name) => str_eq_range(entry_name.as_str(), v, lo, hi),
            None => false,
        };
        if matched {
            proof {
                crate::flags::lemma_lookup_extend(t, tok, i as int);
                table.entries@[i as int].value.lemma_pattern_in_mask();
            }
            return Some(table.entries[i].value.to_pattern());
        }
        i = i + 1;
    }
    proof {
        assert(t.subrange(0, n as int) =~= t);
    }
    None
}

/// Parses the slots of the nonempty window `v[lo..hi]`, left to right.
fn parse_segs_window<B: Bits>(table: &FlagTable<B>, v: &Vec<char>, lo: usize, hi: usize) -> (r:
    Result<u128, ParseError>)
    requires
        lo <= hi <= v@.len(),
    ensures
        ({
            let s = v@.subrange(lo as int, hi as int);
            match segs_parse(table@, B::spec_mask(), s) {
                Ok(p) => r is Ok && r->Ok_0 == p && p & B::spec_mask() == p,
                Err(k) => r is Err && r->Err_0.kind == k,
            }
        }),
    decreases hi - lo,
{
    let ghost s = v@.subrange(lo as int, hi as int);
    let mut j: usize = lo;
    while j < hi && v[j] != '|'
        invariant
            lo <= j <= hi <= v@.len(),
            s == v@.subrange(lo as int, hi as int),
            forall|k: int| lo <= k < j ==> v@[k] != '|',
        decreases hi - j,
    {
        j = j + 1;
    }
    proof {
        assert forall|k: int| 0 <= k < j - lo implies s[k] != '|' by {
            assert(s[k] == v@[lo + k]);
        }
        if (j as int) < hi as int {
            assert(s[j - lo] == v@[j as int]);
        }
        lemma_first_sep_at(s, j - lo);
    }
    let (a, b) = trim_window(v, lo, j);
    proof {
        if j < hi {
            assert(s.take(j - lo) =~= v@.subrange(lo as int, j as int));
        } else {
            assert(s =~= v@.subrange(lo as int, j as int));
        }
    }
    let ghost tok = trim_of(v@.subrange(lo as int, j as int));
    let seg_val: u128;
    if a == b {
        return Err(ParseError::empty_flag());
    }
    let two_more: bool = b - a >= 2;
    if two_more && v[a] == '0' && v[a + 1] == 'x' {
        proof {
            assert(tok[0] == v@[a as int]);
            assert(tok[1] == v@[a + 1]);
            assert(tok.skip(2) =~= v@.subrange(a + 2, b as int));
        }
        match parse_hex_window::<B>(v, a + 2, b) {
            Some(p) => {
                seg_val = p;
            },
            None => {
                return Err(ParseError::invalid_hex_flag());
            },
        }
    } else {
        proof {
            if tok.len() >= 2 {
                assert(tok[0] == v@[a as int]);
                assert(tok[1] == v@[a + 1]);
            }
        }
        match lookup_window(table, v, a, b) {
            Some(p) => {
                seg_val = p;
            },
            None => {
                return Err(ParseError::invalid_named_flag());
            },
        }
    }
    proof {
        assert(tok == trim_of(v@.subrange(lo as int, j as int)));
        assert(seg_parse(table@, B::spec_mask(), v@.subrange(lo as int, j as int))
            == Ok::<u128, ParseErrorKind>(seg_val));
    }
    if j == hi {
        return Ok(seg_val);
    }
    match parse_segs_window::<B>(table, v, j + 1, hi) {
        Ok(rest) => {
            proof {
                assert(s.skip(j - lo + 1) =~= v@.subrange(j + 1, hi as int));
                lemma_mask_ops(seg_val, rest, B::spec_mask());
            }
            Ok(seg_val | rest)
        },
        Err(e) => {
            proof {
                assert(s.skip(j - lo + 1) =~= v@.subrange(j + 1, hi as int));
            }
            Err(e)
        },
    }
}

/// Parses a set of flags from text.
///
/// Empty (or all-whitespace) input gives the empty value.  Otherwise the
/// input is split on `|`; each slot, trimmed of surrounding whitespace,
/// must be a `0x` hex number of the storage width — kept verbatim, unknown
/// bits included — or the name of a declared flag.  The slot values are
/// combined with union.  The first offending slot decides the error, as
/// [`spec_parse`] states.
pub fn from_str<'a, B: Bits>(table: &'a FlagTable<B>, input: &str) -> (r: Result<
    Flags<'a, B>,
    ParseError,
>)
    ensures
        ({
            match spec_parse(table@, B::spec_mask(), input@) {
                Ok(p) => r is Ok && r->Ok_0@ == p && r->Ok_0.table == table,
                Err(k) => r is Err && r->Err_0.kind == k,
            }
        }),
{
    let v = to_char_vec(input);
    let n: usize = v.len();
    proof {
        assert(v@.subrange(0, n as int) =~= input@);
    }
    let (a, b) = trim_window(&v, 0, n);
    if a == b {
        return Ok(table.empty());
    }
    match parse_segs_window::<B>(table, &v, a, b) {
        Ok(p) => Ok(table.from_bits_retain(B::from_pattern(p))),
        Err(e) => Err(e),
    }
}

/// Reading a value back from hex digits.
pub trait FromHex: Bits {
    /// Parses hex digits of either case (no `0x` prefix) into a value of
    /// the storage width; wider or malformed digits are an invalid hex
    /// flag.
    fn from_hex(input: &str) -> (r: Result<Self, ParseError>)
        ensures
            ({
                let h = input@;
                if h.len() > 0 && all_hex(h) && hex_value(h) <= Self::spec_mask() {
                    r is Ok && r->Ok_0.pattern() as int == hex_value(h)
                } else {
                    r is Err && r->Err_0.kind == ParseErrorKind::InvalidHexFlag
                }
            }),
    ;
}

impl<B: Bits> FromHex for B {
    fn from_hex(input: &str) -> (r: Result<Self, ParseError>) {
        let v = to_char_vec(input);
        let n: usize = v.len();
        proof {
            assert(v@.subrange(0, n as int) =~= input@);
        }
        match parse_hex_window::<B>(&v, 0, n) {
            Some(p) => Ok(B::from_pattern(p)),
            None => Err(ParseError::invalid_hex_flag()),
        }
    }
}

} // verus!
