//! Formatting flags as text.
//!
//! The canonical text form is `NAME | NAME | 0xHEX`: the names yielded by
//! the named iterator, joined by `" | "`, followed by one lowercase hex
//! number for whatever bits no named entry claimed.  An all-zero value
//! formats as the empty string.  The parser in [`crate::parser`] is the
//! exact left inverse of this formatter.

use vstd::prelude::*;

use crate::bits::Bits;
use crate::flags::FlagModel;
use crate::flags::Flags;
use crate::iter::entry_matched;
use crate::text::push_str;
use crate::text::clone_string;

verus! {

/// The separator written between rendered flags.
pub open spec fn sep_chars() -> Seq<char> {
    seq![' ', '|', ' ']
}

/// The prefix of a hex-rendered group of bits.
pub open spec fn hex_prefix_chars() -> Seq<char> {
    seq!['0', 'x']
}

/// The lowercase hex digit for a value below sixteen.
pub open spec fn hex_digit_char(d: u128) -> char {
    if d == 0 {
        '0'
    } else if d == 1 {
        '1'
    } else if d == 2 {
        '2'
    } else if d == 3 {
        '3'
    } else if d == 4 {
        '4'
    } else if d == 5 {
        '5'
    } else if d == 6 {
        '6'
    } else if d == 7 {
        '7'
    } else if d == 8 {
        '8'
    } else if d == 9 {
        '9'
    } else if d == 10 {
        'a'
    } else if d == 11 {
        'b'
    } else if d == 12 {
        'c'
    } else if d == 13 {
        'd'
    } else if d == 14 {
        'e'
    } else {
        'f'
    }
}

/// The lowercase hex digits of a value, most significant first, with no
/// leading zeros (a lone zero for the value zero).
pub open spec fn hex_digits(v: u128) -> Seq<char>
    decreases v,
{
    if v < 16 {
        seq![hex_digit_char(v)]
    } else {
        hex_digits(v / 16).push(hex_digit_char(v % 16))
    }
}

/// The canonical rendering from entry `i` onward, given the unclaimed bits
/// `state` and whether nothing has been written yet.
pub open spec fn spec_format_at(
    t: Seq<FlagModel>,
    i: int,
    source: u128,
    state: u128,
    first: bool,
) -> Seq<char>
    decreases t.len() - i,
{
    if state == 0 {
        Seq::empty()
    } else if i < 0 || i >= t.len() {
        (if first {
            Seq::<char>::empty()
        } else {
            sep_chars()
        }) + hex_prefix_chars() + hex_digits(state)
    } else if entry_matched(t[i], source, state) {
        (if first {
            Seq::<char>::empty()
        } else {
            sep_chars()
        }) + t[i].0->0 + spec_format_at(t, i + 1, source, state & !t[i].1, false)
    } else {
        spec_format_at(t, i + 1, source, state, first)
    }
}

/// The canonical text of a value with bits `b` over the table `t`.
pub open spec fn spec_format(t: Seq<FlagModel>, b: u128) -> Seq<char> {
    spec_format_at(t, 0, b, b, true)
}

/// Appends the lowercase hex digit of a value below sixteen.
fn push_hex_digit(out: &mut String, d: u128)
    requires
        d < 16,
    ensures
        final(out)@ == old(out)@ + seq![hex_digit_char(d)],
{
    if d == 0 {
        push_str(out, "0");
        proof {
            reveal_strlit("0");
            assert(final(out)@ =~= old(out)@ + seq![hex_digit_char(d)]);
        }
    } else if d == 1 {
        push_str(out, "1");
        proof {
            reveal_strlit("1");
            assert(final(out)@ =~= old(out)@ + seq![hex_digit_char(d)]);
        }
    } else if d == 2 {
        push_str(out, "2");
        proof {
            reveal_strlit("2");
            assert(final(out)@ =~= old(out)@ + seq![hex_digit_char(d)]);
        }
    } else if d == 3 {
        push_str(out, "3");
        proof {
            reveal_strlit("3");
            assert(final(out)@ =~= old(out)@ + seq![hex_digit_char(d)]);
        }
    } else if d == 4 {
        push_str(out, "4");
        proof {
            reveal_strlit("4");
            assert(final(out)@ =~= old(out)@ + seq![hex_digit_char(d)]);
        }
    } else if d == 5 {
        push_str(out, "5");
        proof {
            reveal_strlit("5");
            assert(final(out)@ =~= old(out)@ + seq![hex_digit_char(d)]);
        }
    } else if d == 6 {
        push_str(out, "6");
        proof {
            reveal_strlit("6");
            assert(final(out)@ =~= old(out)@ + seq![hex_digit_char(d)]);
        }
    } else if d == 7 {
        push_str(out, "7");
        proof {
            reveal_strlit("7");
            assert(final(out)@ =~= old(out)@ + seq![hex_digit_char(d)]);
        }
    } else if d == 8 {
        push_str(out, "8");
        proof {
            reveal_strlit("8");
            assert(final(out)@ =~= old(out)@ + seq![hex_digit_char(d)]);
        }
    } else if d == 9 {
        push_str(out, "9");
        proof {
            reveal_strlit("9");
            assert(final(out)@ =~= old(out)@ + seq![hex_digit_char(d)]);
        }
    } else if d == 10 {
        push_str(out, "a");
        proof {
            reveal_strlit("a");
            assert(final(out)@ =~= old(out)@ + seq![hex_digit_char(d)]);
        }
    } else if d == 11 {
        push_str(out, "b");
        proof {
            reveal_strlit("b");
            assert(final(out)@ =~= old(out)@ + seq![hex_digit_char(d)]);
        }
    } else if d == 12 {
        push_str(out, "c");
        proof {
            reveal_strlit("c");
            assert(final(out)@ =~= old(out)@ + seq![hex_digit_char(d)]);
        }
    } else if d == 13 {
        push_str(out, "d");
        proof {
            reveal_strlit("d");
            assert(final(out)@ =~= old(out)@ + seq![hex_digit_char(d)]);
        }
    } else if d == 14 {
        push_str(out, "e");
        proof {
            reveal_strlit("e");
            assert(final(out)@ =~= old(out)@ + seq![hex_digit_char(d)]);
        }
    } else {
        push_str(out, "f");
        proof {
            reveal_strlit("f");
            assert(final(out)@ =~= old(out)@ + seq![hex_digit_char(d)]);
        }
    }
}

/// Appends the lowercase hex digits of a value, most significant first.
fn push_hex(out: &mut String, v: u128)
    ensures
        final(out)@ == old(out)@ + hex_digits(v),
    decreases v,
{
    if v < 16 {
        push_hex_digit(out, v);
    } else {
        push_hex(out, v / 16);
        push_hex_digit(out, v % 16);
        proof {
            assert(final(out)@ =~= old(out)@ + hex_digits(v));
        }
    }
}

/// Appends the canonical text of a flags value to a string.
///
/// The names of the set flags come first, in table order, joined by
/// `" | "`; any bits that correspond to no named entry follow as one
/// lowercase hex number.  An all-zero value appends nothing.
pub fn to_writer<'a, B: Bits>(flags: &Flags<'a, B>, writer: &mut String)
    ensures
        final(writer)@ == old(writer)@ + spec_format(flags.spec_table(), flags@),
{
    let ghost t = flags.spec_table();
    let table = flags.table;
    let src: u128 = flags.bits.to_pattern();
    let mut state: u128 = src;
    let mut first: bool = true;
    let n: usize = table.entries.len();
    let mut i: usize = 0;
    while i < n
        invariant
            0 <= i <= n,
            n == table.entries.len(),
            t == table@,
            src == flags@,
            t == flags.spec_table(),
            writer@ + spec_format_at(t, i as int, src, state, first) == old(writer)@
                + spec_format_at(t, 0, src, src, true),
        decreases n - i,
    {
        let e: u128 = table.entries[i].value.to_pattern();
        let ghost w_before = writer@;
        proof {
            assert(t[i as int] == table.entries@[i as int]@);
        }
        match &table.entries[i].name {
            Some(entry_name) => {
                if (src & e == e) && (state & e != 0) {
                    if !first {
                        push_str(writer, " | ");
                        proof {
                            reveal_strlit(" | ");
                            assert(" | "@ =~= sep_chars());
                        }
                    }
                    push_str(writer, entry_name.as_str());
                    proof {
                        assert(e == t[i as int].1);
                        assert(state != 0) by (bit_vector)
                            requires
                                state & e != 0,
                        ;
                        assert(entry_matched(t[i as int], src, state));
                        assert(writer@ =~= w_before + (
                        if first {
                            Seq::<char>::empty()
                        } else {
                            sep_chars()
                        }) + t[i as int].0->0);
                        assert(writer@ + spec_format_at(t, i + 1, src, state & !e, false)
                            =~= w_before + spec_format_at(t, i as int, src, state, first));
                    }
                    state = state & !e;
                    first = false;
                } else {
                    proof {
                        assert(spec_format_at(t, i + 1, src, state, first) == spec_format_at(
                            t,
                            i as int,
                            src,
                            state,
                            first,
                        ));
                    }
                }
            },
            None => {
                proof {
                    assert(spec_format_at(t, i + 1, src, state, first) == spec_format_at(
                        t,
                        i as int,
                        src,
                        state,
                        first,
                    ));
                }
            },
        }
        i = i + 1;
    }
    if state != 0 {
        let ghost w_before = writer@;
        if !first {
            push_str(writer, " | ");
            proof {
                reveal_strlit(" | ");
                assert(" | "@ =~= sep_chars());
            }
        }
        push_str(writer, "0x");
        proof {
            reveal_strlit("0x");
            assert("0x"@ =~= hex_prefix_chars());
        }
        push_hex(writer, state);
        proof {
            assert(writer@ =~= w_before + spec_format_at(t, n as int, src, state, first));
        }
    }
}

impl<'a, B: Bits> Flags<'a, B> {
    /// The canonical text of this value: set flag names joined by `" | "`,
    /// then a hex number for any remaining unnamed bits; empty for zero.
    pub fn to_text(&self) -> (r: String)
        ensures
            r@ == spec_format(self.spec_table(), self@),
    {
        let mut s = String::new();
        to_writer(self, &mut s);
        proof {
            assert(s@ =~= spec_format(self.spec_table(), self@));
        }
        s
    }

    /// The diagnostic text of this value: the table's label around the
    /// canonical text, with `0x0` standing in for an all-zero value so the
    /// output is never empty.
    pub fn debug_text(&self) -> (r: String)
        ensures
            r@ == self.table.label@ + seq!['('] + (
            if self@ == 0 {
                seq!['0', 'x', '0']
            } else {
                spec_format(self.spec_table(), self@)
            }) + seq![')'],
    {
        let mut s = clone_string(&self.table.label);
        push_str(&mut s, "(");
        if self.is_empty() {
            push_str(&mut s, "0x0");
        } else {
            to_writer(self, &mut s);
        }
        push_str(&mut s, ")");
        proof {
            reveal_strlit("(");
            reveal_strlit(")");
            reveal_strlit("0x0");
            assert(s@ =~= self.table.label@ + seq!['('] + (
            if self@ == 0 {
                seq!['0', 'x', '0']
            } else {
                spec_format(self.spec_table(), self@)
            }) + seq![')']);
        }
        s
    }
}

} // verus!
