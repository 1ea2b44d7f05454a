use std::sync::atomic::Ordering;

use bitflags::Atomic;
use bitflags::BitFlagsIter;
use bitflags::Flag;
use bitflags::FlagTable;
use bitflags::FromHex;
use bitflags::from_str;
use bitflags::to_writer;

fn abc_table() -> FlagTable<u8> {
    FlagTable::new(
        "Flags",
        vec![Flag::new("A", 1), Flag::new("B", 2), Flag::new("C", 4)],
    )
}

#[test]
fn iter_reconstructs_value() {
    // Collecting the canonical iterator with union reproduces the exact
    // bits, composite entries, overlaps and unknown bits included.
    let table = FlagTable::new(
        "Flags",
        vec![Flag::new("A", 0b001u8), Flag::new("B", 0b101), Flag::new("AB", 0b011)],
    );
    for bits in 0u8..=255 {
        let value = table.from_bits_retain(bits);
        let mut folded = table.empty();
        let mut iter = value.iter();
        while let Some(part) = iter.next() {
            folded = folded | part;
        }
        assert_eq!(bits, folded.bits(), "iterator did not reconstruct {:08b}", bits);
    }
}

#[test]
fn text_roundtrip_all_u8() {
    // parse(format(x)) == x for every u8 value over a table with a
    // composite entry, so some values carry unknown bits.
    let table = FlagTable::new(
        "Flags",
        vec![Flag::new("LOW", 0b0000_0011u8), Flag::new("HIGH", 0b1000_0000)],
    );
    for bits in 0u8..=255 {
        let value = table.from_bits_retain(bits);
        let mut s = String::new();
        to_writer(&value, &mut s);
        assert_eq!(value, from_str(&table, &s).unwrap(), "round trip of {:08b} via {}", bits, s);
    }
}

#[test]
fn truncate_idempotent() {
    let table = FlagTable::new(
        "Flags",
        vec![Flag::new("AB", 0b011u8), Flag::new("C", 0b100)],
    );
    for bits in 0u8..=255 {
        let once = table.from_bits_truncate(bits);
        let twice = table.from_bits_truncate(once.bits());
        assert_eq!(once, twice);
    }
    // A partially present composite is dropped whole.
    assert_eq!(0b100, table.from_bits_truncate(0b110).bits());
}

#[test]
fn from_bits_agrees_with_truncate() {
    // from_bits succeeds exactly when truncation would change nothing, so
    // a partially present composite entry is rejected even though its bits
    // lie inside all().
    let table = FlagTable::new("Flags", vec![Flag::new("AB", 0b11u8)]);
    for bits in 0u8..=255 {
        assert_eq!(
            table.from_bits(bits).is_some(),
            bits == table.from_bits_truncate(bits).bits()
        );
    }
    assert!(table.from_bits(0b01).is_none());
    assert!(table.from_bits(0b11).is_some());
}

#[test]
fn operators_match_named_methods() {
    let table = abc_table();
    let a = table.from_name("A").unwrap();
    let bc = table.from_name("B").unwrap() | table.from_name("C").unwrap();
    assert_eq!(a.union(bc), a | bc);
    assert_eq!(a.intersection(bc), a & bc);
    assert_eq!(a.difference(bc), a - bc);
    assert_eq!(a.symmetric_difference(bc), a ^ bc);
    assert_eq!(bc.complement(), !bc);
}

#[test]
fn union_intersection_laws() {
    let table = abc_table();
    let x = table.from_bits_retain(0b1010);
    let y = table.from_bits_retain(0b0110);
    let z = table.from_bits_retain(0b0011);
    assert_eq!(x | y, y | x);
    assert_eq!((x | y) | z, x | (y | z));
    assert_eq!(x & y, y & x);
    assert_eq!((x & y) & z, x & (y & z));
    assert_eq!(x ^ y, y ^ x);
}

#[test]
fn zero_flag_contained_everywhere() {
    let table = FlagTable::new("Flags", vec![Flag::new("ZERO", 0u8), Flag::new("ONE", 1)]);
    let zero = table.from_name("ZERO").unwrap();
    for bits in 0u8..=255 {
        assert!(table.from_bits_retain(bits).contains(zero));
    }
    assert!(zero.is_empty());
}

#[test]
fn overlapping_entries_both_yielded() {
    let table = FlagTable::new("Flags", vec![Flag::new("A", 0b001u8), Flag::new("B", 0b101)]);
    let value = table.from_bits_retain(0b101);
    let mut names = value.iter_names();
    let (first_name, first_value) = names.next().unwrap();
    assert_eq!("A", first_name);
    assert_eq!(0b001, first_value.bits());
    let (second_name, second_value) = names.next().unwrap();
    assert_eq!("B", second_name);
    assert_eq!(0b101, second_value.bits());
    assert!(names.next().is_none());
    assert_eq!(0, names.remaining().bits());
}

#[test]
fn complement_drops_unknown_bits() {
    let table = FlagTable::new("Flags", vec![Flag::new("A", 1u8)]);
    let a = table.from_name("A").unwrap();
    let value = table.from_bits_retain(0b10);
    assert_eq!(a, value.complement());
    assert_eq!(0b01, value.complement().bits());
}

#[test]
fn hex_and_name_mix_preserves_unknown_bits() {
    let table = abc_table();
    assert_eq!(0b0000_1001, from_str(&table, "A | 0x8").unwrap().bits());
}

#[test]
fn empty_input_and_empty_slot() {
    let table = abc_table();
    assert_eq!(table.empty(), from_str(&table, "").unwrap());
    assert_eq!(table.empty(), from_str(&table, "   ").unwrap());
    assert_eq!(
        "encountered empty flag",
        from_str(&table, "A||B").unwrap_err().message()
    );
    assert_eq!("encountered empty flag", from_str(&table, "|").unwrap_err().message());
}

#[test]
fn each_error_kind_has_an_input() {
    let table = abc_table();
    assert_eq!(
        "encountered empty flag",
        from_str(&table, "A | | B").unwrap_err().message()
    );
    assert_eq!(
        "unrecognized named flag",
        from_str(&table, "D").unwrap_err().message()
    );
    assert_eq!("invalid hex flag", from_str(&table, "0x").unwrap_err().message());
    assert_eq!("invalid hex flag", from_str(&table, "0x1z").unwrap_err().message());
    assert_eq!("invalid hex flag", from_str(&table, "0x100").unwrap_err().message());
}

#[test]
fn hex_formatting_exact() {
    let table = FlagTable::new("Flags", vec![] as Vec<Flag<u8>>);
    assert_eq!("0xff", table.from_bits_retain(0xff).to_text());
    assert_eq!("0xa0", table.from_bits_retain(0xa0).to_text());
    assert_eq!("0x1", table.from_bits_retain(0x01).to_text());
    assert_eq!("", table.from_bits_retain(0).to_text());
}

#[test]
fn hex_parsing_widths() {
    assert_eq!(0xffu8, <u8 as FromHex>::from_hex("ff").unwrap());
    assert_eq!(0x1fu8, <u8 as FromHex>::from_hex("1F").unwrap());
    assert!(<u8 as FromHex>::from_hex("100").is_err());
    assert!(<u8 as FromHex>::from_hex("").is_err());
    assert_eq!(0xffffu16, <u16 as FromHex>::from_hex("ffff").unwrap());
    // Signed storage reads hex through its two's-complement bit pattern.
    assert_eq!(-1i8, <i8 as FromHex>::from_hex("ff").unwrap());
    assert_eq!(u128::MAX, <u128 as FromHex>::from_hex("ffffffffffffffffffffffffffffffff").unwrap());
}

#[test]
fn is_all_ignores_unknown_bits() {
    let table = FlagTable::new("Flags", vec![Flag::new("A", 1u8), Flag::new("B", 2)]);
    assert!(table.from_bits_retain(0b011).is_all());
    assert!(table.from_bits_retain(0b111).is_all());
    assert!(!table.from_bits_retain(0b101).is_all());
}

#[test]
fn anonymous_entries_extend_all() {
    let table = FlagTable::new(
        "Flags",
        vec![Flag::new("A", 1u8), Flag::unnamed(0b1000)],
    );
    assert_eq!(0b1001, table.all().bits());
    // Bits belonging only to the anonymous entry pass the checked
    // conversion, but iteration never names them.
    let value = table.from_bits(0b1000).unwrap();
    assert!(value.names().is_empty());
    assert_eq!("0x8", value.to_text());
}

#[test]
fn insert_remove_toggle_set() {
    let table = abc_table();
    let a = table.from_name("A").unwrap();
    let b = table.from_name("B").unwrap();
    let mut value = table.empty();
    value.insert(a);
    assert_eq!(0b001, value.bits());
    value.toggle(a | b);
    assert_eq!(0b010, value.bits());
    value.set(a, true);
    assert_eq!(0b011, value.bits());
    value.set(b, false);
    assert_eq!(0b001, value.bits());
    value.remove(a);
    assert!(value.is_empty());
}

#[test]
fn intersects_and_contains() {
    let table = abc_table();
    let a = table.from_name("A").unwrap();
    let b = table.from_name("B").unwrap();
    assert!((a | b).intersects(a));
    assert!(!a.intersects(b));
    assert!((a | b).contains(a));
    assert!(!a.contains(a | b));
}

#[test]
fn single_bit_iteration() {
    let table = abc_table();
    let value = table.from_bits_retain(0b1011);
    let mut iter = BitFlagsIter::new(value);
    assert_eq!(0b0001, iter.next().unwrap().bits());
    assert_eq!(0b0010, iter.next().unwrap().bits());
    assert_eq!(0b1000, iter.next().unwrap().bits());
    assert!(iter.next().is_none());
}

#[test]
fn atomic_fetch_set() {
    let table = abc_table();
    let a = table.from_name("A").unwrap();
    let atomic = Atomic::empty(&table);
    atomic.fetch_set(a, true, Ordering::Relaxed);
    assert_eq!(a, atomic.load(Ordering::Relaxed));
    atomic.fetch_set(a, false, Ordering::Relaxed);
    assert_eq!(table.empty(), atomic.load(Ordering::Relaxed));
    let all = Atomic::all(&table);
    assert_eq!(table.all(), all.load(Ordering::Relaxed));
    all.store(a, Ordering::Relaxed);
    assert_eq!(a, all.load(Ordering::Relaxed));
}

#[test]
fn wide_storage() {
    let table = FlagTable::new(
        "Flags",
        vec![Flag::new("LOW", 1u128), Flag::new("TOP", 1 << 127)],
    );
    let top = table.from_name("TOP").unwrap();
    assert_eq!("TOP", top.to_text());
    assert_eq!(top, from_str(&table, "TOP").unwrap());
    assert_eq!(1u128 << 127, from_str(&table, "0x80000000000000000000000000000000").unwrap().bits());
}
