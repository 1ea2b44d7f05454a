use std::collections::BTreeSet;
use std::collections::HashSet;

use bitflags::Flag;
use bitflags::FlagTable;
use bitflags::Flags;

fn iter_table() -> FlagTable<u32> {
    FlagTable::new(
        "TestFlags",
        vec![
            Flag::new("A", 0b00000001),
            Flag::new("ZERO", 0),
            Flag::new("B", 0b00000010),
            Flag::new("C", 0b00000100),
            Flag::new("CC", 0b00000100),
            Flag::new("D", 0b10000100),
            Flag::new("ABC", 0b00000111),
            Flag::new("AB", 0b00000011),
            Flag::new("AC", 0b00000101),
            Flag::new("CB", 0b00000110),
        ],
    )
}

#[test]
fn test_iter_named() {
    let table = iter_table();

    // Test all named flags produced by the iterator
    let all_named: Vec<Flags<'_, u32>> = table.iter_named();

    // Verify all named flags are included
    let expected_flags = vec![
        table.from_name("A").unwrap(),
        table.from_name("ZERO").unwrap(),
        table.from_name("B").unwrap(),
        table.from_name("C").unwrap(),
        // Note: CC and C have the same bit value, but both are named flags
        table.from_name("CC").unwrap(),
        table.from_name("D").unwrap(),
        table.from_name("ABC").unwrap(),
        table.from_name("AB").unwrap(),
        table.from_name("AC").unwrap(),
        table.from_name("CB").unwrap(),
    ];

    assert_eq!(all_named.len(), expected_flags.len(), "Should have 10 named flags");

    // Verify each expected flag is in the result
    for expected_flag in &expected_flags {
        assert!(all_named.contains(expected_flag), "Missing flag: {:?}", expected_flag);
    }

    // Test if iterator order is consistent with definition order
    let flags_in_order: Vec<Flags<'_, u32>> = table.iter_named();
    assert_eq!(flags_in_order, expected_flags, "Flag order should match definition order");

    // Test that iteration can be repeated
    let first_iteration: Vec<Flags<'_, u32>> = table.iter_named();
    let second_iteration: Vec<Flags<'_, u32>> = table.iter_named();
    assert_eq!(
        first_iteration, second_iteration,
        "Multiple iterations should produce the same result"
    );

    // Test consistency with the declared entries
    let flags_from_iter: HashSet<u32> = table.iter_named().iter().map(|f| f.bits()).collect();

    let flags_from_const: HashSet<u32> =
        table.entries.iter().filter(|f| f.is_named()).map(|f| f.value()).collect();

    assert_eq!(
        flags_from_iter, flags_from_const,
        "iter_named() should be consistent with named flags in FLAGS"
    );

    // Test flag bit values
    for flag in table.iter_named() {
        let bits = flag.bits();
        match bits {
            0b00000001 => {}, // A
            0 => {},          // ZERO
            0b00000010 => {}, // B
            0b00000100 => {}, // C or CC (they have the same bit value)
            0b10000100 => {}, // D
            0b00000111 => {}, // ABC
            0b00000011 => {}, // AB
            0b00000101 => {}, // AC
            0b00000110 => {}, // CB
            _ => panic!("Unexpected bit value: {:08b} from flag: {:?}", bits, flag),
        }
    }

    // Verify specific flag bit values
    assert_eq!(table.from_name("A").unwrap().bits(), 0b00000001);
    assert_eq!(table.from_name("ZERO").unwrap().bits(), 0);
    assert_eq!(table.from_name("B").unwrap().bits(), 0b00000010);
    assert_eq!(table.from_name("C").unwrap().bits(), 0b00000100);
    assert_eq!(table.from_name("CC").unwrap().bits(), 0b00000100); // Same as C
    assert_eq!(table.from_name("D").unwrap().bits(), 0b10000100);
    assert_eq!(table.from_name("ABC").unwrap().bits(), 0b00000111);
    assert_eq!(table.from_name("AB").unwrap().bits(), 0b00000011);
    assert_eq!(table.from_name("AC").unwrap().bits(), 0b00000101);
    assert_eq!(table.from_name("CB").unwrap().bits(), 0b00000110);

    // Test the values with other iterator methods
    let non_zero_flags: Vec<Flags<'_, u32>> =
        table.iter_named().into_iter().filter(|f| !f.is_empty()).collect();
    assert_eq!(non_zero_flags.len(), 9, "Should have 9 non-zero flags");

    let single_bit_flags: Vec<Flags<'_, u32>> =
        table.iter_named().into_iter().filter(|f| f.bits().count_ones() == 1).collect();
    // A, B, C, CC are all single-bit flags (CC and C have same bit value but
    // both are enumerated)
    assert_eq!(single_bit_flags.len(), 4, "Should have 4 single-bit flags (A, B, C, CC)");

    // Test composite flags (multiple bits set)
    let composite_flags: Vec<Flags<'_, u32>> =
        table.iter_named().into_iter().filter(|f| f.bits().count_ones() > 1).collect();
    assert_eq!(
        composite_flags.len(),
        5,
        "Should have 5 composite flags (D, ABC, AB, AC, CB)"
    );

    println!("All iter_named() tests passed!");

    // Optional: print all flags for debugging
    for flag in table.iter_named() {
        println!("Flag: {:?}, bit value: {:08b} ({})", flag, flag.bits(), flag.bits());
    }

    // Additional edge case tests

    // The enumeration is never empty for this table
    let first = table.iter_named().first().copied();
    assert!(first.is_some(), "Iterator should produce at least one element");

    // Test usage with collect
    let collected: BTreeSet<u32> = table.iter_named().iter().map(|f| f.bits()).collect();
    println!("Deduplicated bit value set: {:?}", collected);

    // Test fold and reduce operations
    let all_bits_or = table
        .iter_named()
        .into_iter()
        .fold(table.empty(), |acc, flag| acc.union(flag));
    println!(
        "Union of all flags: {:?} (bit value: {:08b})",
        all_bits_or,
        all_bits_or.bits()
    );

    // Test usage with enumerate
    for (index, flag) in table.iter_named().into_iter().enumerate() {
        println!("Flag #{}: {:?}", index, flag);
        if index >= 2 {
            // Only print first few to avoid excessive output
            println!("... (more flags)");
            break;
        }
    }

    // Test handling of empty flags
    let zero_flags: Vec<Flags<'_, u32>> =
        table.iter_named().into_iter().filter(|f| f.is_empty()).collect();
    assert_eq!(zero_flags.len(), 1, "Should have only one empty flag (ZERO)");
    assert_eq!(zero_flags[0], table.from_name("ZERO").unwrap());

    // Test flags with duplicate bit values (C and CC)
    let c_value_flags: Vec<Flags<'_, u32>> =
        table.iter_named().into_iter().filter(|f| f.bits() == 0b00000100).collect();
    assert_eq!(
        c_value_flags.len(),
        2,
        "Should have two flags with the same bit value 0b00000100"
    );
}

#[test]
fn test_value_names() {
    let table = iter_table();

    assert_eq!(table.from_name("A").unwrap().names(), vec!["A"]);
    assert_eq!(table.from_name("ZERO").unwrap().names(), vec!["ZERO"]);
    assert_eq!(table.from_name("B").unwrap().names(), vec!["B"]);

    assert_eq!(table.from_name("C").unwrap().names(), vec!["C", "CC"]);
    assert!(table.from_name("C").unwrap().names().iter().any(|n| n == "CC" || n == "C"));

    assert_eq!(table.from_name("CC").unwrap().names(), vec!["C", "CC"]);
    assert!(table.from_name("CC").unwrap().names().iter().any(|n| n == "CC" || n == "C"));

    assert_eq!(table.from_name("D").unwrap().names(), vec!["D"]);
    assert_eq!(table.from_name("ABC").unwrap().names(), vec!["ABC"]);
    assert_eq!(table.from_name("AB").unwrap().names(), vec!["AB"]);
    assert_eq!(table.from_name("AC").unwrap().names(), vec!["AC"]);
    assert_eq!(table.from_name("CB").unwrap().names(), vec!["CB"]);

    let xyz = table.from_bits_retain(123456);
    assert!(xyz.names().is_empty());
}

fn acl_table() -> FlagTable<u32> {
    FlagTable::new(
        "ACL",
        vec![
            Flag::new("Read", 0b0000_0001),
            Flag::new("Write", 0b0000_0010),
            Flag::new("Execute", 0b0000_0100),
            Flag::new("Traverse", 0b0000_1000),
        ],
    )
}

#[test]
fn test_binreader_ext_little_endian() {
    let table = acl_table();
    let read = table.from_name("Read").unwrap();
    let execute = table.from_name("Execute").unwrap();
    let flags = read | execute;
    println!("{:?}", flags.bits().to_le_bytes());
    let buf: [u8; 4] = [0x05, 0x00, 0x00, 0x00];
    let acl = table.from_bits_retain(u32::from_le_bytes(buf));
    assert_eq!(acl, read | execute);
}

#[test]
fn test_binreader_ext_big_endian() {
    let table = acl_table();
    let read = table.from_name("Read").unwrap();
    let execute = table.from_name("Execute").unwrap();
    let buf: [u8; 4] = [0x00, 0x00, 0x00, 0x05];
    let acl = table.from_bits_retain(u32::from_be_bytes(buf));
    assert_eq!(acl, read | execute);
}
