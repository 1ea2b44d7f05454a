use bitflags::Flag;
use bitflags::FlagTable;
use bitflags::Flags;

fn test_flags() -> FlagTable<u8> {
    FlagTable::new(
        "TestFlags",
        vec![
            Flag::new("A", 1),
            Flag::new("B", 1 << 1),
            Flag::new("C", 1 << 2),
            Flag::new("ABC", 1 | 1 << 1 | 1 << 2),
        ],
    )
}

fn test_zero() -> FlagTable<u8> {
    FlagTable::new("TestZero", vec![Flag::new("ZERO", 0)])
}

fn test_empty() -> FlagTable<u8> {
    FlagTable::new("TestEmpty", vec![])
}

#[test]
fn all_cases() {
    let tf = test_flags();
    let a = tf.from_name("A").unwrap();
    let b = tf.from_name("B").unwrap();
    let c = tf.from_name("C").unwrap();
    assert_eq!(a | b | c, tf.all());

    let tz = test_zero();
    assert_eq!(tz.empty(), tz.all());

    let te = test_empty();
    assert_eq!(te.empty(), te.all());
}

#[test]
fn bits_cases() {
    let tf = test_flags();
    let tz = test_zero();
    let te = test_empty();

    assert_eq!(0, tf.empty().bits());

    assert_eq!(1, tf.from_name("A").unwrap().bits());

    assert_eq!(1 | 1 << 1 | 1 << 2, tf.from_name("ABC").unwrap().bits());

    assert_eq!(1 << 3, tf.from_bits_retain(1 << 3).bits());

    assert_eq!(1 << 3, tz.from_bits_retain(1 << 3).bits());

    assert_eq!(1 << 3, te.from_bits_retain(1 << 3).bits());
}

fn difference_case<'a>(value: Flags<'a, u8>, inputs: &[(Flags<'a, u8>, u8)]) {
    for (input, expected) in inputs {
        assert_eq!(
            *expected,
            value.difference(*input).bits(),
            "{:?}.difference({:?})",
            value,
            input
        );
        assert_eq!(*expected, (value - *input).bits(), "{:?} - {:?}", value, input);
        let mut v = value;
        v = v - *input;
        assert_eq!(*expected, v.bits(), "{:?} -= {:?}", value, input);
    }
}

#[test]
fn difference_cases() {
    let tf = test_flags();
    let a = tf.from_name("A").unwrap();
    let b = tf.from_name("B").unwrap();

    difference_case(
        a | b,
        &[(a, 1 << 1), (b, 1), (tf.from_bits_retain(1 << 3), 1 | 1 << 1)],
    );

    difference_case(
        tf.from_bits_retain(1 | 1 << 3),
        &[(a, 1 << 3), (tf.from_bits_retain(1 << 3), 1)],
    );
}

fn intersection_case<'a>(value: Flags<'a, u8>, inputs: &[(Flags<'a, u8>, u8)]) {
    for (input, expected) in inputs {
        assert_eq!(
            *expected,
            value.intersection(*input).bits(),
            "{:?}.intersection({:?})",
            value,
            input
        );
        assert_eq!(*expected, (value & *input).bits(), "{:?} & {:?}", value, input);
        let mut v = value;
        v = v & *input;
        assert_eq!(*expected, v.bits(), "{:?} &= {:?}", value, input);
    }
}

#[test]
fn intersection_cases() {
    let tf = test_flags();
    let a = tf.from_name("A").unwrap();
    let b = tf.from_name("B").unwrap();
    let c = tf.from_name("C").unwrap();
    let abc = tf.from_name("ABC").unwrap();

    intersection_case(tf.empty(), &[(tf.empty(), 0), (a, 0), (abc, 0)]);

    intersection_case(
        a | b,
        &[
            (a, 1),
            (b, 1 << 1),
            (c, 0),
            (abc, 1 | 1 << 1),
            (tf.from_bits_retain(1 << 3), 0),
        ],
    );

    intersection_case(
        tf.from_bits_retain(1 | 1 << 3),
        &[(a, 1), (tf.from_bits_retain(1 << 3), 1 << 3)],
    );
}

fn union_case<'a>(value: Flags<'a, u8>, inputs: &[(Flags<'a, u8>, u8)]) {
    for (input, expected) in inputs {
        assert_eq!(
            *expected,
            value.union(*input).bits(),
            "{:?}.union({:?})",
            value,
            input
        );
        assert_eq!(*expected, (value | *input).bits(), "{:?} | {:?}", value, input);
        let mut v = value;
        v = v | *input;
        assert_eq!(*expected, v.bits(), "{:?} |= {:?}", value, input);
    }
}

#[test]
fn union_cases() {
    let tf = test_flags();
    let a = tf.from_name("A").unwrap();
    let b = tf.from_name("B").unwrap();
    let c = tf.from_name("C").unwrap();

    union_case(tf.empty(), &[(tf.empty(), 0), (a, 1)]);

    union_case(
        a,
        &[
            (a, 1),
            (b, 1 | 1 << 1),
            (b | c, 1 | 1 << 1 | 1 << 2),
            (tf.from_bits_retain(1 << 3), 1 | 1 << 3),
        ],
    );
}

#[test]
fn extend_cases() {
    let tf = test_flags();
    let a = tf.from_name("A").unwrap();
    let b = tf.from_name("B").unwrap();
    let c = tf.from_name("C").unwrap();
    let abc = tf.from_name("ABC").unwrap();

    let mut flags = tf.empty();

    flags.extend(&vec![a]);

    assert_eq!(a, flags);

    flags.extend(&vec![a | b | c]);

    assert_eq!(abc, flags);

    flags.extend(&vec![tf.from_bits_retain(1 << 5)]);

    assert_eq!(abc | tf.from_bits_retain(1 << 5), flags);
}

#[test]
fn from_iter_cases() {
    let tf = test_flags();
    let a = tf.from_name("A").unwrap();
    let b = tf.from_name("B").unwrap();
    let c = tf.from_name("C").unwrap();

    assert_eq!(0, tf.from_iter(&vec![]).bits());

    assert_eq!(1, tf.from_iter(&vec![a]).bits());

    assert_eq!(1 | 1 << 1 | 1 << 2, tf.from_iter(&vec![a, b | c]).bits());

    assert_eq!(
        1 | 1 << 3,
        tf.from_iter(&vec![tf.from_bits_retain(1 << 3), tf.empty(), a]).bits()
    );
}

#[test]
fn test_zero_value_flags() {
    let table = FlagTable::new(
        "Flags",
        vec![Flag::new("NONE", 0u32), Flag::new("SOME", 0b1)],
    );
    let none = table.from_name("NONE").unwrap();
    let some = table.from_name("SOME").unwrap();

    assert!(table.empty().contains(none));
    assert!(some.contains(none));
    assert!(none.is_empty());

    assert_eq!(
        format!("Flags({})", table.empty().names().join(" | ")),
        "Flags(NONE)"
    );
    assert_eq!(format!("Flags({})", some.names().join(" | ")), "Flags(SOME)");
}

#[test]
fn test_set_ops_exhaustive() {
    // A table with gaps, to exercise unknown bits at both ends and in the
    // middle.
    let table = FlagTable::new(
        "Flags",
        vec![
            // Intentionally no `A`
            Flag::new("B", 0b000000010u16),
            // Intentionally no `C`
            Flag::new("D", 0b000001000),
            Flag::new("E", 0b000010000),
            Flag::new("F", 0b000100000),
            Flag::new("G", 0b001000000),
            // Intentionally no `H`
            Flag::new("I", 0b100000000),
        ],
    );

    for bits_a in 0..=0b111_1111_1111u16 {
        let a = table.from_bits_retain(bits_a);
        assert_eq!(
            a.complement(),
            table.from_bits_truncate(!a.bits()),
            "wrong result: !({:?})",
            a,
        );
        assert_eq!(a.complement(), !a, "named != op: !({:?})", a);
        for bits_b in 0..=0b111_1111_1111u16 {
            let b = table.from_bits_retain(bits_b);
            // Check that the named operations produce the expected bitwise
            // values.
            assert_eq!(
                a.union(b).bits(),
                a.bits() | b.bits(),
                "wrong result: `{:?}` | `{:?}`",
                a,
                b,
            );
            assert_eq!(
                a.intersection(b).bits(),
                a.bits() & b.bits(),
                "wrong result: `{:?}` & `{:?}`",
                a,
                b,
            );
            assert_eq!(
                a.symmetric_difference(b).bits(),
                a.bits() ^ b.bits(),
                "wrong result: `{:?}` ^ `{:?}`",
                a,
                b,
            );
            assert_eq!(
                a.difference(b).bits(),
                a.bits() & !b.bits(),
                "wrong result: `{:?}` - `{:?}`",
                a,
                b,
            );
            // Note: Difference is checked as both `a - b` and `b - a`
            assert_eq!(
                b.difference(a).bits(),
                b.bits() & !a.bits(),
                "wrong result: `{:?}` - `{:?}`",
                b,
                a,
            );
            // Check that the named set operations are equivalent to the
            // bitwise equivalents
            assert_eq!(a.union(b), a | b, "named != op: `{:?}` | `{:?}`", a, b,);
            assert_eq!(
                a.intersection(b),
                a & b,
                "named != op: `{:?}` & `{:?}`",
                a,
                b,
            );
            assert_eq!(
                a.symmetric_difference(b),
                a ^ b,
                "named != op: `{:?}` ^ `{:?}`",
                a,
                b,
            );
            assert_eq!(a.difference(b), a - b, "named != op: `{:?}` - `{:?}`", a, b,);
            // Note: Difference is checked as both `a - b` and `b - a`
            assert_eq!(b.difference(a), b - a, "named != op: `{:?}` - `{:?}`", b, a,);
            // Verify that the operations which should be symmetric are
            // actually symmetric.
            assert_eq!(a.union(b), b.union(a), "asymmetry: `{:?}` | `{:?}`", a, b,);
            assert_eq!(
                a.intersection(b),
                b.intersection(a),
                "asymmetry: `{:?}` & `{:?}`",
                a,
                b,
            );
            assert_eq!(
                a.symmetric_difference(b),
                b.symmetric_difference(a),
                "asymmetry: `{:?}` ^ `{:?}`",
                a,
                b,
            );
        }
    }
}
