use bitflags::Flag;
use bitflags::FlagTable;
use bitflags::Flags;
use bitflags::from_str;
use bitflags::to_writer;

fn test_flags() -> FlagTable<u8> {
    FlagTable::new(
        "TestFlags",
        vec![
            Flag::new("A", 1),
            Flag::new("B", 1 << 1),
            Flag::new("C", 1 << 2),
            Flag::new("ABC", 1 | 1 << 1 | 1 << 2),
        ],
    )
}

fn test_zero() -> FlagTable<u8> {
    FlagTable::new("TestZero", vec![Flag::new("ZERO", 0)])
}

fn test_zero_one() -> FlagTable<u8> {
    FlagTable::new("TestZeroOne", vec![Flag::new("ZERO", 0), Flag::new("ONE", 1)])
}

fn test_overlapping() -> FlagTable<u8> {
    FlagTable::new(
        "TestOverlapping",
        vec![Flag::new("AB", 1 | 1 << 1), Flag::new("BC", 1 << 1 | 1 << 2)],
    )
}

fn test_unicode() -> FlagTable<u8> {
    FlagTable::new("TestUnicode", vec![Flag::new("一", 1), Flag::new("二", 1 << 1)])
}

fn write(value: Flags<'_, u8>) -> String {
    let mut s = String::new();
    to_writer(&value, &mut s);
    s
}

#[test]
fn fmt_cases() {
    let tf = test_flags();
    let a = tf.from_name("A").unwrap();

    assert_eq!("TestFlags(0x0)", tf.empty().debug_text());
    assert_eq!("TestFlags(A)", a.debug_text());
    assert_eq!("TestFlags(A | B | C)", tf.all().debug_text());
    assert_eq!("TestFlags(0x8)", tf.from_bits_retain(1 << 3).debug_text());
    assert_eq!("TestFlags(A | 0x8)", (a | tf.from_bits_retain(1 << 3)).debug_text());

    assert_eq!("", tf.empty().to_text());
    assert_eq!("A", a.to_text());
    assert_eq!("A | B | C", tf.all().to_text());
    assert_eq!("0x8", tf.from_bits_retain(1 << 3).to_text());
    assert_eq!("A | 0x8", (a | tf.from_bits_retain(1 << 3)).to_text());

    let tz = test_zero();
    let zero = tz.from_name("ZERO").unwrap();
    assert_eq!("TestZero(0x0)", zero.debug_text());
    assert_eq!("TestZero(0x1)", (zero | tz.from_bits_retain(1)).debug_text());

    assert_eq!("", zero.to_text());

    let tzo = test_zero_one();
    let zero_one = tzo.from_name("ZERO").unwrap();
    assert_eq!("TestZeroOne(0x0)", zero_one.debug_text());
    assert_eq!("TestZeroOne(ONE)", (zero_one | tzo.from_bits_retain(1)).debug_text());

    let to = test_overlapping();
    assert_eq!("TestOverlapping(0x2)", to.from_bits_retain(1 << 1).debug_text());
}

#[test]
fn from_str_valid() {
    let tf = test_flags();

    assert_eq!(0, from_str(&tf, "").unwrap().bits());

    assert_eq!(1, from_str(&tf, "A").unwrap().bits());
    assert_eq!(1, from_str(&tf, " A ").unwrap().bits());
    assert_eq!(1 | 1 << 1 | 1 << 2, from_str(&tf, "A | B | C").unwrap().bits());
    assert_eq!(
        1 | 1 << 1 | 1 << 2,
        from_str(&tf, "A\n|\tB\r\n|   C ").unwrap().bits()
    );
    assert_eq!(1 | 1 << 1 | 1 << 2, from_str(&tf, "A|B|C").unwrap().bits());

    assert_eq!(1 << 3, from_str(&tf, "0x8").unwrap().bits());
    assert_eq!(1 | 1 << 3, from_str(&tf, "A | 0x8").unwrap().bits());
    assert_eq!(1 | 1 << 1 | 1 << 3, from_str(&tf, "0x1 | 0x8 | B").unwrap().bits());

    let tu = test_unicode();
    assert_eq!(1 | 1 << 1, from_str(&tu, "一 | 二").unwrap().bits());
}

#[test]
fn from_str_invalid() {
    let tf = test_flags();

    assert_eq!(
        "unrecognized named flag",
        from_str(&tf, "a").unwrap_err().message()
    );
    assert_eq!(
        "unrecognized named flag",
        from_str(&tf, "A & B").unwrap_err().message()
    );

    assert_eq!("invalid hex flag", from_str(&tf, "0xg").unwrap_err().message());
    assert_eq!(
        "invalid hex flag",
        from_str(&tf, "0xffffffffffff").unwrap_err().message()
    );
}

#[test]
fn roundtrip() {
    let tf = test_flags();
    let mut s = String::new();

    for a in 0u8..=255 {
        for b in 0u8..=255 {
            let f = tf.from_bits_retain(a | b);

            s.clear();
            to_writer(&f, &mut s);

            assert_eq!(f, from_str(&tf, &s).unwrap());
        }
    }
}

#[test]
fn parser_valid() {
    let tf = test_flags();

    assert_eq!(0, from_str(&tf, "").unwrap().bits());

    assert_eq!(1, from_str(&tf, "A").unwrap().bits());
    assert_eq!(1, from_str(&tf, " A ").unwrap().bits());
    assert_eq!(1 | 1 << 1 | 1 << 2, from_str(&tf, "A | B | C").unwrap().bits());
    assert_eq!(
        1 | 1 << 1 | 1 << 2,
        from_str(&tf, "A\n|\tB\r\n|   C ").unwrap().bits()
    );
    assert_eq!(1 | 1 << 1 | 1 << 2, from_str(&tf, "A|B|C").unwrap().bits());

    assert_eq!(1 << 3, from_str(&tf, "0x8").unwrap().bits());
    assert_eq!(1 | 1 << 3, from_str(&tf, "A | 0x8").unwrap().bits());
    assert_eq!(1 | 1 << 1 | 1 << 3, from_str(&tf, "0x1 | 0x8 | B").unwrap().bits());

    let tu = test_unicode();
    assert_eq!(1 | 1 << 1, from_str(&tu, "一 | 二").unwrap().bits());
}

#[test]
fn parser_invalid() {
    let tf = test_flags();

    assert!(from_str(&tf, "a")
        .unwrap_err()
        .message()
        .starts_with("unrecognized named flag"));
    assert!(from_str(&tf, "A & B")
        .unwrap_err()
        .message()
        .starts_with("unrecognized named flag"));

    assert!(from_str(&tf, "0xg")
        .unwrap_err()
        .message()
        .starts_with("invalid hex flag"));
    assert!(from_str(&tf, "0xffffffffffff")
        .unwrap_err()
        .message()
        .starts_with("invalid hex flag"));
}

#[test]
fn parser_cases() {
    let tf = test_flags();
    let a = tf.from_name("A").unwrap();

    assert_eq!("", write(tf.empty()));
    assert_eq!("A", write(a));
    assert_eq!("A | B | C", write(tf.all()));
    assert_eq!("0x8", write(tf.from_bits_retain(1 << 3)));
    assert_eq!("A | 0x8", write(a | tf.from_bits_retain(1 << 3)));

    let tz = test_zero();
    assert_eq!("", write(tz.from_name("ZERO").unwrap()));

    let invert = FlagTable::new(
        "TestFlagsInvert",
        vec![
            Flag::new("ABC", 1 | 1 << 1 | 1 << 2),
            Flag::new("A", 1u8),
            Flag::new("B", 1 << 1),
            Flag::new("C", 1 << 2),
        ],
    );
    assert_eq!("ABC", write(invert.all()));

    let full = FlagTable::new(
        "TestOverlappingFull",
        vec![
            Flag::new("A", 1u8),
            Flag::new("B", 1),
            Flag::new("C", 1),
            Flag::new("D", 1 << 1),
        ],
    );
    let c = full.from_name("C").unwrap();
    let d = full.from_name("D").unwrap();
    assert_eq!("A", write(c));
    assert_eq!("A | D", write(c | d));
}

#[test]
fn stringify() {
    let table = FlagTable::new("Test", vec![Flag::new("A", 1u8)]);
    assert_eq!(table.from_name("A").unwrap().to_text(), "A");
}
