use std::sync::atomic::Ordering;

use bitflags::Atomic;
use bitflags::Flag;
use bitflags::FlagTable;

fn test_flags() -> FlagTable<u8> {
    FlagTable::new(
        "TestFlags",
        vec![
            Flag::new("A", 1),
            Flag::new("B", 1 << 1),
            Flag::new("C", 1 << 2),
            Flag::new("ABC", 1 | 1 << 1 | 1 << 2),
        ],
    )
}

#[test]
fn atomic_cases() {
    let tf = test_flags();
    let a = tf.from_name("A").unwrap();
    let b = tf.from_name("B").unwrap();
    let c = tf.from_name("C").unwrap();
    let abc = tf.from_name("ABC").unwrap();

    let atomic = Atomic::from_value(abc);
    assert_eq!(abc, atomic.load(Ordering::Relaxed));

    let atomic = Atomic::from_value(a);
    assert_eq!(a, atomic.swap(b, Ordering::Relaxed));
    assert_eq!(b, atomic.swap(c, Ordering::Relaxed));
    assert_eq!(c, atomic.load(Ordering::Relaxed));

    let atomic = Atomic::from_value(tf.empty());
    assert_eq!(tf.empty(), atomic.fetch_insert(a, Ordering::Relaxed));
    assert_eq!(a, atomic.fetch_toggle(abc, Ordering::Relaxed));
    assert_eq!(b | c, atomic.fetch_remove(c, Ordering::Relaxed));
    assert_eq!(b, atomic.load(Ordering::Relaxed));
}
