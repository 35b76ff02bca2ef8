//! Counters.
use attini::Counter;

#[test]
fn default_is_zero() {
    assert_eq!(Counter::default().get(), 0);
}

#[test]
fn inc_bumps_by_one() {
    let mut c = Counter::new();
    c.inc();
    c.inc();
    c.inc();
    assert_eq!(c.get(), 3);
}

#[test]
fn add_bumps_by_n() {
    let mut c = Counter::new();
    c.add(10);
    c.add(7);
    assert_eq!(c.get(), 17);
}

#[test]
fn clone_is_independent_snapshot() {
    let mut a = Counter::new();
    a.inc();
    let mut b = a.clone();
    assert_eq!(a.get(), 1);
    assert_eq!(b.get(), 1);
    a.inc();
    b.inc();
    b.inc();
    assert_eq!(a.get(), 2);
    assert_eq!(b.get(), 3);
}

#[test]
fn partial_eq_uses_current_values() {
    let mut a = Counter::new();
    let mut b = Counter::new();
    assert_eq!(a, b);
    a.inc();
    assert_ne!(a, b);
    b.inc();
    assert_eq!(a, b);
}
