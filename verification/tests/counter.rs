use irq_counter::counter::{next_value, SharedCounter};
use irq_counter::gate::Gate;

#[test]
fn next_value_adds_one() {
    assert_eq!(next_value(0), 1);
    assert_eq!(next_value(7), 8);
    assert_eq!(next_value(254), 255);
}

#[test]
fn next_value_wraps_at_255() {
    assert_eq!(next_value(255), 0);
}

#[test]
fn next_value_has_period_256_from_every_start() {
    for start in 0..=255u8 {
        let mut v = start;
        for n in 1..=256u32 {
            v = next_value(v);
            if n < 256 {
                assert_ne!(v, start);
            }
        }
        assert_eq!(v, start);
    }
}

#[test]
fn next_value_is_sum_modulo_256() {
    let mut v = 200u8;
    for n in 1..=1000u32 {
        v = next_value(v);
        assert_eq!(v as u32, (200 + n) % 256);
    }
}

#[test]
fn new_counter_reads_zero() {
    let mut gate = Gate::new();
    let counter = SharedCounter::new();
    assert_eq!(gate.with_critical_section(|cs| counter.read(cs)), 0);
}

#[test]
fn increment_then_read_inside_sections() {
    let mut gate = Gate::new();
    let mut counter = SharedCounter::new();
    for expected in 1..=5u8 {
        gate.with_critical_section(|cs| counter.increment(cs));
        assert_eq!(gate.with_critical_section(|cs| counter.read(cs)), expected);
    }
}

#[test]
fn read_does_not_change_the_counter() {
    let mut gate = Gate::new();
    let mut counter = SharedCounter::new();
    gate.with_critical_section(|cs| counter.increment(cs));
    for _ in 0..10 {
        assert_eq!(gate.with_critical_section(|cs| counter.read(cs)), 1);
    }
}

#[test]
fn counter_wraps_after_256_increments() {
    let mut gate = Gate::new();
    let mut counter = SharedCounter::new();
    for _ in 0..255 {
        gate.with_critical_section(|cs| counter.increment(cs));
    }
    assert_eq!(gate.with_critical_section(|cs| counter.read(cs)), 255);
    gate.with_critical_section(|cs| counter.increment(cs));
    assert_eq!(gate.with_critical_section(|cs| counter.read(cs)), 0);
}

#[test]
fn several_accesses_in_one_section() {
    let mut gate = Gate::new();
    let mut counter = SharedCounter::new();
    let seen = gate.with_critical_section(|cs| {
        counter.increment(cs);
        counter.increment(cs);
        counter.read(cs)
    });
    assert_eq!(seen, 2);
}
