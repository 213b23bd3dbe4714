use irq_counter::log::{has_consistent_reads, is_bracketed, Step};
use irq_counter::machine::Machine;
use irq_counter::main_loop::Phase;

#[test]
fn five_firings_then_a_read() {
    let mut machine = Machine::new();
    for _ in 0..5 {
        machine.fire();
    }
    assert_eq!(machine.snapshot(), 5);
    for _ in 0..251 {
        machine.fire();
    }
    assert_eq!(machine.snapshot(), 0);
}

#[test]
fn a_new_machine_reads_zero() {
    let mut machine = Machine::new();
    assert_eq!(machine.snapshot(), 0);
    assert_eq!(machine.faults(), 0);
    assert_eq!(machine.phase(), Phase::Snapshot);
}

#[test]
fn setup_runs_in_one_section() {
    let machine = Machine::new();
    assert_eq!(machine.log().as_slice(), &[Step::Enter, Step::Exit]);
}

#[test]
fn reads_see_the_firings_before_them() {
    let mut machine = Machine::new();
    let mut fired: u32 = 0;
    // A fixed, irregular interleaving of firings and reads.
    let mut seed: u32 = 12345;
    for _ in 0..2000 {
        seed = seed.wrapping_mul(1103515245).wrapping_add(12345);
        if (seed >> 16) % 3 == 0 {
            assert_eq!(machine.snapshot() as u32, fired % 256);
        } else {
            machine.fire();
            fired += 1;
        }
    }
    assert_eq!(machine.snapshot() as u32, fired % 256);
    assert!(has_consistent_reads(machine.log()));
    assert!(is_bracketed(machine.log()));
}

#[test]
fn every_access_is_logged_inside_a_section() {
    let mut machine = Machine::new();
    machine.fire();
    machine.snapshot();
    machine.fire();
    machine.fire();
    machine.main_loop_step(true);
    machine.main_loop_step(true);
    machine.main_loop_step(true);
    let log = machine.log();
    assert_eq!(
        log.as_slice(),
        &[
            Step::Enter,
            Step::Exit,
            Step::Enter,
            Step::Increment,
            Step::Exit,
            Step::Enter,
            Step::Read(1),
            Step::Exit,
            Step::Enter,
            Step::Increment,
            Step::Exit,
            Step::Enter,
            Step::Increment,
            Step::Exit,
            Step::Enter,
            Step::Read(3),
            Step::Exit,
        ]
    );
    assert!(is_bracketed(log));
    assert!(has_consistent_reads(log));
    let accesses = log.iter().filter(|s| matches!(s, Step::Increment | Step::Read(_))).count();
    let enters = log.iter().filter(|s| matches!(s, Step::Enter)).count();
    let exits = log.iter().filter(|s| matches!(s, Step::Exit)).count();
    assert_eq!(accesses, 5);
    assert_eq!(enters, 6);
    assert_eq!(exits, 6);
}

#[test]
fn long_runs_stay_bracketed() {
    let mut machine = Machine::new();
    for round in 0..300 {
        machine.fire();
        if round % 7 == 0 {
            machine.main_loop_step(round % 2 == 0);
        }
    }
    assert!(is_bracketed(machine.log()));
    assert!(has_consistent_reads(machine.log()));
}

#[test]
fn main_loop_iteration_shows_the_counter() {
    let mut machine = Machine::new();
    for _ in 0..7 {
        machine.fire();
    }
    assert!(machine.main_loop_step(true).is_none());
    assert_eq!(machine.phase(), Phase::Write(7));
    let shown = machine.main_loop_step(true).unwrap();
    assert_eq!(
        shown.as_str(),
        "value: 0007                                                     "
    );
    assert_eq!(machine.phase(), Phase::Sleep);
    assert!(machine.main_loop_step(true).is_none());
    assert_eq!(machine.phase(), Phase::Snapshot);
    assert_eq!(machine.faults(), 0);
}

#[test]
fn firings_between_read_and_write_do_not_change_the_text() {
    let mut machine = Machine::new();
    machine.fire();
    machine.main_loop_step(true);
    machine.fire();
    machine.fire();
    let shown = machine.main_loop_step(true).unwrap();
    assert!(shown.as_str().starts_with("value: 0001 "));
    machine.main_loop_step(true);
    machine.main_loop_step(true);
    let shown = machine.main_loop_step(true).unwrap();
    assert!(shown.as_str().starts_with("value: 0003 "));
}

#[test]
fn counter_keeps_counting_while_every_write_fails() {
    let mut machine = Machine::new();
    for round in 0..600u32 {
        machine.fire();
        assert!(machine.main_loop_step(false).is_none());
        assert!(machine.main_loop_step(false).is_none());
        assert!(machine.main_loop_step(false).is_none());
        assert_eq!(machine.phase(), Phase::Snapshot);
        assert_eq!(machine.faults(), (round + 1) as u64);
        assert_eq!(machine.snapshot() as u32, (round + 1) % 256);
    }
}

#[test]
fn main_loop_never_changes_the_counter() {
    let mut machine = Machine::new();
    machine.fire();
    machine.fire();
    for i in 0..30 {
        machine.main_loop_step(i % 2 == 0);
    }
    assert_eq!(machine.snapshot(), 2);
}
