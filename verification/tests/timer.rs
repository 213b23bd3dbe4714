use irq_counter::timer::{TimerEvent, TimerState};

fn run(start: TimerState, events: &[TimerEvent]) -> Option<TimerState> {
    let mut state = start;
    for event in events {
        state = state.next(*event)?;
    }
    Some(state)
}

#[test]
fn new_timer_is_unconfigured() {
    assert_eq!(TimerState::new(), TimerState::Unconfigured);
    assert!(!TimerState::new().is_armed());
}

#[test]
fn configure_leaves_the_timer_unarmed() {
    assert_eq!(
        TimerState::Unconfigured.next(TimerEvent::Configure),
        Some(TimerState::ConfiguredNotArmed { listening: false, unmasked: false })
    );
}

#[test]
fn listen_then_unmask_arms() {
    let events = [TimerEvent::Configure, TimerEvent::Listen, TimerEvent::Unmask];
    assert_eq!(run(TimerState::new(), &events), Some(TimerState::Armed));
}

#[test]
fn unmask_then_listen_arms() {
    let events = [TimerEvent::Configure, TimerEvent::Unmask, TimerEvent::Listen];
    assert_eq!(run(TimerState::new(), &events), Some(TimerState::Armed));
}

#[test]
fn one_condition_alone_does_not_arm() {
    assert_eq!(
        run(TimerState::new(), &[TimerEvent::Configure, TimerEvent::Listen]),
        Some(TimerState::ConfiguredNotArmed { listening: true, unmasked: false })
    );
    assert_eq!(
        run(TimerState::new(), &[TimerEvent::Configure, TimerEvent::Unmask]),
        Some(TimerState::ConfiguredNotArmed { listening: false, unmasked: true })
    );
    assert_eq!(
        run(TimerState::new(), &[TimerEvent::Configure, TimerEvent::Listen, TimerEvent::Listen]),
        Some(TimerState::ConfiguredNotArmed { listening: true, unmasked: false })
    );
}

#[test]
fn expiry_enters_the_handler() {
    assert_eq!(
        TimerState::Armed.next(TimerEvent::Expire),
        Some(TimerState::Firing { acknowledged: false })
    );
}

#[test]
fn acknowledged_handler_returns_to_armed() {
    let events = [TimerEvent::Expire, TimerEvent::Acknowledge, TimerEvent::HandlerReturn];
    assert_eq!(run(TimerState::Armed, &events), Some(TimerState::Armed));
    assert!(run(TimerState::Armed, &events).unwrap().is_armed());
}

#[test]
fn unacknowledged_handler_is_entered_again() {
    let events = [TimerEvent::Expire, TimerEvent::HandlerReturn];
    assert_eq!(
        run(TimerState::Armed, &events),
        Some(TimerState::Firing { acknowledged: false })
    );
    let events = [TimerEvent::Expire, TimerEvent::HandlerReturn, TimerEvent::HandlerReturn];
    assert_eq!(
        run(TimerState::Armed, &events),
        Some(TimerState::Firing { acknowledged: false })
    );
}

#[test]
fn events_out_of_place_are_refused() {
    assert_eq!(TimerState::Unconfigured.next(TimerEvent::Listen), None);
    assert_eq!(TimerState::Unconfigured.next(TimerEvent::Unmask), None);
    assert_eq!(TimerState::Unconfigured.next(TimerEvent::Expire), None);
    assert_eq!(TimerState::Unconfigured.next(TimerEvent::Acknowledge), None);
    assert_eq!(TimerState::Unconfigured.next(TimerEvent::HandlerReturn), None);
    let half = TimerState::ConfiguredNotArmed { listening: true, unmasked: false };
    assert_eq!(half.next(TimerEvent::Configure), None);
    assert_eq!(half.next(TimerEvent::Expire), None);
    assert_eq!(TimerState::Armed.next(TimerEvent::Configure), None);
    assert_eq!(TimerState::Armed.next(TimerEvent::Listen), None);
    assert_eq!(TimerState::Armed.next(TimerEvent::Acknowledge), None);
    assert_eq!(TimerState::Armed.next(TimerEvent::HandlerReturn), None);
    let firing = TimerState::Firing { acknowledged: false };
    assert_eq!(firing.next(TimerEvent::Expire), None);
    assert_eq!(firing.next(TimerEvent::Configure), None);
}

#[test]
fn many_firings_in_a_row() {
    let mut state = TimerState::Armed;
    for _ in 0..300 {
        state = state.next(TimerEvent::Expire).unwrap();
        state = state.next(TimerEvent::Acknowledge).unwrap();
        state = state.next(TimerEvent::HandlerReturn).unwrap();
        assert!(state.is_armed());
    }
}
