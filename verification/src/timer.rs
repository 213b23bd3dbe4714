//! The timer as an interrupt source: what state it is in, and how setup, the
//! hardware and the handler move it from one state to the next.

use vstd::prelude::*;

verus! {

/// How often the timer fires, in hertz.
pub const FREQUENCY_HZ: u32 = 1;

/// The state of the interrupt source.
#[derive(Clone, Copy, Debug, PartialEq, Eq, Structural)]
pub enum TimerState {
    /// No period has been set.
    Unconfigured,
    /// The period is set, but the interrupt cannot reach the handler yet: the timer
    /// does not raise it (`listening` is false), or the interrupt controller masks
    /// its line (`unmasked` is false), or both.
    ConfiguredNotArmed { listening: bool, unmasked: bool },
    /// The timer raises the interrupt at the end of each period and the line is
    /// unmasked.
    Armed,
    /// The handler is running. `acknowledged` says whether it has cleared the
    /// timer's pending event.
    Firing { acknowledged: bool },
}

/// What can happen to the interrupt source.
#[derive(Clone, Copy, Debug, PartialEq, Eq, Structural)]
pub enum TimerEvent {
    /// Setup gives the timer its period.
    Configure,
    /// Setup makes the timer raise the interrupt on timeout.
    Listen,
    /// Setup unmasks the timer's line at the interrupt controller.
    Unmask,
    /// The period has run out and the handler is entered.
    Expire,
    /// The handler clears the timer's pending event.
    Acknowledge,
    /// The handler returns.
    HandlerReturn,
}

impl TimerState {
    /// A `ConfiguredNotArmed` state lacks at least one of the two conditions; with
    /// both the source is `Armed`.
    pub open spec fn valid(self) -> bool {
        self matches TimerState::ConfiguredNotArmed { listening, unmasked } ==> !(listening
            && unmasked)
    }

    /// The state after `event`, or `None` where the event cannot happen in this state.
    ///
    /// A handler that returns without having acknowledged the pending event is entered
    /// again at once: the source stays `Firing`.
    pub open spec fn after(self, event: TimerEvent) -> Option<TimerState> {
        match (self, event) {
            (TimerState::Unconfigured, TimerEvent::Configure) => Some(
                TimerState::ConfiguredNotArmed { listening: false, unmasked: false },
            ),
            (TimerState::ConfiguredNotArmed { listening, unmasked }, TimerEvent::Listen) => Some(
                if unmasked {
                    TimerState::Armed
                } else {
                    TimerState::ConfiguredNotArmed { listening: true, unmasked }
                },
            ),
            (TimerState::ConfiguredNotArmed { listening, unmasked }, TimerEvent::Unmask) => Some(
                if listening {
                    TimerState::Armed
                } else {
                    TimerState::ConfiguredNotArmed { listening, unmasked: true }
                },
            ),
            (TimerState::Armed, TimerEvent::Expire) => Some(
                TimerState::Firing { acknowledged: false },
            ),
            (TimerState::Firing { acknowledged }, TimerEvent::Acknowledge) => Some(
                TimerState::Firing { acknowledged: true },
            ),
            (TimerState::Firing { acknowledged }, TimerEvent::HandlerReturn) => Some(
                if acknowledged {
                    TimerState::Armed
                } else {
                    TimerState::Firing { acknowledged: false }
                },
            ),
            _ => None,
        }
    }

    /// The state after each of `events` in turn, or `None` if one of them cannot happen
    /// in the state reached by those before it.
    pub open spec fn after_all(self, events: Seq<TimerEvent>) -> Option<TimerState>
        decreases events.len(),
    {
        if events.len() == 0 {
            Some(self)
        } else {
            match self.after_all(events.drop_last()) {
                Some(reached) => reached.after(events.last()),
                None => None,
            }
        }
    }

    /// The state of a timer that nothing has touched.
    pub fn new() -> (state: TimerState)
        ensures
            state == TimerState::Unconfigured,
    {
        TimerState::Unconfigured
    }

    /// The state after `event`, or `None` where the event cannot happen in this state.
    pub fn next(self, event: TimerEvent) -> (next: Option<TimerState>)
        ensures
            next == self.after(event),
    {
        match (self, event) {
            (TimerState::Unconfigured, TimerEvent::Configure) => Some(
                TimerState::ConfiguredNotArmed { listening: false, unmasked: false },
            ),
            (TimerState::ConfiguredNotArmed { listening: _, unmasked }, TimerEvent::Listen) => {
                if unmasked {
                    Some(TimerState::Armed)
                } else {
                    Some(TimerState::ConfiguredNotArmed { listening: true, unmasked: false })
                }
            },
            (TimerState::ConfiguredNotArmed { listening, unmasked: _ }, TimerEvent::Unmask) => {
                if listening {
                    Some(TimerState::Armed)
                } else {
                    Some(TimerState::ConfiguredNotArmed { listening: false, unmasked: true })
                }
            },
            (TimerState::Armed, TimerEvent::Expire) => Some(
                TimerState::Firing { acknowledged: false },
            ),
            (TimerState::Firing { acknowledged: _ }, TimerEvent::Acknowledge) => Some(
                TimerState::Firing { acknowledged: true },
            ),
            (TimerState::Firing { acknowledged }, TimerEvent::HandlerReturn) => {
                if acknowledged {
                    Some(TimerState::Armed)
                } else {
                    Some(TimerState::Firing { acknowledged: false })
                }
            },
            _ => None,
        }
    }

    /// Whether the handler is entered when the period runs out.
    pub fn is_armed(self) -> (armed: bool)
        ensures
            armed == (self == TimerState::Armed),
    {
        match self {
            TimerState::Armed => true,
            _ => false,
        }
    }
}

/// Every event leads from a valid state to a valid state.
pub proof fn lemma_after_keeps_valid(state: TimerState, event: TimerEvent)
    requires
        state.valid(),
    ensures
        state.after(event) matches Some(next) ==> next.valid(),
{
}

/// The handler is entered only from an armed timer whose period runs out, or again
/// by a handler that returns without having acknowledged.
pub proof fn lemma_firing_only_when_armed(state: TimerState, event: TimerEvent)
    requires
        state.after(event) matches Some(next) && next is Firing,
    ensures
        (state == TimerState::Armed && event == TimerEvent::Expire) || state is Firing,
        (state is Firing && event == TimerEvent::HandlerReturn) ==> state
            == (TimerState::Firing { acknowledged: false }),
{
}

/// No interrupt before setup is complete: whatever happens to a timer that nothing
/// has touched, it is armed or firing only after it was given its period, made to
/// raise its interrupt, and had its line unmasked.
pub proof fn lemma_no_firing_before_setup(events: Seq<TimerEvent>)
    ensures
        match TimerState::Unconfigured.after_all(events) {
            Some(TimerState::Unconfigured) => true,
            Some(TimerState::ConfiguredNotArmed { listening, unmasked }) => {
                &&& events.contains(TimerEvent::Configure)
                &&& listening ==> events.contains(TimerEvent::Listen)
                &&& unmasked ==> events.contains(TimerEvent::Unmask)
                &&& !(listening && unmasked)
            },
            Some(_) => {
                &&& events.contains(TimerEvent::Configure)
                &&& events.contains(TimerEvent::Listen)
                &&& events.contains(TimerEvent::Unmask)
            },
            None => true,
        },
    decreases events.len(),
{
    if events.len() > 0 {
        let init = events.drop_last();
        lemma_no_firing_before_setup(init);
        assert forall|e: TimerEvent| init.contains(e) implies events.contains(e) by {
            let i = choose|i: int| 0 <= i < init.len() && init[i] == e;
            assert(events[i] == e);
        }
        assert(events.contains(events.last())) by {
            assert(events[events.len() - 1] == events.last());
        }
    }
}

/// A handler that never acknowledges never gets out: however often it returns, it is
/// entered again, and the timer is not armed.
pub proof fn lemma_unacknowledged_handler_refires(times: nat)
    ensures
        (TimerState::Firing { acknowledged: false }).after_all(
            Seq::new(times, |i: int| TimerEvent::HandlerReturn),
        ) == Some(TimerState::Firing { acknowledged: false }),
    decreases times,
{
    let events = Seq::new(times, |i: int| TimerEvent::HandlerReturn);
    if times > 0 {
        lemma_unacknowledged_handler_refires((times - 1) as nat);
        assert(events.drop_last() == Seq::new(
            (times - 1) as nat,
            |i: int| TimerEvent::HandlerReturn,
        ));
    }
}

} // verus!
