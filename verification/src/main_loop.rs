//! The decisions of the main loop. Each iteration reads the counter, writes its text
//! to the display and sleeps; reading, writing and sleeping are done by the caller,
//! who is told what to do next and reports back what happened.

use crate::text::{render, rendered, TextBuffer};
use vstd::prelude::*;

verus! {

/// How long the loop sleeps between two refreshes, in milliseconds.
pub const REFRESH_INTERVAL_MS: u16 = 200;

/// What the loop is about to do.
#[derive(Clone, Copy, Debug, PartialEq, Eq, Structural)]
pub enum Phase {
    /// Read the counter inside a critical section.
    Snapshot,
    /// Write the text of the value read to the display.
    Write(u8),
    /// Sleep until the next refresh.
    Sleep,
}

/// What the caller is asked to do.
pub enum Action {
    /// Read the counter inside a critical section and report the value.
    ReadCounter,
    /// Write this text to the display and report whether the display took it.
    WriteText(TextBuffer),
    /// Sleep for this many milliseconds and report back.
    Sleep(u16),
}

/// What the caller reports.
#[derive(Clone, Copy, Debug, PartialEq, Eq, Structural)]
pub enum Event {
    /// The counter was read and had this value.
    CounterRead(u8),
    /// The write to the display ended; `true` if the display took the text.
    Written(bool),
    /// The sleep is over.
    Woke,
}

/// An event was reported that does not answer the action asked for.
#[derive(Clone, Copy, Debug, PartialEq, Eq, Structural)]
pub enum StepError {
    UnexpectedEvent,
}

/// The state of the loop as contracts see it.
pub struct LoopState {
    /// What the loop is about to do.
    pub phase: Phase,
    /// How many writes to the display have failed, up to `u64::MAX`.
    pub faults: u64,
}

impl LoopState {
    /// Whether `event` answers the action of this phase.
    pub open spec fn accepts(self, event: Event) -> bool {
        match (self.phase, event) {
            (Phase::Snapshot, Event::CounterRead(_)) => true,
            (Phase::Write(_), Event::Written(_)) => true,
            (Phase::Sleep, Event::Woke) => true,
            _ => false,
        }
    }

    /// The state after an event that this state accepts. A failed write is counted
    /// and the loop goes on to sleep as after a successful one.
    pub open spec fn after(self, event: Event) -> LoopState {
        match event {
            Event::CounterRead(value) => LoopState { phase: Phase::Write(value), ..self },
            Event::Written(taken) => LoopState {
                phase: Phase::Sleep,
                faults: if taken || self.faults == u64::MAX {
                    self.faults
                } else {
                    (self.faults + 1) as u64
                },
            },
            Event::Woke => LoopState { phase: Phase::Snapshot, ..self },
        }
    }

    /// Whether `action` is what the loop asks for in this phase.
    pub open spec fn asks(self, action: Action) -> bool {
        match self.phase {
            Phase::Snapshot => action is ReadCounter,
            Phase::Write(value) => action matches Action::WriteText(text) && text@ == rendered(
                value,
            ),
            Phase::Sleep => action == Action::Sleep(REFRESH_INTERVAL_MS),
        }
    }
}

/// The main loop's state: where in the iteration it is, and how many writes to the
/// display have failed so far.
pub struct MainLoop {
    phase: Phase,
    faults: u64,
}

impl View for MainLoop {
    type V = LoopState;

    closed spec fn view(&self) -> LoopState {
        LoopState { phase: self.phase, faults: self.faults }
    }
}

impl MainLoop {
    /// A loop at the start of its first iteration, with no fault counted.
    pub fn new() -> (main_loop: MainLoop)
        ensures
            main_loop@ == (LoopState { phase: Phase::Snapshot, faults: 0 }),
    {
        MainLoop { phase: Phase::Snapshot, faults: 0 }
    }

    /// What the loop is about to do.
    pub fn phase(&self) -> (phase: Phase)
        ensures
            phase == self@.phase,
    {
        self.phase
    }

    /// How many writes to the display have failed so far, up to `u64::MAX`.
    pub fn faults(&self) -> (faults: u64)
        ensures
            faults == self@.faults,
    {
        self.faults
    }

    /// What the caller is asked to do now.
    pub fn action(&self) -> (action: Action)
        ensures
            self@.asks(action),
    {
        match self.phase {
            Phase::Snapshot => Action::ReadCounter,
            Phase::Write(value) => Action::WriteText(render(value)),
            Phase::Sleep => Action::Sleep(REFRESH_INTERVAL_MS),
        }
    }

    /// Takes the report of what happened and returns what to do next.
    ///
    /// An event that does not answer the action asked for is refused and changes
    /// nothing. A failed write is no such event: it is counted, and the loop goes on.
    pub fn step(&mut self, event: Event) -> (next: Result<Action, StepError>)
        ensures
            next is Ok <==> old(self)@.accepts(event),
            next matches Ok(action) ==> final(self)@ == old(self)@.after(event)
                && final(self)@.asks(action),
            next matches Err(error) ==> error == StepError::UnexpectedEvent
                && final(self)@ == old(self)@,
    {
        match (self.phase, event) {
            (Phase::Snapshot, Event::CounterRead(value)) => {
                self.phase = Phase::Write(value);
            },
            (Phase::Write(_), Event::Written(taken)) => {
                if !taken {
                    self.faults = self.faults.saturating_add(1);
                }
                self.phase = Phase::Sleep;
            },
            (Phase::Sleep, Event::Woke) => {
                self.phase = Phase::Snapshot;
            },
            _ => {
                return Err(StepError::UnexpectedEvent);
            },
        }
        Ok(self.action())
    }
}

/// One iteration as the caller lived it: the value read, and whether the display took
/// its text.
pub struct Round {
    pub value: u8,
    pub taken: bool,
}

/// Whether a loop in state `state` accepts the three reports of `round` in turn.
pub open spec fn runs_round(state: LoopState, round: Round) -> bool {
    let read = Event::CounterRead(round.value);
    let written = Event::Written(round.taken);
    &&& state.accepts(read)
    &&& state.after(read).accepts(written)
    &&& state.after(read).after(written).accepts(Event::Woke)
}

/// The state after the three reports of `round`.
pub open spec fn after_round(state: LoopState, round: Round) -> LoopState {
    state.after(Event::CounterRead(round.value)).after(Event::Written(round.taken)).after(
        Event::Woke,
    )
}

/// The state after each of `rounds` in turn.
pub open spec fn after_rounds(state: LoopState, rounds: Seq<Round>) -> LoopState
    decreases rounds.len(),
{
    if rounds.len() == 0 {
        state
    } else {
        after_round(after_rounds(state, rounds.drop_last()), rounds.last())
    }
}

/// How many of `rounds` had a failed write.
pub open spec fn failures(rounds: Seq<Round>) -> nat
    decreases rounds.len(),
{
    if rounds.len() == 0 {
        0
    } else {
        failures(rounds.drop_last()) + if rounds.last().taken {
            0nat
        } else {
            1nat
        }
    }
}

/// Failed writes never stop the loop. From the start of an iteration, whatever values
/// are read and whichever writes fail, every round runs to its end, the loop is then
/// at the start of the next iteration, and each failed write has been counted.
pub proof fn lemma_loop_outlives_failed_writes(state: LoopState, rounds: Seq<Round>)
    requires
        state.phase == Phase::Snapshot,
    ensures
        forall|k: int|
            0 <= k < rounds.len() ==> runs_round(
                after_rounds(state, rounds.take(k)),
                #[trigger] rounds[k],
            ),
        after_rounds(state, rounds).phase == Phase::Snapshot,
        after_rounds(state, rounds).faults == if state.faults + failures(rounds) <= u64::MAX {
            state.faults + failures(rounds)
        } else {
            u64::MAX as int
        },
    decreases rounds.len(),
{
    if rounds.len() > 0 {
        let init = rounds.drop_last();
        lemma_loop_outlives_failed_writes(state, init);
        assert forall|k: int| 0 <= k < rounds.len() implies runs_round(
            after_rounds(state, rounds.take(k)),
            #[trigger] rounds[k],
        ) by {
            if k < init.len() {
                assert(rounds.take(k) == init.take(k));
                assert(rounds[k] == init[k]);
            } else {
                assert(rounds.take(k) == init);
            }
        }
    }
}

} // verus!
