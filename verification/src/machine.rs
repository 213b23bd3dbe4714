//! A model of the whole machine: the interrupt context and the main loop working
//! on one counter through one gate. The timer's handler and the main loop's
//! iteration are operations that may be called in any order; the machine keeps a
//! log of every critical section opened or closed and of every access to the counter.

use crate::counter::{successor, SharedCounter};
use crate::gate::{CriticalSection, Gate};
use crate::log::{
    bracketed, increments, is_access, lemma_accesses_are_guarded, lemma_bracketed_append,
    lemma_increments_push, lemma_reads_consistent_append, reads_consistent, section, Step,
};
use crate::main_loop::{Action, Event, LoopState, MainLoop, Phase};
use crate::text::{rendered, TextBuffer};
use crate::timer::{TimerEvent, TimerState};
use vstd::prelude::*;

verus! {

/// The machine: its gate, the counter behind it, the timer that interrupts, the main
/// loop, and the log.
pub struct Machine {
    gate: Gate,
    counter: SharedCounter,
    timer: TimerState,
    main_loop: MainLoop,
    log: Vec<Step>,
}

impl Machine {
    /// The log: every critical section opened or closed and every access to the counter
    /// since the machine started, in the order in which they happened.
    pub closed spec fn history(&self) -> Seq<Step> {
        self.log@
    }

    /// The counter's value.
    pub closed spec fn value(&self) -> u8 {
        self.counter@
    }

    /// The state of the timer.
    pub closed spec fn timer(&self) -> TimerState {
        self.timer
    }

    /// The state of the main loop.
    pub closed spec fn main_loop(&self) -> LoopState {
        self.main_loop@
    }

    /// Whether interrupts are delivered.
    pub closed spec fn interrupts_enabled(&self) -> bool {
        self.gate.enabled()
    }

    /// How many times the timer's handler has run to its end.
    pub open spec fn fired(&self) -> nat {
        increments(self.history())
    }

    /// What holds of the machine between any two of its operations: no critical
    /// section is open, the timer is armed, the counter holds the number of completed
    /// firings modulo 256, every access in the log lies in a critical section, and every
    /// read in the log returned the number of firings completed before it, modulo 256.
    pub open spec fn wf(&self) -> bool {
        &&& self.interrupts_enabled()
        &&& self.timer() == TimerState::Armed
        &&& self.value() == self.fired() % 256
        &&& bracketed(self.history())
        &&& reads_consistent(self.history())
    }

    /// What the main loop's next step reports: the counter's value when it is about to
    /// read, the display's answer when it is about to write, and the end of the sleep
    /// when it is about to sleep.
    pub open spec fn report(&self, display_works: bool) -> Event {
        match self.main_loop().phase {
            Phase::Snapshot => Event::CounterRead(self.value()),
            Phase::Write(_) => Event::Written(display_works),
            Phase::Sleep => Event::Woke,
        }
    }

    /// Opens a critical section and logs it.
    fn open_section(&mut self) -> (held: (CriticalSection, bool))
        ensures
            !final(self).interrupts_enabled(),
            held.1 == old(self).interrupts_enabled(),
            final(self).history() == old(self).history().push(Step::Enter),
            final(self).value() == old(self).value(),
            final(self).timer() == old(self).timer(),
            final(self).main_loop() == old(self).main_loop(),
    {
        let held = self.gate.enter();
        self.log.push(Step::Enter);
        held
    }

    /// Closes a critical section and logs it.
    fn close_section(&mut self, cs: CriticalSection, restore: bool)
        ensures
            final(self).interrupts_enabled() == restore,
            final(self).history() == old(self).history().push(Step::Exit),
            final(self).value() == old(self).value(),
            final(self).timer() == old(self).timer(),
            final(self).main_loop() == old(self).main_loop(),
    {
        self.gate.exit(cs, restore);
        self.log.push(Step::Exit);
    }

    /// Increments the counter and logs it. Interrupts must be off.
    fn increment_counter(&mut self, cs: &CriticalSection)
        requires
            !old(self).interrupts_enabled(),
        ensures
            !final(self).interrupts_enabled(),
            final(self).history() == old(self).history().push(Step::Increment),
            final(self).value() == successor(old(self).value()),
            final(self).timer() == old(self).timer(),
            final(self).main_loop() == old(self).main_loop(),
    {
        self.counter.increment(cs);
        self.log.push(Step::Increment);
    }

    /// Reads the counter and logs it. Interrupts must be off.
    fn read_counter(&mut self, cs: &CriticalSection) -> (value: u8)
        requires
            !old(self).interrupts_enabled(),
        ensures
            !final(self).interrupts_enabled(),
            value == old(self).value(),
            final(self).history() == old(self).history().push(Step::Read(value)),
            final(self).value() == old(self).value(),
            final(self).timer() == old(self).timer(),
            final(self).main_loop() == old(self).main_loop(),
    {
        let value = self.counter.read(cs);
        self.log.push(Step::Read(value));
        value
    }

    /// Moves the timer on by an event that can happen in its state.
    fn timer_event(&mut self, event: TimerEvent)
        requires
            old(self).timer().after(event) is Some,
        ensures
            Some(final(self).timer()) == old(self).timer().after(event),
            final(self).interrupts_enabled() == old(self).interrupts_enabled(),
            final(self).history() == old(self).history(),
            final(self).value() == old(self).value(),
            final(self).main_loop() == old(self).main_loop(),
    {
        if let Some(next) = self.timer.next(event) {
            self.timer = next;
        }
    }

    /// Starts the machine. Inside one critical section, so that no interrupt sees the
    /// timer half set up, the timer gets its period, is made to raise its interrupt and
    /// has its line unmasked. The counter starts at 0 and the main loop at its first
    /// iteration.
    pub fn new() -> (machine: Machine)
        ensures
            machine.wf(),
            machine.history() == seq![Step::Enter, Step::Exit],
            machine.value() == 0,
            machine.main_loop() == (LoopState { phase: Phase::Snapshot, faults: 0 }),
    {
        let mut machine = Machine {
            gate: Gate::new(),
            counter: SharedCounter::new(),
            timer: TimerState::new(),
            main_loop: MainLoop::new(),
            log: Vec::new(),
        };
        let (cs, was_enabled) = machine.open_section();
        machine.timer_event(TimerEvent::Configure);
        machine.timer_event(TimerEvent::Listen);
        machine.timer_event(TimerEvent::Unmask);
        machine.close_section(cs, was_enabled);
        proof {
            let log = machine.history();
            lemma_bracketed_append(Seq::empty(), Seq::empty());
            assert(log == Seq::<Step>::empty().push(Step::Enter) + Seq::<Step>::empty().push(
                Step::Exit,
            ));
            assert(log == seq![Step::Enter].push(Step::Exit));
            lemma_increments_push(Seq::empty(), Step::Enter);
            lemma_increments_push(seq![Step::Enter], Step::Exit);
        }
        machine
    }

    /// The timer's period runs out: the handler is entered, acknowledges the timer's
    /// pending event, increments the counter inside a critical section, and returns.
    ///
    /// This does not depend on what the main loop is doing or on how many of its writes
    /// have failed.
    pub fn fire(&mut self)
        requires
            old(self).wf(),
        ensures
            final(self).wf(),
            final(self).history() == old(self).history() + seq![
                Step::Enter,
                Step::Increment,
                Step::Exit,
            ],
            final(self).fired() == old(self).fired() + 1,
            final(self).value() == successor(old(self).value()),
            final(self).main_loop() == old(self).main_loop(),
    {
        self.timer_event(TimerEvent::Expire);
        self.timer_event(TimerEvent::Acknowledge);
        let (cs, was_enabled) = self.open_section();
        self.increment_counter(&cs);
        self.close_section(cs, was_enabled);
        self.timer_event(TimerEvent::HandlerReturn);
        proof {
            let before = old(self).history();
            lemma_bracketed_append(before, seq![Step::Increment]);
            lemma_reads_consistent_append(before, Step::Increment);
            assert(self.history() == before.push(Step::Enter) + seq![Step::Increment].push(
                Step::Exit,
            ));
            assert(self.history() == before + seq![Step::Enter, Step::Increment, Step::Exit]);
            lemma_increments_push(before, Step::Enter);
            lemma_increments_push(before.push(Step::Enter), Step::Increment);
            lemma_increments_push(before.push(Step::Enter).push(Step::Increment), Step::Exit);
        }
    }

    /// The main loop reads the counter inside a critical section.
    ///
    /// The value is the number of firings completed before the read, modulo 256,
    /// however firings and reads have alternated up to here.
    pub fn snapshot(&mut self) -> (value: u8)
        requires
            old(self).wf(),
        ensures
            final(self).wf(),
            value == old(self).fired() % 256,
            value == old(self).value(),
            final(self).history() == old(self).history() + seq![
                Step::Enter,
                Step::Read(value),
                Step::Exit,
            ],
            final(self).fired() == old(self).fired(),
            final(self).value() == old(self).value(),
            final(self).main_loop() == old(self).main_loop(),
    {
        let (cs, was_enabled) = self.open_section();
        let value = self.read_counter(&cs);
        self.close_section(cs, was_enabled);
        proof {
            let before = old(self).history();
            lemma_bracketed_append(before, seq![Step::Read(value)]);
            lemma_reads_consistent_append(before, Step::Read(value));
            assert(self.history() == before.push(Step::Enter) + seq![Step::Read(value)].push(
                Step::Exit,
            ));
            assert(self.history() == before + seq![Step::Enter, Step::Read(value), Step::Exit]);
            lemma_increments_push(before, Step::Enter);
            lemma_increments_push(before.push(Step::Enter), Step::Read(value));
            lemma_increments_push(before.push(Step::Enter).push(Step::Read(value)), Step::Exit);
        }
        value
    }

    /// The main loop does what it is about to do: read the counter, write its text to
    /// the display, or sleep. `display_works` says whether the display takes a write;
    /// the text it took is returned.
    ///
    /// Whatever the display answers, the step is taken and the loop goes on; the counter
    /// is never changed by it.
    pub fn main_loop_step(&mut self, display_works: bool) -> (shown: Option<TextBuffer>)
        requires
            old(self).wf(),
        ensures
            final(self).wf(),
            old(self).main_loop().accepts(old(self).report(display_works)),
            final(self).main_loop() == old(self).main_loop().after(
                old(self).report(display_works),
            ),
            final(self).history() == if old(self).main_loop().phase == Phase::Snapshot {
                old(self).history() + seq![
                    Step::Enter,
                    Step::Read(old(self).value()),
                    Step::Exit,
                ]
            } else {
                old(self).history()
            },
            final(self).fired() == old(self).fired(),
            final(self).value() == old(self).value(),
            shown is Some <==> display_works && old(self).main_loop().phase is Write,
            shown matches Some(text) ==> text@ == rendered(old(self).main_loop().phase->Write_0),
    {
        match self.main_loop.action() {
            Action::ReadCounter => {
                let value = self.snapshot();
                let _ = self.main_loop.step(Event::CounterRead(value));
                None
            },
            Action::WriteText(text) => {
                let _ = self.main_loop.step(Event::Written(display_works));
                if display_works {
                    Some(text)
                } else {
                    None
                }
            },
            Action::Sleep(_) => {
                let _ = self.main_loop.step(Event::Woke);
                None
            },
        }
    }

    /// The log so far.
    pub fn log(&self) -> (log: &Vec<Step>)
        ensures
            log@ == self.history(),
    {
        &self.log
    }

    /// What the main loop is about to do.
    pub fn phase(&self) -> (phase: Phase)
        ensures
            phase == self.main_loop().phase,
    {
        self.main_loop.phase()
    }

    /// How many of the main loop's writes to the display have failed, up to `u64::MAX`.
    pub fn faults(&self) -> (faults: u64)
        ensures
            faults == self.main_loop().faults,
    {
        self.main_loop.faults()
    }
}

/// Whatever the machine has done so far, in whatever order: every access to the counter
/// in its log lies inside a critical section, between an `Enter` and the `Exit` that
/// matches it, and every read in its log returned the number of firings completed
/// before that read, modulo 256.
pub proof fn lemma_log_is_sound(machine: Machine, i: int)
    requires
        machine.wf(),
        0 <= i < machine.history().len(),
    ensures
        is_access(machine.history()[i]) ==> exists|a: int, b: int|
            a < i < b && #[trigger] section(machine.history(), a, b),
        machine.history()[i] matches Step::Read(value) ==> value == increments(
            machine.history().take(i),
        ) % 256,
{
    if is_access(machine.history()[i]) {
        lemma_accesses_are_guarded(machine.history(), i);
    }
}

} // verus!
