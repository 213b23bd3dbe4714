//! The critical-section gate: while a section is open, interrupt delivery is off,
//! and the token that the section hands out is the only way to the shared state.

use vstd::prelude::*;

verus! {

/// Proof that a critical section is open. A token is made only by a [`Gate`], exists
/// only while the section is open, and carries no data.
pub struct CriticalSection {
    held: (),
}

/// The machine's interrupt-enable flag.
pub struct Gate {
    enabled: bool,
}

impl Gate {
    /// Whether interrupts are delivered.
    pub closed spec fn enabled(&self) -> bool {
        self.enabled
    }

    /// A gate as it is when a machine has just started: interrupts are delivered.
    pub fn new() -> (gate: Gate)
        ensures
            gate.enabled(),
    {
        Gate { enabled: true }
    }

    /// Whether interrupts are delivered.
    pub fn interrupts_enabled(&self) -> (on: bool)
        ensures
            on == self.enabled(),
    {
        self.enabled
    }

    /// Turns interrupt delivery off.
    pub fn disable(&mut self)
        ensures
            !final(self).enabled(),
    {
        self.enabled = false;
    }

    /// Turns interrupt delivery on.
    pub fn enable(&mut self)
        ensures
            final(self).enabled(),
    {
        self.enabled = true;
    }

    /// Opens a critical section: turns interrupt delivery off and returns the token
    /// together with the flag as it was, for [`Gate::exit`] to restore.
    pub(crate) fn enter(&mut self) -> (held: (CriticalSection, bool))
        ensures
            !final(self).enabled(),
            held.1 == old(self).enabled(),
    {
        let was_enabled = self.enabled;
        self.enabled = false;
        (CriticalSection { held: () }, was_enabled)
    }

    /// Closes a critical section: takes the token back and puts the flag to `restore`.
    pub(crate) fn exit(&mut self, cs: CriticalSection, restore: bool)
        ensures
            final(self).enabled() == restore,
    {
        self.enabled = restore;
    }

    /// Runs `f` inside a critical section and returns what it returns.
    ///
    /// Interrupt delivery is turned off, `f` is called with the token, and delivery is
    /// put back to what it was before the call: a section that is run while delivery is
    /// off leaves it off.
    pub fn with_critical_section<R, F: FnOnce(&CriticalSection) -> R>(&mut self, f: F) -> (r: R)
        requires
            forall|cs: CriticalSection| f.requires((&cs,)),
        ensures
            exists|cs: CriticalSection| f.ensures((&cs,), r),
            final(self).enabled() == old(self).enabled(),
    {
        let (cs, was_enabled) = self.enter();
        let r = f(&cs);
        self.exit(cs, was_enabled);
        r
    }
}

} // verus!
