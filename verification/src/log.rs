//! The log of a run: every critical section opened or closed and every access to the
//! counter, in the order in which they happened, and what makes such a log sound.

use crate::counter::next_value;
use vstd::prelude::*;

verus! {

/// One entry of the machine's log.
#[derive(Clone, Copy, Debug, PartialEq, Eq, Structural)]
pub enum Step {
    /// A critical section was opened.
    Enter,
    /// The counter was incremented.
    Increment,
    /// The counter was read and had this value.
    Read(u8),
    /// A critical section was closed.
    Exit,
}

/// Whether `step` touches the counter.
pub open spec fn is_access(step: Step) -> bool {
    step is Increment || step is Read
}

/// Whether positions `a` to `b` of `log` are one critical section: an `Enter`, then
/// nothing but accesses, then the `Exit` that matches it.
pub open spec fn section(log: Seq<Step>, a: int, b: int) -> bool {
    &&& 0 <= a < b < log.len()
    &&& log[a] == Step::Enter
    &&& log[b] == Step::Exit
    &&& forall|k: int| a < k < b ==> is_access(#[trigger] log[k])
}

/// Whether position `i` of `log` lies in a critical section.
pub open spec fn in_section(log: Seq<Step>, i: int) -> bool {
    exists|a: int, b: int| a <= i <= b && #[trigger] section(log, a, b)
}

/// Whether every entry of `log` lies in a critical section: every `Enter` has its
/// `Exit`, every `Exit` its `Enter`, and every access to the counter lies between an
/// `Enter` and the `Exit` that matches it.
pub open spec fn bracketed(log: Seq<Step>) -> bool {
    forall|i: int| 0 <= i < log.len() ==> #[trigger] in_section(log, i)
}

/// Whether every read in `log` returned the number of increments completed before it,
/// modulo 256.
pub open spec fn reads_consistent(log: Seq<Step>) -> bool {
    forall|i: int|
        0 <= i < log.len() ==> (#[trigger] log[i] matches Step::Read(value) ==> value
            == increments(log.take(i)) % 256)
}

/// How many increments `log` holds.
pub open spec fn increments(log: Seq<Step>) -> nat
    decreases log.len(),
{
    if log.len() == 0 {
        0
    } else {
        increments(log.drop_last()) + if log.last() == Step::Increment {
            1nat
        } else {
            0nat
        }
    }
}

/// A log stays bracketed when a whole critical section is appended to it: an
/// `Enter`, any number of accesses, and an `Exit`.
pub proof fn lemma_bracketed_append(log: Seq<Step>, accesses: Seq<Step>)
    requires
        bracketed(log),
        forall|k: int| 0 <= k < accesses.len() ==> is_access(#[trigger] accesses[k]),
    ensures
        bracketed(log.push(Step::Enter) + accesses.push(Step::Exit)),
{
    let longer = log.push(Step::Enter) + accesses.push(Step::Exit);
    let first = log.len() as int;
    let last = first + accesses.len() + 1;
    assert(section(longer, first, last)) by {
        assert forall|k: int| first < k < last implies is_access(#[trigger] longer[k]) by {
            assert(longer[k] == accesses[k - first - 1]);
        }
    }
    assert forall|i: int| 0 <= i < longer.len() implies #[trigger] in_section(longer, i) by {
        if i < first {
            assert(in_section(log, i));
            let (a, b) = choose|a: int, b: int| a <= i <= b && #[trigger] section(log, a, b);
            assert(section(longer, a, b)) by {
                assert forall|k: int| a < k < b implies is_access(#[trigger] longer[k]) by {
                    assert(longer[k] == log[k]);
                }
            }
        }
    }
}

/// In a bracketed log no access to the counter happens outside a critical section:
/// each one has an `Enter` before it and the matching `Exit` after it, with nothing
/// but accesses between the two.
pub proof fn lemma_accesses_are_guarded(log: Seq<Step>, i: int)
    requires
        bracketed(log),
        0 <= i < log.len(),
        is_access(log[i]),
    ensures
        exists|a: int, b: int| a < i < b && #[trigger] section(log, a, b),
{
    assert(in_section(log, i));
    let (a, b) = choose|a: int, b: int| a <= i <= b && #[trigger] section(log, a, b);
    assert(a < i < b && section(log, a, b));
}

/// Appending a step adds one increment if the step is one, and none otherwise.
pub proof fn lemma_increments_push(log: Seq<Step>, step: Step)
    ensures
        increments(log.push(step)) == increments(log) + if step == Step::Increment {
            1nat
        } else {
            0nat
        },
{
    assert(log.push(step).drop_last() == log);
}

/// A log in which every read is consistent stays so when one critical section is
/// appended whose access is an increment, or a read of the number of increments in
/// the log modulo 256.
pub proof fn lemma_reads_consistent_append(log: Seq<Step>, access: Step)
    requires
        reads_consistent(log),
        access matches Step::Read(value) ==> value == increments(log) % 256,
        is_access(access),
    ensures
        reads_consistent(log.push(Step::Enter).push(access).push(Step::Exit)),
{
    let longer = log.push(Step::Enter).push(access).push(Step::Exit);
    assert forall|i: int| 0 <= i < longer.len() implies (#[trigger] longer[i] matches Step::Read(
        value,
    ) ==> value == increments(longer.take(i)) % 256) by {
        if i < log.len() {
            assert(longer.take(i) == log.take(i));
            assert(longer[i] == log[i]);
        } else if i == log.len() + 1 {
            assert(longer.take(i) == log.push(Step::Enter));
            lemma_increments_push(log, Step::Enter);
        }
    }
}

/// The increments in the first `j` steps are those in the first `i` steps and those
/// between the two positions; none is lost.
pub proof fn lemma_increments_grow(log: Seq<Step>, i: int, j: int)
    requires
        0 <= i <= j <= log.len(),
    ensures
        increments(log.take(j)) == increments(log.take(i)) + increments(log.subrange(i, j)),
    decreases j - i,
{
    if i == j {
        assert(log.subrange(i, j) == Seq::<Step>::empty());
    } else {
        lemma_increments_grow(log, i, j - 1);
        assert(log.take(j) == log.take(j - 1).push(log[j - 1]));
        assert(log.subrange(i, j) == log.subrange(i, j - 1).push(log[j - 1]));
        lemma_increments_push(log.take(j - 1), log[j - 1]);
        lemma_increments_push(log.subrange(i, j - 1), log[j - 1]);
    }
}

/// Between two reads the counter only moves forward: the later read returns the
/// earlier one's value advanced by the number of increments between the two, modulo
/// 256.
pub proof fn lemma_later_read_is_earlier_read_advanced(log: Seq<Step>, i: int, j: int)
    requires
        reads_consistent(log),
        0 <= i <= j < log.len(),
        log[i] is Read,
        log[j] is Read,
    ensures
        log[j]->Read_0 == (log[i]->Read_0 + increments(log.subrange(i, j))) % 256,
{
    lemma_increments_grow(log, i, j);
}

/// In a bracketed log a section starts at every `Enter`.
pub proof fn lemma_enter_opens_section(log: Seq<Step>, i: int)
    requires
        0 <= i < log.len(),
        in_section(log, i),
        log[i] == Step::Enter,
    ensures
        exists|b: int| #[trigger] section(log, i, b),
{
    let (a, b) = choose|a: int, b: int| a <= i <= b && #[trigger] section(log, a, b);
    if a < i {
        if i < b {
            assert(is_access(log[i]));
        }
    }
    assert(section(log, i, b));
}

/// A log is not bracketed if it has a step outside a section: one that is no `Enter`
/// and comes after a bracketed beginning.
pub proof fn lemma_step_outside_section(log: Seq<Step>, i: int)
    requires
        0 <= i < log.len(),
        bracketed(log.take(i)),
        log[i] != Step::Enter,
    ensures
        !bracketed(log),
{
    if bracketed(log) {
        assert(in_section(log, i));
        let (a, b) = choose|a: int, b: int| a <= i <= b && #[trigger] section(log, a, b);
        let begin = log.take(i);
        assert(in_section(begin, a));
        lemma_enter_opens_section(begin, a);
        let b2 = choose|b2: int| #[trigger] section(begin, a, b2);
        assert(begin[b2] == log[b2]);
        assert(is_access(log[b2]));
    }
}

/// A log is not bracketed if it has a section that is not closed: an `Enter` followed
/// by nothing but accesses up to the end of the log or up to the next `Enter`.
pub proof fn lemma_section_left_open(log: Seq<Step>, start: int, i: int)
    requires
        0 <= start < i <= log.len(),
        log[start] == Step::Enter,
        forall|k: int| start < k < i ==> is_access(#[trigger] log[k]),
        i < log.len() ==> log[i] == Step::Enter,
    ensures
        !bracketed(log),
{
    if bracketed(log) {
        assert(in_section(log, start));
        lemma_enter_opens_section(log, start);
        let b = choose|b: int| #[trigger] section(log, start, b);
        if b < i {
            assert(is_access(log[b]));
        } else if b > i {
            assert(is_access(log[i]));
        }
    }
}

/// Whether every entry of `log` lies in a critical section.
pub fn is_bracketed(log: &Vec<Step>) -> (sound: bool)
    ensures
        sound == bracketed(log@),
{
    let mut open = false;
    let ghost mut start: int = 0;
    let mut i: usize = 0;
    while i < log.len()
        invariant
            i <= log.len(),
            !open ==> bracketed(log@.take(i as int)),
            open ==> 0 <= start < i && log@[start] == Step::Enter && bracketed(log@.take(start))
                && forall|k: int| start < k < i ==> is_access(#[trigger] log@[k]),
        decreases log.len() - i,
    {
        match log[i] {
            Step::Enter => {
                if open {
                    proof {
                        lemma_section_left_open(log@, start, i as int);
                    }
                    return false;
                }
                open = true;
                proof {
                    start = i as int;
                }
            },
            Step::Exit => {
                if !open {
                    proof {
                        lemma_step_outside_section(log@, i as int);
                    }
                    return false;
                }
                open = false;
                proof {
                    let accesses = log@.subrange(start + 1, i as int);
                    lemma_bracketed_append(log@.take(start), accesses);
                    assert(log@.take(i + 1) == log@.take(start).push(Step::Enter) + accesses.push(
                        Step::Exit,
                    ));
                }
            },
            _ => {
                if !open {
                    proof {
                        lemma_step_outside_section(log@, i as int);
                    }
                    return false;
                }
            },
        }
        i += 1;
    }
    proof {
        if open {
            lemma_section_left_open(log@, start, i as int);
        } else {
            assert(log@.take(i as int) == log@);
        }
    }
    !open
}

/// Whether every read in `log` returned the number of increments completed before it,
/// modulo 256.
pub fn has_consistent_reads(log: &Vec<Step>) -> (sound: bool)
    ensures
        sound == reads_consistent(log@),
{
    let mut count: u8 = 0;
    let mut i: usize = 0;
    while i < log.len()
        invariant
            i <= log.len(),
            count == increments(log@.take(i as int)) % 256,
            forall|j: int|
                0 <= j < i ==> (#[trigger] log@[j] matches Step::Read(value) ==> value
                    == increments(log@.take(j)) % 256),
        decreases log.len() - i,
    {
        match log[i] {
            Step::Read(value) => {
                if value != count {
                    return false;
                }
            },
            Step::Increment => {
                count = next_value(count);
            },
            _ => {},
        }
        proof {
            assert(log@.take(i + 1) == log@.take(i as int).push(log@[i as int]));
            lemma_increments_push(log@.take(i as int), log@[i as int]);
        }
        i += 1;
    }
    true
}

} // verus!
