//! Filesystem-readiness synchronization.
//!
//! Environment provisioning is performed by an external process whose
//! directory-creation side effects are not otherwise synchronized with this
//! one, so the caller polls: at each tick it probes every awaited directory,
//! hands the outcome to [`wait_step`], and either stops or sleeps for one
//! tick and polls again.  The poll budget is bounded; exhausting it is a
//! timeout, reported as a value and never as a panic.

use vstd::prelude::*;
use crate::error::SubstrateError;

verus! {

/// How many polls the synchronizer performs before giving up.
pub const WAIT_TICK_LIMIT: u32 = 1000;

/// How long the caller sleeps between two polls, in milliseconds.
pub const WAIT_TICK_MILLIS: u64 = 10;

/// Whether every awaited directory existed at one poll.
pub open spec fn spec_all_exist(flags: Seq<bool>) -> bool {
    forall|i: int| 0 <= i < flags.len() ==> flags[i]
}

/// Reports whether every directory existed at this poll, from one existence
/// flag per awaited directory, in the order the directories were given.
pub fn all_dirs_exist(flags: &Vec<bool>) -> (r: bool)
    ensures
        r == spec_all_exist(flags@),
{
    let mut i: usize = 0;
    while i < flags.len()
        invariant
            0 <= i <= flags@.len(),
            forall|j: int| 0 <= j < i ==> flags@[j],
        decreases flags@.len() - i,
    {
        if !flags[i] {
            return false;
        }
        i += 1;
    }
    true
}

/// What the synchronizer does after one poll.
#[derive(Clone, Copy, Debug, PartialEq, Eq, Structural)]
pub enum WaitStep {
    /// Every awaited directory exists: the wait succeeds now.
    Ready,
    /// Not everything exists yet and polls remain: sleep one tick and poll
    /// again.
    Retry,
    /// Not everything exists and the poll budget is spent: the wait fails.
    TimedOut,
}

/// The decision after the poll numbered `ticks_done` (counted from zero)
/// came back with `all_exist`.
pub open spec fn spec_wait_step(ticks_done: nat, all_exist: bool) -> WaitStep {
    if all_exist {
        WaitStep::Ready
    } else if ticks_done + 1 < WAIT_TICK_LIMIT {
        WaitStep::Retry
    } else {
        WaitStep::TimedOut
    }
}

/// Decides what the caller does after one poll: succeed as soon as every
/// directory exists, retry while polls remain, and time out once
/// [`WAIT_TICK_LIMIT`] polls have all failed.
pub fn wait_step(ticks_done: u32, all_exist: bool) -> (r: WaitStep)
    requires
        ticks_done < WAIT_TICK_LIMIT,
    ensures
        r == spec_wait_step(ticks_done as nat, all_exist),
{
    if all_exist {
        WaitStep::Ready
    } else if ticks_done + 1 < WAIT_TICK_LIMIT {
        WaitStep::Retry
    } else {
        WaitStep::TimedOut
    }
}

impl WaitStep {
    /// The error a finished wait reports to the provisioning orchestrator:
    /// a timed-out step is the "directory wait timed out" signal, and the
    /// other steps are no error.
    pub fn to_error(&self) -> (r: Option<SubstrateError>)
        ensures
            *self == WaitStep::TimedOut <==> r == Some(SubstrateError::DirWaitTimedOut),
            *self != WaitStep::TimedOut <==> r is None,
    {
        match self {
            WaitStep::TimedOut => Some(SubstrateError::DirWaitTimedOut),
            _ => None,
        }
    }
}

/// Whether the poll numbered `i` of a run described by `trace` found every
/// directory present.  `trace[i]` records the outcome of poll `i`; a poll
/// past the end of the recorded trace found something missing.
pub open spec fn poll_ok(trace: Seq<bool>, i: nat) -> bool {
    i < trace.len() && trace[i as int]
}

/// The tick at which a run described by `trace` succeeds, starting from poll
/// `i`: the first poll at or after `i`, within the budget, that found every
/// directory present; `None` when the budget runs out first.
pub open spec fn wait_run_from(trace: Seq<bool>, i: nat) -> Option<nat>
    decreases (if i < WAIT_TICK_LIMIT { WAIT_TICK_LIMIT - i } else { 0 }),
{
    if i >= WAIT_TICK_LIMIT {
        None
    } else if poll_ok(trace, i) {
        Some(i)
    } else {
        wait_run_from(trace, i + 1)
    }
}

/// The outcome of a whole run: the winning tick, or `None` for a timeout.
pub open spec fn wait_run(trace: Seq<bool>) -> Option<nat> {
    wait_run_from(trace, 0)
}

/// A run whose very first poll finds every directory present succeeds at
/// once, at tick zero: directories that already exist cost no sleep.
pub proof fn lemma_wait_immediate(trace: Seq<bool>)
    requires
        trace.len() > 0,
        trace[0],
    ensures
        wait_run(trace) == Some(0nat),
{
    assert(poll_ok(trace, 0));
}

/// From any starting poll within the budget, a run in which no poll ever
/// finds every directory present exhausts the budget and times out.
proof fn lemma_wait_timeout_from(trace: Seq<bool>, i: nat)
    requires
        forall|j: nat| !poll_ok(trace, j),
    ensures
        wait_run_from(trace, i) is None,
    decreases (if i < WAIT_TICK_LIMIT { WAIT_TICK_LIMIT - i } else { 0 }),
{
    if i < WAIT_TICK_LIMIT {
        assert(!poll_ok(trace, i));
        lemma_wait_timeout_from(trace, i + 1);
    }
}

/// A run in which some awaited directory never appears fails: every poll in
/// the budget is spent, and the outcome is a timeout, not a success and not
/// an early exit.
pub proof fn lemma_wait_timeout(trace: Seq<bool>)
    requires
        forall|j: int| 0 <= j < trace.len() ==> !trace[j],
    ensures
        wait_run(trace) is None,
{
    assert forall|j: nat| !poll_ok(trace, j) by {
        if j < trace.len() {
            assert(!trace[j as int]);
        }
    }
    lemma_wait_timeout_from(trace, 0);
}

/// A run that succeeds does so within the poll budget: the winning tick is
/// below [`WAIT_TICK_LIMIT`], so success never takes longer than a timeout.
pub proof fn lemma_wait_bounded(trace: Seq<bool>, i: nat)
    requires
        wait_run_from(trace, i) is Some,
    ensures
        i <= wait_run_from(trace, i)->0 < WAIT_TICK_LIMIT,
        poll_ok(trace, wait_run_from(trace, i)->0),
    decreases (if i < WAIT_TICK_LIMIT { WAIT_TICK_LIMIT - i } else { 0 }),
{
    if i < WAIT_TICK_LIMIT {
        if !poll_ok(trace, i) {
            lemma_wait_bounded(trace, i + 1);
        }
    }
}

/// One poll of the run model agrees with [`spec_wait_step`]: the step
/// decision `Ready` marks exactly the winning tick, `TimedOut` exactly the
/// spent budget, and `Retry` hands the outcome to the next poll.
pub proof fn lemma_wait_step_run(trace: Seq<bool>, i: nat)
    requires
        i < WAIT_TICK_LIMIT,
    ensures
        spec_wait_step(i, poll_ok(trace, i)) == WaitStep::Ready ==> wait_run_from(trace, i)
            == Some(i),
        spec_wait_step(i, poll_ok(trace, i)) == WaitStep::Retry ==> wait_run_from(trace, i)
            == wait_run_from(trace, i + 1),
        spec_wait_step(i, poll_ok(trace, i)) == WaitStep::TimedOut ==> wait_run_from(trace, i)
            is None,
{
    if spec_wait_step(i, poll_ok(trace, i)) == WaitStep::TimedOut {
        assert(i + 1 >= WAIT_TICK_LIMIT);
        assert(wait_run_from(trace, i) == wait_run_from(trace, i + 1));
    }
}

} // verus!
