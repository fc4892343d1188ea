//! One update cycle over all displays: each display's completion is
//! recorded on its own, and the cycle ends when all have completed or when
//! its deadline passes.

use vstd::prelude::*;

verus! {

/// How a cycle ended.
#[derive(Debug, Clone, Copy, PartialEq, Eq, Structural)]
pub enum CycleOutcome {
    /// Every display was set before the deadline.
    Completed,
    /// The deadline passed first; the remaining retries are abandoned.
    TimedOut,
}

/// Which displays of the cycle have been set.
pub struct CycleState {
    pub finished: Vec<bool>,
}

pub open spec fn all_finished(f: Seq<bool>) -> bool {
    forall|i: int| 0 <= i < f.len() ==> #[trigger] f[i]
}

/// The cycle's state of play: ended once every display is set, or else once
/// the deadline has passed; still running otherwise.
pub open spec fn outcome_of(f: Seq<bool>, deadline_passed: bool) -> Option<CycleOutcome> {
    if all_finished(f) {
        Some(CycleOutcome::Completed)
    } else if deadline_passed {
        Some(CycleOutcome::TimedOut)
    } else {
        None
    }
}

impl CycleState {
    /// A cycle over `n` displays, none set yet.
    pub fn start(n: usize) -> (r: CycleState)
        ensures
            r.finished@ == Seq::new(n as nat, |i: int| false),
    {
        let mut finished: Vec<bool> = Vec::new();
        let mut i: usize = 0;
        while i < n
            invariant
                i <= n,
                finished@ == Seq::new(i as nat, |k: int| false),
            decreases n - i,
        {
            finished.push(false);
            assert(finished@ =~= Seq::new((i + 1) as nat, |k: int| false));
            i = i + 1;
        }
        CycleState { finished }
    }

    /// Records that display `i` has been set; the others are untouched.
    pub fn mark_finished(&mut self, i: usize)
        requires
            i < old(self).finished@.len(),
        ensures
            final(self).finished@ == old(self).finished@.update(i as int, true),
    {
        self.finished.set(i, true);
    }

    /// Whether the cycle has ended, and how.
    pub fn outcome(&self, deadline_passed: bool) -> (r: Option<CycleOutcome>)
        ensures
            r == outcome_of(self.finished@, deadline_passed),
    {
        let mut i: usize = 0;
        while i < self.finished.len()
            invariant
                i <= self.finished@.len(),
                forall|k: int| 0 <= k < i ==> #[trigger] self.finished@[k],
            decreases self.finished@.len() - i,
        {
            if !self.finished[i] {
                return if deadline_passed {
                    Some(CycleOutcome::TimedOut)
                } else {
                    None
                };
            }
            i = i + 1;
        }
        Some(CycleOutcome::Completed)
    }

    /// The displays not yet set, in order.
    pub fn unfinished(&self) -> (r: Vec<usize>)
        ensures
            forall|k: int| 0 <= k < r@.len() ==> r@[k] < self.finished@.len() && !self.finished@[r@[k] as int],
            forall|i: int| 0 <= i < self.finished@.len() && !self.finished@[i] ==> r@.contains(i as usize),
    {
        let mut out: Vec<usize> = Vec::new();
        let mut i: usize = 0;
        while i < self.finished.len()
            invariant
                i <= self.finished@.len(),
                forall|k: int| 0 <= k < out@.len() ==> out@[k] < i && !self.finished@[out@[k] as int],
                forall|j: int| 0 <= j < i && !self.finished@[j] ==> out@.contains(j as usize),
            decreases self.finished@.len() - i,
        {
            let ghost prev = out@;
            if !self.finished[i] {
                out.push(i);
                assert(out@[out@.len() - 1] == i);
            }
            proof {
                assert forall|j: int| 0 <= j < i + 1 && !self.finished@[j] implies out@.contains(j as usize) by {
                    if j < i {
                        assert(prev.contains(j as usize));
                        let w = choose|w: int| 0 <= w < prev.len() && prev[w] == j as usize;
                        assert(out@[w] == prev[w]);
                    }
                }
            }
            i = i + 1;
        }
        out
    }
}

/// Setting one display never changes what is recorded for another, and is
/// recorded whatever the others' state: a display that never succeeds cannot
/// keep a healthy one from completing.
pub proof fn lemma_completion_isolated(f: Seq<bool>, i: int, j: int)
    requires
        0 <= i < f.len(),
        0 <= j < f.len(),
    ensures
        f.update(i, true)[i],
        i != j ==> f.update(j, true)[i] == f[i],
{
}

/// A cycle completes exactly when every display has been set, deadline or
/// not; a display left unset makes it time out at the deadline.
pub proof fn lemma_timeout_needs_unfinished(f: Seq<bool>, i: int)
    requires
        0 <= i < f.len(),
        !f[i],
    ensures
        outcome_of(f, true) == Some(CycleOutcome::TimedOut),
        outcome_of(f, false) is None,
{
}

} // verus!
