//! The decisions of one display's retry loop: after each attempt to set its
//! brightness, either stop or wait for the backoff delay and try again.

use vstd::prelude::*;

use crate::alarm::{Delay, total_nanos};

verus! {

/// What the loop does after an attempt.
#[derive(Debug, Clone, Copy, PartialEq, Eq, Structural)]
pub enum RetryStep {
    /// The brightness is set; the loop ends.
    Finished,
    /// Wait this long, then try again.
    Wait(Delay),
}

/// The state of one display's retry loop: how many attempts failed, how
/// long it has waited in all, and whether an attempt has succeeded.
pub struct RetryState {
    pub failures: u64,
    pub waited: Ghost<int>,
    pub finished: bool,
}

/// Failures, time waited in nanoseconds, and whether it has finished.
pub type RetryView = (int, int, bool);

impl View for RetryState {
    type V = RetryView;

    open spec fn view(&self) -> RetryView {
        (self.failures as int, self.waited@, self.finished)
    }
}

/// One attempt's effect: a success ends the loop; a failure counts, and the
/// backoff delay is waited; nothing changes once the loop has ended.
pub open spec fn step(s: RetryView, ok: bool, backoff: Delay) -> (RetryView, RetryStep) {
    if s.2 || ok {
        ((s.0, s.1, true), RetryStep::Finished)
    } else {
        ((s.0 + 1, s.1 + total_nanos(backoff), false), RetryStep::Wait(backoff))
    }
}

/// The state after a run of attempts, with the delay that the backoff gave
/// after each.
pub open spec fn run(s: RetryView, outcomes: Seq<bool>, delays: Seq<Delay>) -> RetryView
    decreases outcomes.len(),
{
    if outcomes.len() == 0 || delays.len() == 0 {
        s
    } else {
        run(step(s, outcomes[0], delays[0]).0, outcomes.drop_first(), delays.drop_first())
    }
}

/// The sum of the first `n` delays, in nanoseconds.
pub open spec fn sum_delays(delays: Seq<Delay>, n: nat) -> int
    decreases n,
{
    if n == 0 || n > delays.len() {
        0
    } else {
        sum_delays(delays, (n - 1) as nat) + total_nanos(delays[n - 1])
    }
}

impl RetryState {
    /// A loop before its first attempt.
    pub fn new() -> (r: RetryState)
        ensures
            r@ == (0int, 0int, false),
    {
        RetryState { failures: 0, waited: Ghost(0), finished: false }
    }

    /// Records an attempt: `ok` tells whether it succeeded, `backoff` is the
    /// delay that the backoff gives after a failure.
    pub fn after_attempt(&mut self, ok: bool, backoff: Delay) -> (r: RetryStep)
        requires
            old(self).failures < u64::MAX,
        ensures
            (final(self)@, r) == step(old(self)@, ok, backoff),
    {
        if self.finished || ok {
            self.finished = true;
            RetryStep::Finished
        } else {
            self.failures = self.failures + 1;
            self.waited = Ghost(self.waited@ + total_nanos(backoff));
            RetryStep::Wait(backoff)
        }
    }
}

proof fn lemma_sum_delays_shift(delays: Seq<Delay>, n: nat)
    requires
        0 < n <= delays.len(),
    ensures
        sum_delays(delays, n) == total_nanos(delays[0]) + sum_delays(delays.drop_first(), (n - 1) as nat),
    decreases n,
{
    let rest = delays.drop_first();
    if n > 1 {
        lemma_sum_delays_shift(delays, (n - 1) as nat);
        assert(rest[n - 2] == delays[n - 1]);
        assert(sum_delays(rest, (n - 1) as nat) == sum_delays(rest, (n - 2) as nat) + total_nanos(rest[n - 2]));
    } else {
        assert(sum_delays(rest, 0) == 0);
        assert(sum_delays(delays, 0) == 0);
        assert(sum_delays(delays, 1) == sum_delays(delays, 0) + total_nanos(delays[0]));
    }
}

/// Once an attempt has succeeded the loop stays finished: whatever later
/// attempts report, nothing is counted or waited and the answer is
/// `Finished`; and a success ends a loop at once.
pub proof fn lemma_finished_is_final(s: RetryView, ok: bool, backoff: Delay)
    ensures
        s.2 ==> step(s, ok, backoff) == ((s.0, s.1, true), RetryStep::Finished),
        ok ==> step(s, ok, backoff).1 == RetryStep::Finished,
        !s.2 && !ok ==> step(s, ok, backoff).1 == RetryStep::Wait(backoff),
{
}

/// A display that fails `n` times and then succeeds ends its loop after
/// `n` failures, having waited exactly the sum of the `n` backoff delays.
pub proof fn lemma_retry_converges(n: nat, delays: Seq<Delay>, failed: int, waited: int)
    requires
        delays.len() == n + 1,
    ensures
        run(
            (failed, waited, false),
            Seq::new(n, |i: int| false).push(true),
            delays,
        ) == (failed + n, waited + sum_delays(delays, n), true),
    decreases n,
{
    let outcomes = Seq::new(n, |i: int| false).push(true);
    if n == 0 {
        assert(outcomes[0]);
        assert(outcomes.drop_first().len() == 0);
        assert(sum_delays(delays, 0) == 0);
        assert(run((failed, waited, false), outcomes, delays) == run(
            (failed, waited, true),
            outcomes.drop_first(),
            delays.drop_first(),
        ));
    } else {
        assert(!outcomes[0]);
        let rest = Seq::new((n - 1) as nat, |i: int| false).push(true);
        assert(outcomes.drop_first() =~= rest);
        lemma_retry_converges(
            (n - 1) as nat,
            delays.drop_first(),
            failed + 1,
            waited + total_nanos(delays[0]),
        );
        lemma_sum_delays_shift(delays, n);
        assert(run((failed, waited, false), outcomes, delays) == run(
            (failed + 1, waited + total_nanos(delays[0]), false),
            rest,
            delays.drop_first(),
        ));
    }
}

} // verus!
