//! The arming rules of the suspend-aware alarm: how long to arm the timer
//! for, and whether a wait may begin.

use vstd::prelude::*;

verus! {

/// The delay armed for an instant that is not in the future.
pub const MIN_DELAY_NANOS: u32 = 100;

pub const NANOS_PER_MILLI: u64 = 1_000_000;

pub const MILLIS_PER_SEC: u64 = 1000;

/// A delay of `secs` seconds and `nanos` nanoseconds.
#[derive(Debug, Clone, Copy, PartialEq, Eq, Structural)]
pub struct Delay {
    pub secs: u64,
    pub nanos: u32,
}

pub open spec fn total_nanos(d: Delay) -> int {
    d.secs as int * 1_000_000_000 + d.nanos as int
}

/// The delay from `now` to `target`, both in milliseconds since the epoch:
/// the difference where it is positive, the minimal delay otherwise.
pub open spec fn delay_nanos(target: i64, now: i64) -> int {
    if target > now {
        (target as int - now as int) * 1_000_000
    } else {
        MIN_DELAY_NANOS as int
    }
}

/// Computes the delay to arm for, with `nanos` under one second.
pub fn delay_until(target: i64, now: i64) -> (r: Delay)
    ensures
        total_nanos(r) == delay_nanos(target, now),
        r.nanos < 1_000_000_000,
{
    if target <= now {
        return Delay { secs: 0, nanos: MIN_DELAY_NANOS };
    }
    let diff: u64 = (target as i128 - now as i128) as u64;
    let secs = diff / MILLIS_PER_SEC;
    let rem = diff % MILLIS_PER_SEC;
    let nanos: u32 = (rem * NANOS_PER_MILLI) as u32;
    assert(secs as int * 1_000_000_000 + nanos as int == diff as int * 1_000_000) by (nonlinear_arith)
        requires
            secs == diff / 1000,
            rem == diff % 1000,
            nanos == rem * 1_000_000,
    ;
    Delay { secs, nanos }
}

/// Why a wait could not begin.
#[derive(Debug, Clone, Copy, PartialEq, Eq, Structural)]
pub enum AlarmError {
    /// The alarm is not armed: never given an instant, or fired since.
    NotArmed,
    /// Another wait on the alarm is still outstanding.
    AlreadyWaiting,
}

/// Whether the alarm is armed, for which instant, and whether a wait on it
/// is outstanding.
#[derive(Debug, Clone, Copy, PartialEq, Eq, Structural)]
pub struct AlarmState {
    pub armed: bool,
    pub target: i64,
    pub waiting: bool,
}

/// Beginning a wait: refused while another is outstanding, and on an alarm
/// that is not armed.
pub open spec fn begin_wait_outcome(s: AlarmState) -> Result<AlarmState, AlarmError> {
    if s.waiting {
        Err(AlarmError::AlreadyWaiting)
    } else if !s.armed {
        Err(AlarmError::NotArmed)
    } else {
        Ok(AlarmState { waiting: true, ..s })
    }
}

impl AlarmState {
    /// An alarm that has not been armed.
    pub fn new() -> (r: AlarmState)
        ensures
            !r.armed,
            !r.waiting,
    {
        AlarmState { armed: false, target: 0, waiting: false }
    }

    /// Arms for `target`; returns the delay to give the timer.
    pub fn reset(&mut self, target: i64, now: i64) -> (r: Delay)
        ensures
            final(self).armed,
            final(self).target == target,
            final(self).waiting == old(self).waiting,
            total_nanos(r) == delay_nanos(target, now),
            r.nanos < 1_000_000_000,
    {
        self.armed = true;
        self.target = target;
        delay_until(target, now)
    }

    /// Begins a wait, or says why it cannot begin.
    pub fn begin_wait(&mut self) -> (r: Result<(), AlarmError>)
        ensures
            match begin_wait_outcome(*old(self)) {
                Ok(s) => r is Ok && *final(self) == s,
                Err(e) => r == Err::<(), AlarmError>(e) && *final(self) == *old(self),
            },
    {
        if self.waiting {
            Err(AlarmError::AlreadyWaiting)
        } else if !self.armed {
            Err(AlarmError::NotArmed)
        } else {
            self.waiting = true;
            Ok(())
        }
    }

    /// The outstanding wait saw the alarm fire: it is no longer armed.
    pub fn fired(&mut self)
        ensures
            !final(self).armed,
            !final(self).waiting,
            final(self).target == old(self).target,
    {
        self.armed = false;
        self.waiting = false;
    }

    /// The outstanding wait was given up before the alarm fired.
    pub fn abandon_wait(&mut self)
        ensures
            final(self).armed == old(self).armed,
            !final(self).waiting,
            final(self).target == old(self).target,
    {
        self.waiting = false;
    }
}

/// While one wait is outstanding a second is refused.
pub proof fn lemma_single_waiter(s: AlarmState)
    requires
        begin_wait_outcome(s) is Ok,
    ensures
        begin_wait_outcome(begin_wait_outcome(s)->Ok_0) == Err::<AlarmState, AlarmError>(AlarmError::AlreadyWaiting),
{
}

/// The delay is never zero: an instant in the past still arms the timer.
pub proof fn lemma_delay_positive(target: i64, now: i64)
    ensures
        delay_nanos(target, now) > 0,
{
}

} // verus!
