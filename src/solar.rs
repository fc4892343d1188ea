//! When to wake next: the decision between today's sunset and tomorrow's
//! sunrise, taken on instants in milliseconds since the Unix epoch.

use vstd::prelude::*;

verus! {

/// Added to a solar event so that the wake-up falls just past it.
pub const BOUNDARY_MARGIN_MS: i64 = 100;

/// Sunrise and sunset of one local calendar date.
#[derive(Debug, Clone, Copy, PartialEq, Eq, Structural)]
pub struct SolarWindow {
    pub start: i64,
    pub end: i64,
}

/// Why no next transition can be given.
#[derive(Debug, Clone, Copy, PartialEq, Eq, Structural)]
pub enum ScheduleError {
    /// The sun does not rise or set on a date that is needed (polar day or
    /// night).
    NoSolarEvents,
    /// The instant lies past the largest one representable.
    OutOfRange,
}

/// Strictly between sunrise and sunset.
pub open spec fn is_daytime_at(w: SolarWindow, now: i64) -> bool {
    w.start < now && now < w.end
}

/// Whether `now` falls between sunrise and sunset of its date.
pub fn is_daytime(today: SolarWindow, now: i64) -> (r: bool)
    ensures
        r == is_daytime_at(today, now),
{
    today.start < now && now < today.end
}

/// The solar event to wake at next: today's sunset until it has passed,
/// from then on tomorrow's sunrise.
pub open spec fn next_event_of(now: i64, today: Option<SolarWindow>, tomorrow: Option<SolarWindow>) -> Result<int, ScheduleError> {
    match today {
        None => Err(ScheduleError::NoSolarEvents),
        Some(w) => if now >= w.end {
            match tomorrow {
                None => Err(ScheduleError::NoSolarEvents),
                Some(w2) => Ok(w2.start as int),
            }
        } else {
            Ok(w.end as int)
        },
    }
}

/// The instant to wake at: the next solar event plus the margin.
pub open spec fn wake_at(now: i64, today: Option<SolarWindow>, tomorrow: Option<SolarWindow>) -> Result<i64, ScheduleError> {
    match next_event_of(now, today, tomorrow) {
        Err(e) => Err(e),
        Ok(t) => if t + BOUNDARY_MARGIN_MS > i64::MAX {
            Err(ScheduleError::OutOfRange)
        } else {
            Ok((t + BOUNDARY_MARGIN_MS) as i64)
        },
    }
}

/// Decides when to wake next, from `now` and the solar windows of `now`'s
/// local date and of the date after. `None` stands for a date on which the
/// sun does not both rise and set; tomorrow's window is looked at only
/// once today's sunset has passed.
pub fn get_next_event(now: i64, today: Option<SolarWindow>, tomorrow: Option<SolarWindow>) -> (r: Result<i64, ScheduleError>)
    ensures
        r == wake_at(now, today, tomorrow),
{
    let event = match today {
        None => {
            return Err(ScheduleError::NoSolarEvents);
        },
        Some(w) => if now >= w.end {
            match tomorrow {
                None => {
                    return Err(ScheduleError::NoSolarEvents);
                },
                Some(w2) => w2.start,
            }
        } else {
            w.end
        },
    };
    match event.checked_add(BOUNDARY_MARGIN_MS) {
        Some(t) => Ok(t),
        None => Err(ScheduleError::OutOfRange),
    }
}

/// At sunset exactly, and at any later instant of the same date, the next
/// wake-up is tomorrow's sunrise, never today's sunset.
pub proof fn lemma_rollover_at_sunset(now: i64, today: SolarWindow, tomorrow: SolarWindow)
    requires
        now >= today.end,
        tomorrow.start as int + BOUNDARY_MARGIN_MS <= i64::MAX,
    ensures
        wake_at(now, Some(today), Some(tomorrow)) == Ok::<i64, ScheduleError>((tomorrow.start + BOUNDARY_MARGIN_MS) as i64),
        tomorrow.start != today.end ==> wake_at(now, Some(today), Some(tomorrow))->Ok_0 as int != today.end as int
            + BOUNDARY_MARGIN_MS,
{
}

/// Before sunset the next wake-up is today's sunset, whatever tomorrow
/// holds.
pub proof fn lemma_sunset_before_rollover(now: i64, today: SolarWindow, tomorrow: Option<SolarWindow>)
    requires
        now < today.end,
        today.end as int + BOUNDARY_MARGIN_MS <= i64::MAX,
    ensures
        wake_at(now, Some(today), tomorrow) == Ok::<i64, ScheduleError>((today.end + BOUNDARY_MARGIN_MS) as i64),
{
}

} // verus!
