use dlux::alarm::{delay_until, AlarmError, AlarmState, Delay, MIN_DELAY_NANOS};
use dlux::config::{parse_brightness_percent, parse_u16, ConfigError};
use dlux::cycle::{CycleOutcome, CycleState};
use dlux::logging::{LevelFilter, LogOpts, WriteStyle};
use dlux::retry::{RetryState, RetryStep};
use dlux::solar::{get_next_event, is_daytime, ScheduleError, SolarWindow, BOUNDARY_MARGIN_MS};
use dlux::types::Either;

const SUNRISE: i64 = 1_700_000_000_000;
const SUNSET: i64 = SUNRISE + 9 * 3_600_000;
const TOMORROW: SolarWindow = SolarWindow { start: SUNRISE + 86_400_000 + 60_000, end: SUNSET + 86_400_000 };
const TODAY: SolarWindow = SolarWindow { start: SUNRISE, end: SUNSET };

#[test]
fn percent_in_range() {
    assert_eq!(parse_brightness_percent("40"), Ok(40));
    assert_eq!(parse_brightness_percent("5"), Ok(5));
    assert_eq!(parse_brightness_percent("100"), Ok(100));
    assert_eq!(parse_brightness_percent("+070"), Ok(70));
}

#[test]
fn percent_errors() {
    assert_eq!(parse_brightness_percent("4"), Err(ConfigError::BelowMinimum));
    assert_eq!(parse_brightness_percent("0"), Err(ConfigError::BelowMinimum));
    assert_eq!(parse_brightness_percent("101"), Err(ConfigError::AboveMaximum));
    assert_eq!(parse_brightness_percent("65535"), Err(ConfigError::AboveMaximum));
    assert_eq!(parse_brightness_percent("65536"), Err(ConfigError::NotANumber));
    assert_eq!(parse_brightness_percent("-5"), Err(ConfigError::NotANumber));
    assert_eq!(parse_brightness_percent(""), Err(ConfigError::NotANumber));
    assert_eq!(parse_brightness_percent("+"), Err(ConfigError::NotANumber));
    assert_eq!(parse_brightness_percent("4a"), Err(ConfigError::NotANumber));
}

#[test]
fn parse_u16_agrees_with_std() {
    for s in ["0", "7", "+7", "00012", "65535", "65536", "999999", "", "+", "++1", "1 ", " 1", "x"] {
        assert_eq!(parse_u16(s), s.parse::<u16>().ok(), "{:?}", s);
    }
}

#[test]
fn daytime_is_strictly_inside() {
    assert!(is_daytime(TODAY, SUNRISE + 1));
    assert!(!is_daytime(TODAY, SUNRISE));
    assert!(!is_daytime(TODAY, SUNSET));
    assert!(!is_daytime(TODAY, SUNRISE - 1));
}

#[test]
fn next_event_before_sunset() {
    assert_eq!(get_next_event(SUNRISE + 5, Some(TODAY), Some(TOMORROW)), Ok(SUNSET + BOUNDARY_MARGIN_MS));
    assert_eq!(get_next_event(SUNRISE - 5, Some(TODAY), None), Ok(SUNSET + 100));
}

#[test]
fn solar_rollover_at_sunset() {
    assert_eq!(get_next_event(SUNSET, Some(TODAY), Some(TOMORROW)), Ok(TOMORROW.start + 100));
    assert_eq!(get_next_event(SUNSET + 1, Some(TODAY), Some(TOMORROW)), Ok(TOMORROW.start + 100));
}

#[test]
fn next_event_errors() {
    assert_eq!(get_next_event(0, None, Some(TOMORROW)), Err(ScheduleError::NoSolarEvents));
    assert_eq!(get_next_event(SUNSET, Some(TODAY), None), Err(ScheduleError::NoSolarEvents));
    let late = SolarWindow { start: i64::MAX - 50, end: i64::MAX };
    assert_eq!(get_next_event(SUNSET, Some(TODAY), Some(late)), Err(ScheduleError::OutOfRange));
}

#[test]
fn delay_future_target() {
    assert_eq!(delay_until(5_250, 1_000), Delay { secs: 4, nanos: 250_000_000 });
}

#[test]
fn delay_past_target_is_minimal() {
    assert_eq!(delay_until(1_000, 5_000), Delay { secs: 0, nanos: MIN_DELAY_NANOS });
    assert_eq!(delay_until(1_000, 1_000), Delay { secs: 0, nanos: 100 });
}

#[test]
fn delay_extreme_span() {
    let d = delay_until(i64::MAX, i64::MIN);
    assert_eq!(d.secs, u64::MAX / 1000);
    assert_eq!(d.nanos, 615_000_000);
}

#[test]
fn alarm_must_be_armed() {
    let mut a = AlarmState::new();
    assert_eq!(a.begin_wait(), Err(AlarmError::NotArmed));
    let d = a.reset(2_000, 1_500);
    assert_eq!(d, Delay { secs: 0, nanos: 500_000_000 });
    assert!(a.armed);
    assert_eq!(a.target, 2_000);
    assert_eq!(a.begin_wait(), Ok(()));
    a.fired();
    assert!(!a.armed);
    assert_eq!(a.begin_wait(), Err(AlarmError::NotArmed));
    a.reset(1_000, 1_500);
    assert_eq!(a.begin_wait(), Ok(()));
}

#[test]
fn alarm_single_waiter() {
    let mut a = AlarmState::new();
    a.reset(10_000, 0);
    assert_eq!(a.begin_wait(), Ok(()));
    assert_eq!(a.begin_wait(), Err(AlarmError::AlreadyWaiting));
    a.reset(20_000, 0);
    assert_eq!(a.begin_wait(), Err(AlarmError::AlreadyWaiting));
    a.abandon_wait();
    assert!(a.armed);
    assert_eq!(a.begin_wait(), Ok(()));
}

#[test]
fn retry_waits_after_each_failure() {
    let mut r = RetryState::new();
    let d1 = Delay { secs: 1, nanos: 100_000_000 };
    let d2 = Delay { secs: 1, nanos: 210_000_000 };
    assert_eq!(r.after_attempt(false, d1), RetryStep::Wait(d1));
    assert_eq!(r.after_attempt(false, d2), RetryStep::Wait(d2));
    assert_eq!(r.after_attempt(true, d2), RetryStep::Finished);
    assert_eq!(r.failures, 2);
    assert!(r.finished);
    assert_eq!(r.after_attempt(false, d2), RetryStep::Finished);
    assert_eq!(r.failures, 2);
}

#[test]
fn either_sides() {
    let l: Either<u8, &str> = Either::Left(1);
    let r: Either<u8, &str> = Either::Right("x");
    assert!(l.is_left() && !l.is_right());
    assert!(r.is_right() && !r.is_left());
}

#[test]
fn log_levels() {
    assert_eq!(LevelFilter::from_name("DEBUG"), Some(LevelFilter::Debug));
    assert_eq!(LevelFilter::from_name("warn"), Some(LevelFilter::Warn));
    assert_eq!(LevelFilter::from_name("off"), None);
    assert_eq!(LevelFilter::Error.at_least(LevelFilter::Info), LevelFilter::Info);
    assert_eq!(LevelFilter::Trace.at_least(LevelFilter::Info), LevelFilter::Trace);
    let o = LogOpts { level: LevelFilter::default(), style: WriteStyle::default() };
    assert_eq!(o.level, LevelFilter::Info);
    assert_eq!(o.style, WriteStyle::Auto);
}

#[test]
fn cycle_completes_when_all_finish() {
    let mut c = CycleState::start(2);
    assert_eq!(c.outcome(false), None);
    c.mark_finished(1);
    assert_eq!(c.outcome(false), None);
    assert_eq!(c.unfinished(), vec![0]);
    c.mark_finished(0);
    assert_eq!(c.outcome(false), Some(CycleOutcome::Completed));
    assert_eq!(c.outcome(true), Some(CycleOutcome::Completed));
    assert!(c.unfinished().is_empty());
}

#[test]
fn cycle_times_out_with_one_stuck_device() {
    let mut c = CycleState::start(3);
    c.mark_finished(0);
    c.mark_finished(2);
    assert_eq!(c.finished, vec![true, false, true]);
    assert_eq!(c.outcome(true), Some(CycleOutcome::TimedOut));
    assert_eq!(c.unfinished(), vec![1]);
}

#[test]
fn empty_cycle_completes() {
    assert_eq!(CycleState::start(0).outcome(false), Some(CycleOutcome::Completed));
}
