use celesta::clock::{playback_tick, react_preview_duration, start_playback, TimelineClock};
use celesta::time::{Rational, Time, TimeError};

#[test]
fn lib_timeline_clock_uses_exact_project_frames_and_clamps() {
    let mut clock = TimelineClock::new(Time::new(3, 2), Rational::new(60, 1)).unwrap();

    assert_eq!(clock.end_frame(), 90);
    clock.seek(75);
    assert_eq!(clock.time().unwrap(), Time::new(75, 60));
    clock.step(30);
    assert_eq!(clock.frame(), 90);
    assert!(clock.is_at_end());
    clock.step(-100);
    assert_eq!(clock.frame(), 0);
    assert_eq!(clock.frame_for_time(Time::new(5, 4)).unwrap(), 75);
}

#[test]
fn lib_timeline_clock_rounds_partial_final_frames_up() {
    let clock = TimelineClock::new(Time::new(1, 100), Rational::new(60, 1)).unwrap();

    assert_eq!(clock.end_frame(), 1);
}

#[test]
fn clock_rejects_invalid_durations_and_rates() {
    assert_eq!(
        TimelineClock::new(Time::new(1, 0), Rational::new(60, 1)),
        Err(TimeError::ZeroTimescale)
    );
    assert_eq!(
        TimelineClock::new(Time::new(1, 1), Rational::new(60, 0)),
        Err(TimeError::InvalidFrameRate)
    );
    assert_eq!(
        TimelineClock::new(Time::new(i64::MAX, 1), Rational::new(4_000_000_000, 1)),
        Err(TimeError::Overflow)
    );
    let empty = TimelineClock::new(Time::new(-5, 1), Rational::new(30, 1)).unwrap();
    assert_eq!(empty.end_frame(), 0);
    assert!(empty.is_at_end());
}

#[test]
fn frame_for_time_rounds_half_away_from_zero() {
    let clock = TimelineClock::new(Time::new(10, 1), Rational::new(10, 1)).unwrap();
    assert_eq!(clock.frame_for_time(Time::new(5, 100)), Ok(1));
    assert_eq!(clock.frame_for_time(Time::new(4, 100)), Ok(0));
    assert_eq!(clock.frame_for_time(Time::new(-5, 100)), Ok(-1));
    assert_eq!(clock.frame_for_time(Time::new(-4, 100)), Ok(0));
    assert_eq!(clock.frame_for_time(Time::new(1, 0)), Err(TimeError::ZeroTimescale));
    assert_eq!(clock.frame_for_time(Time::new(i64::MAX, 1)), Err(TimeError::Overflow));
}

#[test]
fn stepping_saturates_and_clamps() {
    let mut clock = TimelineClock::new(Time::new(2, 1), Rational::new(30, 1)).unwrap();
    clock.step(i64::MAX);
    assert_eq!(clock.frame(), 60);
    clock.step(i64::MIN);
    assert_eq!(clock.frame(), 0);
    clock.step(10);
    clock.step(-3);
    assert_eq!(clock.frame(), 7);
    assert_eq!(clock.frame_for_time(clock.time().unwrap()), Ok(7));
}

#[test]
fn react_preview_lasts_its_frames_at_its_rate() {
    // 150 frames at 30 fps are exactly five seconds.
    let duration = react_preview_duration(150, Rational::new(30, 1)).unwrap();
    assert_eq!(duration, Time::new(150, 30));
    assert_eq!(duration.cmp_exact(Time::new(5, 1)), Ok(std::cmp::Ordering::Equal));
    assert_eq!(
        react_preview_duration(u64::MAX, Rational::new(1, 1)),
        Ok(Time::new(i64::MAX, 1))
    );
    assert_eq!(
        react_preview_duration(u64::MAX, Rational::new(30, 2)),
        Err(TimeError::Overflow)
    );
}

#[test]
fn playback_rewinds_at_the_end_and_stops_there() {
    let mut clock = TimelineClock::new(Time::new(1, 1), Rational::new(10, 1)).unwrap();
    assert_eq!(start_playback(&mut clock), Some(0));
    assert!(playback_tick(&mut clock, 0, 4));
    assert_eq!(clock.frame(), 4);
    assert!(!playback_tick(&mut clock, 0, 12));
    assert_eq!(clock.frame(), 10);
    assert!(clock.is_at_end());
    // At the end, playing again starts over from the first frame.
    assert_eq!(start_playback(&mut clock), Some(0));
    assert_eq!(clock.frame(), 0);
    clock.seek(6);
    assert_eq!(start_playback(&mut clock), Some(6));
    assert!(!playback_tick(&mut clock, 6, i64::MAX));
    assert_eq!(clock.frame(), 10);

    let mut empty = TimelineClock::new(Time::new(0, 1), Rational::new(30, 1)).unwrap();
    assert_eq!(start_playback(&mut empty), None);
}
