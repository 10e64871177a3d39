use std::cmp::Ordering;

use celesta::time::{Rational, Time, TimeError, TimeRange};

#[test]
fn compares_times_without_floating_point() {
    let one_second = Time::new(48_000, 48_000);
    let sixty_frames = Time::frames(60, Rational::new(60, 1)).unwrap();
    assert_eq!(one_second.cmp_exact(sixty_frames), Ok(Ordering::Equal));
}

#[test]
fn adds_and_reduces_times() {
    let sum = Time::new(1, 2).checked_add(Time::new(1, 3)).unwrap();
    assert_eq!(sum, Time::new(5, 6));
}

#[test]
fn compares_earlier_and_later_times() {
    assert_eq!(Time::new(1, 3).cmp_exact(Time::new(1, 2)), Ok(Ordering::Less));
    assert_eq!(Time::new(-1, 2).cmp_exact(Time::new(-1, 3)), Ok(Ordering::Less));
    assert_eq!(Time::new(3, 4).cmp_exact(Time::new(2, 3)), Ok(Ordering::Greater));
    assert_eq!(Time::new(1, 0).cmp_exact(Time::new(1, 1)), Err(TimeError::ZeroTimescale));
}

#[test]
fn reduces_to_lowest_terms() {
    assert_eq!(Time::new(6, 8).reduced(), Time::new(3, 4));
    assert_eq!(Time::new(-6, 8).reduced(), Time::new(-3, 4));
    assert_eq!(Time::new(0, 48_000).reduced(), Time::new(0, 1));
    assert_eq!(Time::new(5, 0).reduced(), Time::new(5, 0));
    assert_eq!(Time::new(i64::MIN, 2).reduced(), Time::new(i64::MIN / 2, 1));
}

#[test]
fn subtracts_times() {
    assert_eq!(Time::new(1, 2).checked_sub(Time::new(1, 3)), Ok(Time::new(1, 6)));
    assert_eq!(Time::new(1, 3).checked_sub(Time::new(1, 2)), Ok(Time::new(-1, 6)));
    assert_eq!(Time::new(7, 5).checked_sub(Time::new(7, 5)), Ok(Time::new(0, 1)));
    assert_eq!(Time::new(0, 1).checked_sub(Time::new(i64::MIN, 1)), Err(TimeError::Overflow));
}

#[test]
fn adding_reports_invalid_and_overflowing_times() {
    assert_eq!(Time::new(1, 0).checked_add(Time::new(1, 1)), Err(TimeError::ZeroTimescale));
    assert_eq!(Time::new(i64::MAX, 1).checked_add(Time::new(1, 1)), Err(TimeError::Overflow));
    assert_eq!(
        Time::new(1, 4_000_000_000).checked_add(Time::new(1, 3_999_999_999)),
        Err(TimeError::Overflow)
    );
    assert_eq!(Time::new(1, 2).checked_add(Time::new(0, 1)), Ok(Time::new(1, 2)));
    assert_eq!(Time::new(2, 4).checked_add(Time::new(0, 1)), Ok(Time::new(1, 2)));
}

#[test]
fn addition_commutes_on_examples() {
    let pairs = [
        (Time::new(1, 2), Time::new(1, 3)),
        (Time::new(-7, 30), Time::new(11, 45)),
        (Time::new(48_000, 48_000), Time::new(1001, 30_000)),
    ];
    for (a, b) in pairs {
        assert_eq!(a.checked_add(b), b.checked_add(a));
    }
}

#[test]
fn converts_frames_and_samples_to_time() {
    assert_eq!(Time::frames(75, Rational::new(60, 1)), Ok(Time::new(75, 60)));
    assert_eq!(Time::frames(30, Rational::new(30_000, 1001)), Ok(Time::new(30_030, 30_000)));
    assert_eq!(Time::frames(1, Rational::new(0, 1)), Err(TimeError::InvalidFrameRate));
    assert_eq!(Time::frames(i64::MAX, Rational::new(30, 2)), Err(TimeError::Overflow));
    assert_eq!(Time::samples(441, 44_100), Time::new(441, 44_100));
    assert!(Rational::new(30, 1).is_valid());
    assert!(!Rational::new(30, 0).is_valid());
    assert!(Time::new(0, 1).is_valid());
    assert!(!Time::new(0, 0).is_valid());
}

#[test]
fn range_end_adds_duration_to_start() {
    let range = TimeRange { start: Time::new(5, 1), duration: Time::new(3, 2) };
    assert_eq!(range.end(), Ok(Time::new(13, 2)));
    let broken = TimeRange { start: Time::new(5, 0), duration: Time::new(3, 2) };
    assert_eq!(broken.end(), Err(TimeError::ZeroTimescale));
}
