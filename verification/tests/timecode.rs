use celesta::time::Time;
use celesta::timecode::{parse_timecode, TimecodeError};

#[test]
fn parses_timecodes_of_every_length() {
    assert_eq!(parse_timecode("5").unwrap(), Time::new(5_000, 1_000));
    assert_eq!(parse_timecode("1.5").unwrap(), Time::new(1_500, 1_000));
    assert_eq!(parse_timecode("0:02").unwrap(), Time::new(2_000, 1_000));
    assert_eq!(parse_timecode("01:30").unwrap(), Time::new(90_000, 1_000));
    assert_eq!(
        parse_timecode("01:02:03.250").unwrap(),
        Time::new(3_723_250, 1_000)
    );
    assert_eq!(
        parse_timecode(" 00:00:01 ").unwrap(),
        Time::new(1_000, 1_000)
    );
    assert_eq!(parse_timecode(""), Err(TimecodeError::Empty));
    assert!(matches!(
        parse_timecode("1:2:3:4"),
        Err(TimecodeError::Malformed(_))
    ));
    assert!(matches!(
        parse_timecode("-5"),
        Err(TimecodeError::Malformed(_))
    ));
    assert!(matches!(
        parse_timecode("00:00:01.2500"),
        Err(TimecodeError::Malformed(_))
    ));
}

#[test]
fn reports_the_trimmed_text_of_refused_timecodes() {
    assert_eq!(
        parse_timecode("  1:x  "),
        Err(TimecodeError::Malformed("1:x".to_owned()))
    );
    assert_eq!(parse_timecode(" \t\n "), Err(TimecodeError::Empty));
    assert_eq!(parse_timecode("1."), Err(TimecodeError::Malformed("1.".to_owned())));
    assert_eq!(parse_timecode(".5"), Err(TimecodeError::Malformed(".5".to_owned())));
    assert_eq!(
        parse_timecode("9223372036854775807"),
        Err(TimecodeError::Overflow("9223372036854775807".to_owned()))
    );
    assert_eq!(
        parse_timecode("99999999999999999999"),
        Err(TimecodeError::Malformed("99999999999999999999".to_owned()))
    );
    assert_eq!(
        parse_timecode("2562047788016:0:0"),
        Err(TimecodeError::Overflow("2562047788016:0:0".to_owned()))
    );
}

#[test]
fn pads_fractions_to_milliseconds() {
    assert_eq!(parse_timecode("0.05"), Ok(Time::new(50, 1_000)));
    assert_eq!(parse_timecode("0.007"), Ok(Time::new(7, 1_000)));
    assert_eq!(parse_timecode("1:00:00"), Ok(Time::new(3_600_000, 1_000)));
    assert_eq!(parse_timecode("\u{3000}90\u{a0}"), Ok(Time::new(90_000, 1_000)));
}
