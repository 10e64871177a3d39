use celesta::export::{shift_clips, GraphClip};
use celesta::encoding::{
    check_crf, encoder_frame_rate, ColorConversion, EncoderPreset, UnknownColorConversion,
    UnknownEncoderPreset, VideoEncoding,
};
use celesta::export::{
    ensure_not_cancelled, export_frame_time, react_frame_time, export_range, frame_count, frame_floor, plan_export, ExportRangeError, plan_react_export,
    resolve_window, validate_dimensions, ExportError, ExportRange, ExportWindow,
};
use celesta::time::{Rational, Time, TimeError};
use celesta::timecode::TimecodeError;

#[test]
fn encoder_presets_and_color_conversions_round_trip_through_their_names() {
    for preset in EncoderPreset::ALL {
        assert_eq!(preset.as_str().parse::<EncoderPreset>(), Ok(preset));
    }
    assert_eq!(VideoEncoding::default().preset, EncoderPreset::Medium);
    assert_eq!(VideoEncoding::default().crf, 18);
    for conversion in ColorConversion::ALL {
        assert_eq!(
            conversion.as_str().parse::<ColorConversion>(),
            Ok(conversion)
        );
    }
    assert_eq!(
        VideoEncoding::default().color_conversion,
        ColorConversion::Auto
    );
    assert_eq!(
        "Medium".parse::<EncoderPreset>(),
        Err(UnknownEncoderPreset("Medium".to_owned()))
    );
}

#[test]
fn unknown_color_conversions_keep_their_name() {
    assert_eq!(
        "cpu".parse::<ColorConversion>(),
        Err(UnknownColorConversion("cpu".to_owned()))
    );
    assert_eq!(EncoderPreset::Veryslow.as_str(), "veryslow");
    assert_eq!(EncoderPreset::default(), EncoderPreset::Medium);
    assert_eq!(ColorConversion::Encoder.as_str(), "encoder");
}

#[test]
fn rejects_an_out_of_range_crf_before_encoding() {
    let encoding = VideoEncoding {
        crf: VideoEncoding::MAX_CRF + 1,
        ..VideoEncoding::default()
    };
    assert_eq!(check_crf(encoding), Err(ExportError::InvalidCrf(52)));
    assert_eq!(check_crf(VideoEncoding { crf: 51, ..VideoEncoding::default() }), Ok(()));
    assert_eq!(encoder_frame_rate(Rational::new(30_000, 1001)), Ok((30_000, 1001)));
    assert_eq!(
        encoder_frame_rate(Rational::new(3_000_000_000, 1)),
        Err(ExportError::TimelineTooLong)
    );
}

#[test]
fn resolve_window_clamps_and_snaps_to_frames() {
    let rate = Rational::new(30, 1);
    let duration = Time::new(10, 1);

    let window = resolve_window(
        &ExportRange::new(Time::new(1001, 1000), Time::new(3, 1)),
        duration,
        rate,
    )
    .unwrap();
    assert_eq!(window.start_frame, 30);
    assert_eq!(window.start, Time::frames(30, rate).unwrap());
    assert_eq!(window.frames, 60);

    let full_tail =
        resolve_window(&ExportRange::from(Time::new(9, 1)), duration, rate).unwrap();
    assert_eq!(full_tail.start_frame, 270);
    assert_eq!(full_tail.frames, 30);

    assert!(matches!(
        resolve_window(
            &ExportRange::new(Time::new(5, 1), Time::new(5, 1)),
            duration,
            rate
        ),
        Err(ExportError::EmptyRange)
    ));
}

#[test]
fn resolve_window_clamps_both_ends_into_the_composition() {
    let rate = Rational::new(30, 1);
    let duration = Time::new(2, 1);
    let window = resolve_window(
        &ExportRange::new(Time::new(-5, 1), Time::new(50, 1)),
        duration,
        rate,
    )
    .unwrap();
    assert_eq!(window.start_frame, 0);
    assert_eq!(window.frames, 60);
    assert_eq!(window.duration, Time::new(60, 30));

    let until = resolve_window(&ExportRange::until(Time::new(1, 2)), duration, rate).unwrap();
    assert_eq!(until.start_frame, 0);
    assert_eq!(until.frames, 15);

    assert_eq!(
        resolve_window(&ExportRange::new(Time::new(1, 0), Time::new(1, 1)), duration, rate),
        Err(ExportError::Time(TimeError::ZeroTimescale))
    );
    assert_eq!(
        resolve_window(&ExportRange::new(Time::new(3, 1), Time::new(1, 1)), duration, rate),
        Err(ExportError::EmptyRange)
    );
}

#[test]
fn rounds_partial_project_frames_up_exactly() {
    assert_eq!(
        frame_count(Time::new(1001, 1000), Rational::new(30_000, 1001)).unwrap(),
        30
    );
    assert_eq!(
        frame_count(Time::new(1002, 1000), Rational::new(30_000, 1001)).unwrap(),
        31
    );
}

#[test]
fn frame_floor_snaps_down_and_clamps_negative_times() {
    let rate = Rational::new(30, 1);
    assert_eq!(frame_floor(Time::new(1001, 1000), rate), Ok(30));
    assert_eq!(frame_floor(Time::new(-3, 1), rate), Ok(0));
    assert_eq!(
        frame_floor(Time::new(1, 0), rate),
        Err(ExportError::Time(TimeError::ZeroTimescale))
    );
    assert_eq!(
        frame_count(Time::new(1, 1), Rational::new(1, 0)),
        Err(ExportError::Time(TimeError::InvalidFrameRate))
    );
    assert_eq!(
        frame_count(Time::new(i64::MAX, 1), Rational::new(4_000_000_000, 1)),
        Err(ExportError::TimelineTooLong)
    );
}

#[test]
fn validates_dimensions_and_cancellation() {
    assert_eq!(
        validate_dimensions(63, 64),
        Err(ExportError::UnsupportedDimensions { width: 63, height: 64 })
    );
    assert_eq!(
        validate_dimensions(0, 64),
        Err(ExportError::UnsupportedDimensions { width: 0, height: 64 })
    );
    assert_eq!(validate_dimensions(64, 36), Ok(()));
    assert_eq!(ensure_not_cancelled(true), Err(ExportError::Cancelled));
    assert_eq!(ensure_not_cancelled(false), Ok(()));
}

#[test]
fn plan_rejects_an_empty_export_range() {
    let result = plan_export(
        64,
        64,
        Time::new(1, 1),
        Rational::new(30, 1),
        Some(ExportRange::new(Time::new(2, 1), Time::new(3, 1))),
    );
    assert_eq!(result, Err(ExportError::EmptyRange));
}

#[test]
fn plans_the_whole_composition_without_a_range() {
    let duration = Time::new(1001, 1000);
    let rate = Rational::new(30_000, 1001);
    assert_eq!(
        plan_export(1920, 1080, duration, rate, None),
        Ok(ExportWindow {
            start: Time::new(0, 1),
            start_frame: 0,
            frames: 30,
            duration,
        })
    );
    assert_eq!(
        plan_export(1921, 1080, duration, rate, None),
        Err(ExportError::UnsupportedDimensions { width: 1921, height: 1080 })
    );
    assert_eq!(
        plan_export(64, 64, Time::new(0, 1), rate, None),
        Err(ExportError::EmptyTimeline)
    );
}

#[test]
fn plans_only_the_selected_range_shifted_to_zero() {
    let window = plan_export(
        64,
        64,
        Time::new(2, 1),
        Rational::new(2, 1),
        Some(ExportRange::new(Time::new(1, 1), Time::new(2, 1))),
    )
    .unwrap();
    assert_eq!(window.start_frame, 2);
    assert_eq!(window.frames, 2);
    assert_eq!(window.start, Time::new(2, 2));
}

#[test]
fn plans_react_exports_in_whole_frames() {
    let rate = Rational::new(30, 1);
    assert_eq!(
        plan_react_export(1280, 720, 90, rate, None),
        Ok((0, 90, Time::new(0, 1)))
    );
    assert_eq!(
        plan_react_export(1280, 720, 0, rate, None),
        Err(ExportError::EmptyTimeline)
    );
    assert_eq!(
        plan_react_export(0, 720, 90, rate, None),
        Err(ExportError::UnsupportedDimensions { width: 0, height: 720 })
    );
    assert_eq!(
        plan_react_export(1280, 720, 90, rate, Some(ExportRange::new(Time::new(1, 1), Time::new(2, 1)))),
        Ok((30, 30, Time::new(30, 30)))
    );
    assert_eq!(
        plan_react_export(1280, 720, u64::MAX, rate, Some(ExportRange::from(Time::new(0, 1)))),
        Err(ExportError::TimelineTooLong)
    );
}

#[test]
fn export_range_comes_from_the_from_and_to_timecodes() {
    assert_eq!(export_range(None, None), Ok(None));
    assert_eq!(
        export_range(Some("1:00"), None),
        Ok(Some(ExportRange::from(Time::new(60_000, 1000))))
    );
    assert_eq!(
        export_range(None, Some("10")),
        Ok(Some(ExportRange { start: Time::new(0, 1), end: Some(Time::new(10_000, 1000)) }))
    );
    assert_eq!(
        export_range(Some("00:00:01.5"), Some("2")),
        Ok(Some(ExportRange::new(Time::new(1_500, 1000), Time::new(2_000, 1000))))
    );
}

#[test]
fn export_range_needs_to_after_from_and_valid_timecodes() {
    assert_eq!(export_range(Some("10"), Some("5")), Err(ExportRangeError::EndNotAfterStart));
    assert_eq!(export_range(Some("5"), Some("0:05")), Err(ExportRangeError::EndNotAfterStart));
    assert_eq!(
        export_range(Some(" x "), Some("y")),
        Err(ExportRangeError::From(TimecodeError::Malformed("x".to_owned())))
    );
    assert_eq!(
        export_range(Some("1"), Some("  ")),
        Err(ExportRangeError::To(TimecodeError::Empty))
    );
}

#[test]
fn export_frames_are_timed_from_the_window_start() {
    let rate = Rational::new(30_000, 1001);
    assert_eq!(export_frame_time(0, 0, rate), Ok(Time::new(0, 30_000)));
    assert_eq!(export_frame_time(10, 5, rate), Ok(Time::new(15 * 1001, 30_000)));
    assert_eq!(export_frame_time(i64::MAX, 1, rate), Err(ExportError::TimelineTooLong));
    assert_eq!(export_frame_time(0, u64::MAX, rate), Err(ExportError::TimelineTooLong));
    assert_eq!(
        export_frame_time(0, 1, Rational::new(30, 0)),
        Err(ExportError::Time(TimeError::InvalidFrameRate))
    );
    assert_eq!(
        export_frame_time(0, i64::MAX as u64, Rational::new(30, 2)),
        Err(ExportError::Time(TimeError::Overflow))
    );
}

#[test]
fn react_export_frames_are_timed_from_the_window_start() {
    let rate = Rational::new(30, 1);
    assert_eq!(react_frame_time(30, 0, rate), Ok(Time::new(30, 30)));
    assert_eq!(react_frame_time(30, 15, rate), Ok(Time::new(45, 30)));
    assert_eq!(react_frame_time(i64::MAX as u64, 1, rate), Err(ExportError::TimelineTooLong));
    assert_eq!(
        react_frame_time(0, 1, Rational::new(0, 1)),
        Err(ExportError::Time(TimeError::InvalidFrameRate))
    );
}

#[test]
fn shifted_clips_start_earlier_by_the_window_start() {
    let clips = vec![
        GraphClip { start: Time::new(2, 1), rest: "a" },
        GraphClip { start: Time::new(1, 2), rest: "b" },
    ];
    let shifted = shift_clips(clips, Time::new(1, 1)).unwrap();
    assert_eq!(shifted[0].start.cmp_exact(Time::new(1, 1)), Ok(std::cmp::Ordering::Equal));
    assert_eq!(shifted[1].start.cmp_exact(Time::new(-1, 2)), Ok(std::cmp::Ordering::Equal));
    assert_eq!((shifted[0].rest, shifted[1].rest), ("a", "b"));
    let bad = vec![GraphClip { start: Time::new(1, 0), rest: () }];
    assert_eq!(shift_clips(bad, Time::new(1, 1)).err(), Some(TimeError::ZeroTimescale));
    assert_eq!(
        shift_clips(vec![GraphClip { start: Time::new(0, 1), rest: () }], Time::new(i64::MIN, 1)).err(),
        Some(TimeError::Overflow)
    );
}
