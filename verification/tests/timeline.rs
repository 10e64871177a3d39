use celesta::time::{Rational, Time, TimeError, TimeRange};
use celesta::timeline::{
    check_clip_frames, clip_frames_range, ClipFramesError, clip_local_time, export_range_for, is_active, mouth_shape_at, move_target, time_fraction,
    validate_clip_local_time, ExportMarkers, InvalidClipVolumeTime, LipSyncCue,
};
use celesta::export::ExportRange;

#[test]
fn export_range_needs_both_markers_ordered() {
    let rate = Rational::new(30, 1);
    assert_eq!(export_range_for(None, Some(30), rate), None);
    assert_eq!(export_range_for(Some(30), None, rate), None);
    assert_eq!(export_range_for(Some(30), Some(30), rate), None);
    assert_eq!(export_range_for(Some(30), Some(20), rate), None);

    let range = export_range_for(Some(30), Some(90), rate).unwrap();
    assert_eq!(range.start, Time::frames(30, rate).unwrap());
    assert_eq!(range.end, Some(Time::frames(90, rate).unwrap()));
}

#[test]
fn export_range_rejects_a_negative_in_marker_and_a_bad_rate() {
    assert_eq!(export_range_for(Some(-1), Some(10), Rational::new(30, 1)), None);
    assert_eq!(export_range_for(Some(0), Some(10), Rational::new(0, 1)), None);
    let range = export_range_for(Some(0), Some(10), Rational::new(30000, 1001)).unwrap();
    assert_eq!(range.start, Time::new(0, 30000));
    assert_eq!(range.end, Some(Time::new(10010, 30000)));
}

#[test]
fn timeline_item_end_is_exclusive() {
    let range = TimeRange {
        start: Time::new(2, 1),
        duration: Time::new(6, 1),
    };
    assert_eq!(is_active(range, Time::new(8, 1)), Ok(false));
    assert_eq!(is_active(range, Time::new(2, 1)), Ok(true));
    assert_eq!(is_active(range, Time::new(15, 2)), Ok(true));
    assert_eq!(is_active(range, Time::new(1, 1)), Ok(false));
    assert_eq!(is_active(range, Time::new(1, 0)), Err(TimeError::ZeroTimescale));
}

#[test]
fn inactive_before_the_start_even_when_the_end_overflows() {
    let range = TimeRange {
        start: Time::new(i64::MAX, 1),
        duration: Time::new(1, 1),
    };
    assert_eq!(is_active(range, Time::new(0, 1)), Ok(false));
    assert_eq!(is_active(range, Time::new(i64::MAX, 1)), Err(TimeError::Overflow));
}

#[derive(Clone, Copy, Debug, PartialEq, Eq)]
enum Mouth {
    Closed,
    A,
    O,
}

#[test]
fn mouth_shape_follows_the_last_cue_not_after_the_time() {
    let cues = [
        LipSyncCue { time: Time::new(0, 1), shape: Mouth::Closed },
        LipSyncCue { time: Time::new(1, 2), shape: Mouth::A },
        LipSyncCue { time: Time::new(1, 1), shape: Mouth::O },
    ];
    assert_eq!(mouth_shape_at(&cues, Time::new(-1, 1)), Ok(None));
    assert_eq!(mouth_shape_at(&cues, Time::new(0, 1)), Ok(Some(Mouth::Closed)));
    assert_eq!(mouth_shape_at(&cues, Time::new(30, 60)), Ok(Some(Mouth::A)));
    assert_eq!(mouth_shape_at(&cues, Time::new(59, 60)), Ok(Some(Mouth::A)));
    assert_eq!(mouth_shape_at(&cues, Time::new(5, 1)), Ok(Some(Mouth::O)));
    assert_eq!(mouth_shape_at(&[], Time::new(5, 1)), Ok(None::<Mouth>));
}

#[test]
fn mouth_shape_reports_an_invalid_cue_it_reaches() {
    let cues = [
        LipSyncCue { time: Time::new(0, 1), shape: Mouth::A },
        LipSyncCue { time: Time::new(1, 0), shape: Mouth::O },
    ];
    assert_eq!(mouth_shape_at(&cues, Time::new(1, 1)), Err(TimeError::ZeroTimescale));
    let stopping = [
        LipSyncCue { time: Time::new(2, 1), shape: Mouth::A },
        LipSyncCue { time: Time::new(1, 0), shape: Mouth::O },
    ];
    assert_eq!(mouth_shape_at(&stopping, Time::new(1, 1)), Ok(None));
}

#[test]
fn clip_local_time_is_clamped_to_the_clip() {
    let start = Time::new(2, 1);
    let duration = Time::new(3, 1);
    assert_eq!(clip_local_time(Time::new(1, 1), start, duration), Time::new(0, 1));
    assert_eq!(clip_local_time(Time::new(2, 1), start, duration), Time::new(0, 1));
    assert_eq!(clip_local_time(Time::new(7, 2), start, duration), Time::new(3, 2));
    assert_eq!(clip_local_time(Time::new(9, 1), start, duration), duration);
}

#[test]
fn time_fraction_scales_value_and_timescale() {
    assert_eq!(time_fraction(Time::new(6, 1), 1, 3), Some(Time::new(6, 3)));
    assert_eq!(time_fraction(Time::new(10, 30), 2, 5), Some(Time::new(20, 150)));
    assert_eq!(time_fraction(Time::new(i64::MAX, 1), 2, 1), None);
    assert_eq!(time_fraction(Time::new(1, u32::MAX), 1, 2), None);
}

#[test]
fn clip_keyframe_times_must_lie_inside_the_clip() {
    let duration = Time::new(4, 1);
    assert_eq!(validate_clip_local_time("a", Time::new(0, 1), duration), Ok(()));
    assert_eq!(validate_clip_local_time("a", Time::new(4, 1), duration), Ok(()));
    assert_eq!(validate_clip_local_time("a", Time::new(7, 2), duration), Ok(()));
    assert_eq!(
        validate_clip_local_time("a", Time::new(-1, 30), duration),
        Err(InvalidClipVolumeTime { clip: "a".to_owned(), time: Time::new(-1, 30) })
    );
    assert_eq!(
        validate_clip_local_time("b", Time::new(9, 2), duration),
        Err(InvalidClipVolumeTime { clip: "b".to_owned(), time: Time::new(9, 2) })
    );
    assert!(validate_clip_local_time("c", Time::new(1, 0), duration).is_err());
}

#[test]
fn moved_tracks_stop_at_the_first_and_last_position() {
    assert_eq!(move_target(1, -1, 3), 0);
    assert_eq!(move_target(0, -1, 3), 0);
    assert_eq!(move_target(1, 1, 3), 2);
    assert_eq!(move_target(2, 1, 3), 2);
    assert_eq!(move_target(0, isize::MAX, 3), 2);
    assert_eq!(move_target(2, isize::MIN, 3), 0);
    assert_eq!(move_target(0, 0, 1), 0);
}

#[test]
fn clip_frame_ranges_follow_project_frames() {
    let duration = Time::new(10, 1);
    let rate = Rational::new(60, 1);
    assert_eq!(check_clip_frames(duration, rate, 60, 480), Ok(()));
    let range = clip_frames_range(60, 480, rate).unwrap();
    assert_eq!(range.start, Time::new(60, 60));
    assert_eq!(range.duration, Time::new(480, 60));
    assert!(check_clip_frames(duration, rate, -1, 480).is_err());
    assert!(check_clip_frames(duration, rate, 60, 0).is_err());
    assert_eq!(
        check_clip_frames(duration, rate, 60, 541),
        Err(ClipFramesError::InvalidClipFrameRange {
            start_frame: 60,
            duration_frames: 541,
            timeline_end_frame: 600,
        })
    );
    assert_eq!(check_clip_frames(duration, rate, 60, 540), Ok(()));
}

#[test]
fn clip_frame_ranges_need_a_timeline_and_no_overflow() {
    assert_eq!(
        check_clip_frames(Time::new(1, 0), Rational::new(60, 1), 0, 1),
        Err(ClipFramesError::Duration(TimeError::ZeroTimescale))
    );
    assert_eq!(
        check_clip_frames(Time::new(1, 1), Rational::new(0, 1), 0, 1),
        Err(ClipFramesError::Duration(TimeError::InvalidFrameRate))
    );
    assert_eq!(
        check_clip_frames(Time::new(10, 1), Rational::new(60, 1), i64::MAX, 1),
        Err(ClipFramesError::InvalidClipFrameRange {
            start_frame: i64::MAX,
            duration_frames: 1,
            timeline_end_frame: 600,
        })
    );
    assert_eq!(
        clip_frames_range(i64::MAX, 1, Rational::new(30, 2)),
        Err(TimeError::Overflow)
    );
}

#[test]
fn export_markers_drop_a_marker_that_would_fall_out_of_order() {
    let rate = Rational::new(30, 1);
    let mut markers = ExportMarkers::new();
    assert_eq!(markers.range(rate), None);
    markers.set_in(30);
    assert_eq!(markers.range(rate), None);
    markers.set_out(59);
    assert_eq!(markers, ExportMarkers { in_frame: Some(30), out_frame: Some(60) });
    assert_eq!(
        markers.range(rate),
        Some(ExportRange::new(Time::new(30, 30), Time::new(60, 30)))
    );
    // An in point at or after the out point drops the out point ...
    markers.set_in(60);
    assert_eq!(markers, ExportMarkers { in_frame: Some(60), out_frame: None });
    // ... and an out point at or before the in point drops the in point.
    markers.set_out(10);
    assert_eq!(markers, ExportMarkers { in_frame: None, out_frame: Some(11) });
    markers.set_out(i64::MAX);
    assert_eq!(markers.out_frame, Some(i64::MAX));
    markers.clear();
    assert_eq!(markers, ExportMarkers::new());
}
