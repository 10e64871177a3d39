//! Placing times on the timeline: which item is active, where the playhead
//! falls inside a clip, the lip-sync mouth shape at a moment, and the export
//! range between two markers.

use crate::clock::{frames_covering, TimelineClock};
use crate::export::ExportRange;
use crate::time::{
    is_before, spec_checked_add, spec_checked_sub, spec_frames, zero_time, Rational, Time,
    TimeError, TimeRange,
};
use std::cmp::Ordering;
use vstd::prelude::*;

verus! {

/// A lip-sync cue: from `time` on (clip-local), the mouth takes `shape`.
#[derive(Clone, Copy, Debug, PartialEq, Eq)]
pub struct LipSyncCue<S> {
    pub time: Time,
    pub shape: S,
}

/// Whether `time` lies in `[range.start, range.start + range.duration)`.
/// The end is only computed once `time` is known not to precede the start.
pub open spec fn spec_is_active(range: TimeRange, time: Time) -> Result<bool, TimeError> {
    if !time.spec_is_valid() || !range.start.spec_is_valid() {
        Err(TimeError::ZeroTimescale)
    } else if is_before(time, range.start) {
        Ok(false)
    } else {
        match spec_checked_add(range.start, range.duration) {
            Err(e) => Err(e),
            Ok(end) => if !end.spec_is_valid() {
                Err(TimeError::ZeroTimescale)
            } else {
                Ok(is_before(time, end))
            },
        }
    }
}

/// Whether a timeline item spanning `range` is active at `time`: the start
/// is inclusive and the end exclusive.
pub fn is_active(range: TimeRange, time: Time) -> (r: Result<bool, TimeError>)
    ensures
        r == spec_is_active(range, time),
{
    let from_start = match time.cmp_exact(range.start) {
        Err(e) => return Err(e),
        Ok(ordering) => ordering,
    };
    match from_start {
        Ordering::Less => return Ok(false),
        _ => {},
    }
    let end = match range.end() {
        Err(e) => return Err(e),
        Ok(end) => end,
    };
    match time.cmp_exact(end) {
        Err(e) => Err(e),
        Ok(Ordering::Less) => Ok(true),
        Ok(_) => Ok(false),
    }
}

/// The shape of the last cue, scanning from the front, whose time is not
/// after `time`; `current` if there is none. A cue that cannot be compared
/// with `time` stops the scan with an error.
pub open spec fn scan_cues<S>(cues: Seq<LipSyncCue<S>>, time: Time, current: Option<S>) -> Result<
    Option<S>,
    TimeError,
>
    decreases cues.len(),
{
    if cues.len() == 0 {
        Ok(current)
    } else if !cues[0].time.spec_is_valid() || !time.spec_is_valid() {
        Err(TimeError::ZeroTimescale)
    } else if is_before(time, cues[0].time) {
        Ok(current)
    } else {
        scan_cues(cues.drop_first(), time, Some(cues[0].shape))
    }
}

/// Whether `a` comes strictly after `b`, or why they cannot be compared.
fn strictly_after(a: Time, b: Time) -> (r: Result<bool, TimeError>)
    ensures
        r == (if !a.spec_is_valid() || !b.spec_is_valid() {
            Err(TimeError::ZeroTimescale)
        } else {
            Ok(is_before(b, a))
        }),
{
    match a.cmp_exact(b) {
        Err(e) => Err(e),
        Ok(Ordering::Greater) => Ok(true),
        Ok(_) => Ok(false),
    }
}

/// The mouth shape at clip-local `local_time`: that of the last cue at or
/// before it, taking the cues in order and stopping at the first cue after
/// it; `None` before the first cue.
pub fn mouth_shape_at<S: Copy>(cues: &[LipSyncCue<S>], local_time: Time) -> (r: Result<
    Option<S>,
    TimeError,
>)
    ensures
        r == scan_cues(cues@, local_time, None),
{
    let mut shape: Option<S> = None;
    let mut i: usize = 0;
    assert(cues@.skip(0) == cues@);
    while i < cues.len()
        invariant
            i <= cues.len(),
            scan_cues(cues@.skip(i as int), local_time, shape) == scan_cues(cues@, local_time, None),
        decreases cues.len() - i,
    {
        let cue = cues[i];
        assert(cues@.skip(i as int)[0] == cue);
        assert(cues@.skip(i as int).drop_first() == cues@.skip(i + 1));
        match strictly_after(cue.time, local_time) {
            Err(e) => return Err(e),
            Ok(true) => return Ok(shape),
            Ok(false) => {},
        }
        shape = Some(cue.shape);
        i = i + 1;
    }
    assert(cues@.skip(i as int).len() == 0);
    Ok(shape)
}

/// The playhead's time inside a clip that starts at `start` and lasts
/// `duration`: zero at or before the start, the clip's duration past its
/// end, and `time - start` between.
pub open spec fn spec_clip_local_time(time: Time, start: Time, duration: Time) -> Time {
    if time.spec_is_valid() && start.spec_is_valid() && !is_before(start, time) {
        zero_time()
    } else {
        let local = match spec_checked_sub(time, start) {
            Ok(local) => local,
            Err(_) => zero_time(),
        };
        if local.spec_is_valid() && duration.spec_is_valid() && is_before(duration, local) {
            duration
        } else {
            local
        }
    }
}

/// Clip-local time of the playhead at `time` (see [`spec_clip_local_time`]).
/// A difference that cannot be computed counts as zero.
pub fn clip_local_time(time: Time, start: Time, duration: Time) -> (r: Time)
    ensures
        r == spec_clip_local_time(time, start, duration),
{
    match time.cmp_exact(start) {
        Ok(Ordering::Greater) => {},
        Ok(_) => return Time::zero(),
        Err(_) => {},
    }
    let local = match time.checked_sub(start) {
        Ok(local) => local,
        Err(_) => Time::zero(),
    };
    match local.cmp_exact(duration) {
        Ok(Ordering::Greater) => duration,
        _ => local,
    }
}

/// `duration * numerator / denominator`, by scaling the value and the
/// timescale separately; `None` when either no longer fits its type.
pub open spec fn spec_time_fraction(duration: Time, numerator: usize, denominator: usize) -> Option<
    Time,
> {
    let value = duration.value * numerator;
    let timescale = duration.timescale * denominator;
    if i64::MIN <= value <= i64::MAX && timescale <= u32::MAX {
        Some(Time { value: value as i64, timescale: timescale as u32 })
    } else {
        None
    }
}

/// A fraction of a duration as an exact time (see [`spec_time_fraction`]).
pub fn time_fraction(duration: Time, numerator: usize, denominator: usize) -> (r: Option<Time>)
    ensures
        r == spec_time_fraction(duration, numerator, denominator),
{
    let value = scaled_value(duration.value, numerator);
    let timescale = scaled_timescale(duration.timescale, denominator);
    if value < -0x8000_0000_0000_0000i128 || value > 0x7fff_ffff_ffff_ffffi128 {
        return None;
    }
    if timescale > 0xffff_ffffu128 {
        return None;
    }
    Some(Time::new(value as i64, timescale as u32))
}

/// `value * factor`, without overflow.
fn scaled_value(value: i64, factor: usize) -> (r: i128)
    ensures
        r == value * factor,
{
    let v = value as i128;
    let f = factor as i128;
    assert(-0x8000_0000_0000_0000 * 0xffff_ffff_ffff_ffff <= v * f <= 0x7fff_ffff_ffff_ffff
        * 0xffff_ffff_ffff_ffff) by (nonlinear_arith)
        requires
            -0x8000_0000_0000_0000 <= v <= 0x7fff_ffff_ffff_ffff,
            0 <= f <= 0xffff_ffff_ffff_ffff,
    ;
    v * f
}

/// `timescale * factor`, without overflow.
fn scaled_timescale(timescale: u32, factor: usize) -> (r: u128)
    ensures
        r == timescale * factor,
{
    let t = timescale as u128;
    let f = factor as u128;
    assert(t * f <= 0xffff_ffff * 0xffff_ffff_ffff_ffff) by (nonlinear_arith)
        requires
            t <= 0xffff_ffff,
            f <= 0xffff_ffff_ffff_ffff,
    ;
    t * f
}

/// The export range between an in marker and an out marker, in frames:
/// both must be set, the in marker not negative and the out marker after
/// it, and both must convert to times.
pub open spec fn spec_export_range_for(
    in_frame: Option<i64>,
    out_frame: Option<i64>,
    frame_rate: Rational,
) -> Option<ExportRange> {
    match (in_frame, out_frame) {
        (Some(start), Some(end)) => if start < 0 || end <= start {
            None
        } else {
            match (spec_frames(start, frame_rate), spec_frames(end, frame_rate)) {
                (Ok(s), Ok(e)) => Some(ExportRange { start: s, end: Some(e) }),
                _ => None,
            }
        },
        _ => None,
    }
}

/// The export range set by the in and out markers (see
/// [`spec_export_range_for`]).
pub fn export_range_for(in_frame: Option<i64>, out_frame: Option<i64>, frame_rate: Rational) -> (r:
    Option<ExportRange>)
    ensures
        r == spec_export_range_for(in_frame, out_frame, frame_rate),
{
    let (start, end) = match (in_frame, out_frame) {
        (Some(start), Some(end)) => (start, end),
        _ => return None,
    };
    if start < 0 || end <= start {
        return None;
    }
    let start_time = match Time::frames(start, frame_rate) {
        Ok(t) => t,
        Err(_) => return None,
    };
    let end_time = match Time::frames(end, frame_rate) {
        Ok(t) => t,
        Err(_) => return None,
    };
    Some(ExportRange::new(start_time, end_time))
}

/// The editor's export in and out markers, in frames.
#[derive(Clone, Copy, Debug, PartialEq, Eq, Structural)]
pub struct ExportMarkers {
    pub in_frame: Option<i64>,
    pub out_frame: Option<i64>,
}

/// Whether two set markers are in order: the in marker before the out one.
pub open spec fn markers_ordered(markers: ExportMarkers) -> bool {
    match (markers.in_frame, markers.out_frame) {
        (Some(start), Some(end)) => start < end,
        _ => true,
    }
}

/// The markers once the in point is at the playhead's frame: an out point
/// at or before it is dropped.
pub open spec fn spec_set_in(markers: ExportMarkers, playhead: i64) -> ExportMarkers {
    ExportMarkers {
        in_frame: Some(playhead),
        out_frame: match markers.out_frame {
            Some(end) => if end <= playhead {
                None
            } else {
                Some(end)
            },
            None => None,
        },
    }
}

/// The frame after the playhead's (the last frame stays where it is).
pub open spec fn frame_after(playhead: i64) -> i64 {
    if playhead == i64::MAX {
        i64::MAX
    } else {
        (playhead + 1) as i64
    }
}

/// The markers once the out point is just after the playhead's frame: an in
/// point at or after it is dropped.
pub open spec fn spec_set_out(markers: ExportMarkers, playhead: i64) -> ExportMarkers {
    ExportMarkers {
        in_frame: match markers.in_frame {
            Some(start) => if start >= frame_after(playhead) {
                None
            } else {
                Some(start)
            },
            None => None,
        },
        out_frame: Some(frame_after(playhead)),
    }
}

impl ExportMarkers {
    pub fn new() -> (r: Self)
        ensures
            r == (ExportMarkers { in_frame: None, out_frame: None }),
    {
        ExportMarkers { in_frame: None, out_frame: None }
    }

    /// Marks the playhead's frame as the in point, dropping an out point at
    /// or before it (see [`spec_set_in`]).
    pub fn set_in(&mut self, playhead: i64)
        ensures
            *final(self) == spec_set_in(*old(self), playhead),
    {
        self.in_frame = Some(playhead);
        if let Some(end) = self.out_frame {
            if end <= playhead {
                self.out_frame = None;
            }
        }
    }

    /// Marks the frame after the playhead as the out point, so that the
    /// playhead's frame is exported, dropping an in point at or after it
    /// (see [`spec_set_out`]).
    pub fn set_out(&mut self, playhead: i64)
        ensures
            *final(self) == spec_set_out(*old(self), playhead),
    {
        let end = if playhead == i64::MAX {
            i64::MAX
        } else {
            playhead + 1
        };
        self.out_frame = Some(end);
        if let Some(start) = self.in_frame {
            if start >= end {
                self.in_frame = None;
            }
        }
    }

    /// Drops both markers.
    pub fn clear(&mut self)
        ensures
            *final(self) == (ExportMarkers { in_frame: None, out_frame: None }),
    {
        self.in_frame = None;
        self.out_frame = None;
    }

    /// The export range the markers set (see [`spec_export_range_for`]).
    pub fn range(&self, frame_rate: Rational) -> (r: Option<ExportRange>)
        ensures
            r == spec_export_range_for(self.in_frame, self.out_frame, frame_rate),
    {
        export_range_for(self.in_frame, self.out_frame, frame_rate)
    }
}

/// A clip-local time outside the clip was given for a clip's keyframe.
#[derive(Clone, Debug, PartialEq, Eq)]
pub struct InvalidClipVolumeTime {
    pub clip: String,
    pub time: Time,
}

/// Whether `time` lies in `[0, duration]`.
pub open spec fn within_clip(time: Time, duration: Time) -> bool {
    &&& time.spec_is_valid()
    &&& duration.spec_is_valid()
    &&& !is_before(time, zero_time())
    &&& !is_before(duration, time)
}

/// Accepts a clip-local keyframe time of clip `clip_id` only when it lies in
/// `[0, duration]`.
pub fn validate_clip_local_time(clip_id: &str, time: Time, duration: Time) -> (r: Result<
    (),
    InvalidClipVolumeTime,
>)
    ensures
        within_clip(time, duration) ==> r is Ok,
        !within_clip(time, duration) ==> r is Err && r->Err_0.clip@ == clip_id@ && r->Err_0.time
            == time,
{
    let after_start = match time.cmp_exact(Time::zero()) {
        Ok(Ordering::Less) => false,
        Ok(_) => true,
        Err(_) => false,
    };
    let before_end = match time.cmp_exact(duration) {
        Ok(Ordering::Greater) => false,
        Ok(_) => true,
        Err(_) => false,
    };
    if after_start && before_end {
        Ok(())
    } else {
        Err(InvalidClipVolumeTime { clip: clip_id.to_owned(), time })
    }
}

/// Where a track at `index` of `len` tracks goes when moved by `offset`:
/// `index + offset`, stopped at the first and the last position.
pub open spec fn spec_move_target(index: int, offset: int, len: int) -> int {
    let moved = if index + offset < 0 {
        0
    } else if index + offset > usize::MAX {
        usize::MAX as int
    } else {
        index + offset
    };
    if moved < len - 1 {
        moved
    } else {
        len - 1
    }
}

/// The position a track moves to (see [`spec_move_target`]).
pub fn move_target(index: usize, offset: isize, len: usize) -> (r: usize)
    requires
        index < len,
    ensures
        r == spec_move_target(index as int, offset as int, len as int),
{
    let sum = index as i128 + offset as i128;
    let moved: usize = if sum < 0 {
        0
    } else if sum > usize::MAX as i128 {
        usize::MAX
    } else {
        sum as usize
    };
    if moved < len - 1 {
        moved
    } else {
        len - 1
    }
}

/// Why a clip cannot be given a range in frames.
#[derive(Clone, Copy, Debug, PartialEq, Eq, Structural)]
pub enum ClipFramesError {
    /// The timeline's duration and frame rate give no frame count.
    Duration(TimeError),
    /// The range does not start at or after frame 0, last at least one
    /// frame and end by the timeline's end frame.
    InvalidClipFrameRange { start_frame: i64, duration_frames: i64, timeline_end_frame: i64 },
}

/// Why a timeline of `duration` at `frame_rate` has no end frame, if it has
/// none.
pub open spec fn timeline_clock_error(duration: Time, frame_rate: Rational) -> Option<TimeError> {
    if !duration.spec_is_valid() {
        Some(TimeError::ZeroTimescale)
    } else if !frame_rate.spec_is_valid() {
        Some(TimeError::InvalidFrameRate)
    } else if frames_covering(duration, frame_rate) > i64::MAX {
        Some(TimeError::Overflow)
    } else {
        None
    }
}

/// Checks that a clip may span `duration_frames` frames from `start_frame`
/// on a timeline of `duration` at `frame_rate`: it must start at frame 0 or
/// later, last at least one frame, and end by the timeline's end frame.
pub fn check_clip_frames(
    duration: Time,
    frame_rate: Rational,
    start_frame: i64,
    duration_frames: i64,
) -> (r: Result<(), ClipFramesError>)
    ensures
        timeline_clock_error(duration, frame_rate) matches Some(e) ==> r == Err::<
            (),
            ClipFramesError,
        >(ClipFramesError::Duration(e)),
        timeline_clock_error(duration, frame_rate) is None ==> r == ({
            let end = frames_covering(duration, frame_rate);
            let last = start_frame + duration_frames;
            if last < i64::MIN || last > i64::MAX || start_frame < 0 || duration_frames < 1 || last
                > end {
                Err(
                    ClipFramesError::InvalidClipFrameRange {
                        start_frame,
                        duration_frames,
                        timeline_end_frame: end as i64,
                    },
                )
            } else {
                Ok(())
            }
        }),
{
    let clock = match TimelineClock::new(duration, frame_rate) {
        Ok(clock) => clock,
        Err(e) => return Err(ClipFramesError::Duration(e)),
    };
    let end = clock.end_frame();
    let invalid = ClipFramesError::InvalidClipFrameRange {
        start_frame,
        duration_frames,
        timeline_end_frame: end,
    };
    let last = match start_frame.checked_add(duration_frames) {
        Some(last) => last,
        None => return Err(invalid),
    };
    if start_frame < 0 || duration_frames < 1 || last > end {
        return Err(invalid);
    }
    Ok(())
}

/// The time range of a clip spanning `duration_frames` frames from
/// `start_frame`.
pub fn clip_frames_range(start_frame: i64, duration_frames: i64, frame_rate: Rational) -> (r: Result<
    TimeRange,
    TimeError,
>)
    ensures
        r == (match (spec_frames(start_frame, frame_rate), spec_frames(duration_frames, frame_rate)) {
            (Ok(start), Ok(duration)) => Ok(TimeRange { start, duration }),
            (Err(e), _) => Err(e),
            (Ok(_), Err(e)) => Err(e),
        }),
{
    let start = Time::frames(start_frame, frame_rate)?;
    let duration = Time::frames(duration_frames, frame_rate)?;
    Ok(TimeRange { start, duration })
}

} // verus!
