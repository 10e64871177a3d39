//! Export planning: encoder settings, the exported span of a composition
//! and the frame arithmetic behind it.

use crate::clock::{frames_covering, non_negative};
use crate::naming::{decimal, decimal_chars};
use crate::text::{chars_of, string_from_chars};
use crate::timecode::{parse_timecode, timecode_millis, timecode_result_matches, TimecodeError};
use crate::time::{
    earlier, is_before, spec_checked_sub, spec_frames, zero_time, Rational, Time, TimeError,
};
use vstd::prelude::*;

verus! {

/// Why an export could not be planned.
#[derive(Clone, Copy, Debug, PartialEq, Eq, Structural)]
pub enum ExportError {
    Time(TimeError),
    UnsupportedDimensions { width: u32, height: u32 },
    /// The CRF is above [`VideoEncoding::MAX_CRF`].
    InvalidCrf(u8),
    EmptyTimeline,
    /// The requested export range, once clamped to the composition and
    /// snapped to frames, covers zero frames.
    EmptyRange,
    Cancelled,
    TimelineTooLong,
}

/// Where an export is.
#[derive(Clone, Copy, Debug, PartialEq, Eq, Structural)]
pub enum ExportProgress {
    Rendering { frame: u64, total: u64 },
    MixingAudio,
    Muxing,
}

/// The status line shown for an export in progress.
pub open spec fn spec_export_progress_label(progress: ExportProgress) -> Seq<char> {
    match progress {
        ExportProgress::Rendering { frame, total } => if frame == 0 && total == 0 {
            "Starting export\u{2026}"@
        } else {
            "Exporting frame "@ + decimal(frame as nat) + "/"@ + decimal(total as nat)
        },
        ExportProgress::MixingAudio => "Mixing export audio\u{2026}"@,
        ExportProgress::Muxing => "Muxing MP4\u{2026}"@,
    }
}

/// The status line for `progress` (see [`spec_export_progress_label`]).
pub fn export_progress_label(progress: ExportProgress) -> (r: String)
    ensures
        r@ == spec_export_progress_label(progress),
{
    match progress {
        ExportProgress::Rendering { frame, total } => {
            if frame == 0 && total == 0 {
                return "Starting export\u{2026}".to_owned();
            }
            let mut line = chars_of("Exporting frame ");
            let mut digits = decimal_chars(frame);
            line.append(&mut digits);
            let mut slash = chars_of("/");
            line.append(&mut slash);
            let mut count = decimal_chars(total);
            line.append(&mut count);
            string_from_chars(line.as_slice())
        },
        ExportProgress::MixingAudio => "Mixing export audio\u{2026}".to_owned(),
        ExportProgress::Muxing => "Muxing MP4\u{2026}".to_owned(),
    }
}

/// `Err(Cancelled)` once the export has been cancelled.
pub fn ensure_not_cancelled(cancelled: bool) -> (r: Result<(), ExportError>)
    ensures
        r == (if cancelled {
            Err(ExportError::Cancelled)
        } else {
            Ok(())
        }),
{
    if cancelled {
        return Err(ExportError::Cancelled);
    }
    Ok(())
}

/// H.264 in MP4 needs non-zero, even dimensions.
pub open spec fn dimensions_supported(width: u32, height: u32) -> bool {
    width != 0 && height != 0 && width % 2 == 0 && height % 2 == 0
}

pub fn validate_dimensions(width: u32, height: u32) -> (r: Result<(), ExportError>)
    ensures
        r == (if dimensions_supported(width, height) {
            Ok(())
        } else {
            Err(ExportError::UnsupportedDimensions { width, height })
        }),
{
    if width == 0 || height == 0 || width % 2 != 0 || height % 2 != 0 {
        return Err(ExportError::UnsupportedDimensions { width, height });
    }
    Ok(())
}

/// `floor(max(value, 0) * numerator / (timescale * denominator))`: the
/// largest frame index whose start is not after `time`.
pub open spec fn floor_frames(time: Time, frame_rate: Rational) -> int {
    (non_negative(time.value as int) * frame_rate.numerator) / (time.timescale
        * frame_rate.denominator) as int
}

pub open spec fn spec_frame_floor(time: Time, frame_rate: Rational) -> Result<i64, ExportError> {
    if !time.spec_is_valid() {
        Err(ExportError::Time(TimeError::ZeroTimescale))
    } else if !frame_rate.spec_is_valid() {
        Err(ExportError::Time(TimeError::InvalidFrameRate))
    } else if floor_frames(time, frame_rate) > i64::MAX {
        Err(ExportError::TimelineTooLong)
    } else {
        Ok(floor_frames(time, frame_rate) as i64)
    }
}

pub open spec fn spec_frame_count(duration: Time, frame_rate: Rational) -> Result<u64, ExportError> {
    if !duration.spec_is_valid() {
        Err(ExportError::Time(TimeError::ZeroTimescale))
    } else if !frame_rate.spec_is_valid() {
        Err(ExportError::Time(TimeError::InvalidFrameRate))
    } else if frames_covering(duration, frame_rate) > u64::MAX {
        Err(ExportError::TimelineTooLong)
    } else {
        Ok(frames_covering(duration, frame_rate) as u64)
    }
}

/// Largest frame index whose start time is `<= time` (i.e. `time` snapped
/// down to a frame boundary). Negative times snap to frame 0.
pub fn frame_floor(time: Time, frame_rate: Rational) -> (r: Result<i64, ExportError>)
    ensures
        r == spec_frame_floor(time, frame_rate),
        r is Ok ==> r->Ok_0 >= 0,
{
    if !time.is_valid() {
        return Err(ExportError::Time(TimeError::ZeroTimescale));
    }
    if !frame_rate.is_valid() {
        return Err(ExportError::Time(TimeError::InvalidFrameRate));
    }
    let value: i128 = if time.value < 0 {
        0
    } else {
        time.value as i128
    };
    let num = frame_rate.numerator as i128;
    let den = frame_rate.denominator as i128;
    let ts = time.timescale as i128;
    assert(0 <= value * num <= 0x7fff_ffff_ffff_ffff * 0xffff_ffff) by (nonlinear_arith)
        requires
            0 <= value <= 0x7fff_ffff_ffff_ffff,
            0 <= num <= 0xffff_ffff,
    ;
    assert(0 < ts * den <= 0xffff_ffff * 0xffff_ffff) by (nonlinear_arith)
        requires
            0 < ts <= 0xffff_ffff,
            0 < den <= 0xffff_ffff,
    ;
    let numerator = value * num;
    let denominator = ts * den;
    let frame = numerator / denominator;
    assert(frame >= 0) by (nonlinear_arith)
        requires
            numerator >= 0,
            denominator > 0,
            frame == numerator / denominator,
    ;
    if frame > i64::MAX as i128 {
        return Err(ExportError::TimelineTooLong);
    }
    Ok(frame as i64)
}

/// The number of frames, counting a partial final frame as a whole one,
/// that `duration` covers at `frame_rate`.
pub fn frame_count(duration: Time, frame_rate: Rational) -> (r: Result<u64, ExportError>)
    ensures
        r == spec_frame_count(duration, frame_rate),
{
    if !duration.is_valid() {
        return Err(ExportError::Time(TimeError::ZeroTimescale));
    }
    if !frame_rate.is_valid() {
        return Err(ExportError::Time(TimeError::InvalidFrameRate));
    }
    let value: i128 = if duration.value < 0 {
        0
    } else {
        duration.value as i128
    };
    let num = frame_rate.numerator as i128;
    let den = frame_rate.denominator as i128;
    let ts = duration.timescale as i128;
    assert(0 <= value * num <= 0x7fff_ffff_ffff_ffff * 0xffff_ffff) by (nonlinear_arith)
        requires
            0 <= value <= 0x7fff_ffff_ffff_ffff,
            0 <= num <= 0xffff_ffff,
    ;
    assert(0 < ts * den <= 0xffff_ffff * 0xffff_ffff) by (nonlinear_arith)
        requires
            0 < ts <= 0xffff_ffff,
            0 < den <= 0xffff_ffff,
    ;
    let numerator = value * num;
    let denominator = ts * den;
    let frames = (numerator + denominator - 1) / denominator;
    assert(frames >= 0) by (nonlinear_arith)
        requires
            numerator >= 0,
            denominator > 0,
            frames == (numerator + denominator - 1) / (denominator as int),
    ;
    if frames > u64::MAX as i128 {
        return Err(ExportError::TimelineTooLong);
    }
    Ok(frames as u64)
}

/// A composition-time span to export. `start` is inclusive, `end` exclusive;
/// both are clamped into `[0, composition duration]` and `start` is snapped
/// down to a frame boundary. `end: None` means "to the end of the
/// composition".
#[derive(Clone, Copy, Debug, PartialEq, Eq, Structural)]
pub struct ExportRange {
    pub start: Time,
    pub end: Option<Time>,
}

impl ExportRange {
    /// `[start, end)` with an explicit end.
    pub fn new(start: Time, end: Time) -> (r: Self)
        ensures
            r == (ExportRange { start, end: Some(end) }),
    {
        ExportRange { start, end: Some(end) }
    }

    /// `[start, composition end)`.
    pub fn from(start: Time) -> (r: Self)
        ensures
            r == (ExportRange { start, end: None }),
    {
        ExportRange { start, end: None }
    }

    /// `[0, end)`.
    pub fn until(end: Time) -> (r: Self)
        ensures
            r == (ExportRange { start: zero_time(), end: Some(end) }),
    {
        ExportRange { start: Time::zero(), end: Some(end) }
    }
}

/// The frame-snapped result of resolving an [`ExportRange`] against a
/// concrete composition duration and frame rate.
#[derive(Clone, Copy, Debug, PartialEq, Eq, Structural)]
pub struct ExportWindow {
    /// Snapped composition-time start (the amount video/audio are shifted by).
    pub start: Time,
    /// First composition frame index to render.
    pub start_frame: i64,
    /// Number of frames to render.
    pub frames: u64,
    /// `frames` expressed as a time at the composition frame rate.
    pub duration: Time,
}

/// `time` clamped into `[0, duration]`; `duration` must be valid.
pub open spec fn clamp_into(time: Time, duration: Time) -> Result<Time, ExportError> {
    if !time.spec_is_valid() {
        Err(ExportError::Time(TimeError::ZeroTimescale))
    } else if is_before(time, zero_time()) {
        Ok(zero_time())
    } else if is_before(duration, time) {
        Ok(duration)
    } else {
        Ok(time)
    }
}

/// `total` reinterpreted as a signed 64-bit value (two's complement).
pub open spec fn as_signed(total: u64) -> int {
    if total <= i64::MAX {
        total as int
    } else {
        total - 0x1_0000_0000_0000_0000
    }
}

/// `value` reinterpreted as an unsigned 64-bit value (two's complement).
pub open spec fn as_unsigned(value: int) -> int {
    if value >= 0 {
        value
    } else {
        value + 0x1_0000_0000_0000_0000
    }
}

pub open spec fn min_int(a: int, b: int) -> int {
    if a <= b {
        a
    } else {
        b
    }
}

/// The window that `range` selects of a composition of `duration` at
/// `frame_rate`: both ends clamped into the composition, the start snapped
/// down to a frame (but not past the last frame), and the frame count
/// bounded by what is left of the composition. An empty span is
/// `EmptyRange`.
pub open spec fn spec_resolve_window(
    range: ExportRange,
    duration: Time,
    frame_rate: Rational,
) -> Result<ExportWindow, ExportError> {
    match spec_frame_count(duration, frame_rate) {
        Err(e) => Err(e),
        Ok(total) => match clamp_into(range.start, duration) {
            Err(e) => Err(e),
            Ok(start) => match clamp_into(
                match range.end {
                    Some(end) => end,
                    None => duration,
                },
                duration,
            ) {
                Err(e) => Err(e),
                Ok(end) => match spec_frame_floor(start, frame_rate) {
                    Err(e) => Err(e),
                    Ok(floor) => {
                        let start_frame = min_int(floor as int, as_signed(total));
                        match spec_frames(start_frame as i64, frame_rate) {
                            Err(e) => Err(ExportError::Time(e)),
                            Ok(snapped) => match spec_checked_sub(end, snapped) {
                                Err(e) => Err(ExportError::Time(e)),
                                Ok(span) => if !is_before(zero_time(), span) {
                                    Err(ExportError::EmptyRange)
                                } else {
                                    match spec_frame_count(span, frame_rate) {
                                        Err(e) => Err(e),
                                        Ok(count) => {
                                            let frames = min_int(
                                                count as int,
                                                total - as_unsigned(start_frame),
                                            );
                                            if frames == 0 {
                                                Err(ExportError::EmptyRange)
                                            } else {
                                                match spec_frames(frames as i64, frame_rate) {
                                                    Err(e) => Err(ExportError::Time(e)),
                                                    Ok(window_duration) => Ok(
                                                        ExportWindow {
                                                            start: snapped,
                                                            start_frame: start_frame as i64,
                                                            frames: frames as u64,
                                                            duration: window_duration,
                                                        },
                                                    ),
                                                }
                                            }
                                        },
                                    }
                                },
                            },
                        }
                    },
                },
            },
        },
    }
}

/// Clamps `time` into `[0, duration]`.
fn clamp_time(time: Time, duration: Time) -> (r: Result<Time, ExportError>)
    requires
        duration.spec_is_valid(),
    ensures
        r == clamp_into(time, duration),
{
    if !time.is_valid() {
        return Err(ExportError::Time(TimeError::ZeroTimescale));
    }
    if earlier(time, Time::zero()) {
        return Ok(Time::zero());
    }
    if earlier(duration, time) {
        return Ok(duration);
    }
    Ok(time)
}

/// Resolves `range` against the composition's full `duration` and
/// `frame_rate` (see [`spec_resolve_window`]).
pub fn resolve_window(range: &ExportRange, duration: Time, frame_rate: Rational) -> (r: Result<
    ExportWindow,
    ExportError,
>)
    ensures
        r == spec_resolve_window(*range, duration, frame_rate),
{
    let total = frame_count(duration, frame_rate)?;
    let start = clamp_time(range.start, duration)?;
    let end_time = match range.end {
        Some(end) => end,
        None => duration,
    };
    let end = clamp_time(end_time, duration)?;
    let floor = frame_floor(start, frame_rate)?;
    let total_signed: i64 = if total <= i64::MAX as u64 {
        total as i64
    } else {
        (total as i128 - 0x1_0000_0000_0000_0000i128) as i64
    };
    let start_frame = if floor <= total_signed {
        floor
    } else {
        total_signed
    };
    let snapped = match Time::frames(start_frame, frame_rate) {
        Ok(t) => t,
        Err(e) => return Err(ExportError::Time(e)),
    };
    let span = match end.checked_sub(snapped) {
        Ok(t) => t,
        Err(e) => return Err(ExportError::Time(e)),
    };
    if !earlier(Time::zero(), span) {
        return Err(ExportError::EmptyRange);
    }
    let count = frame_count(span, frame_rate)?;
    let start_unsigned: u64 = if start_frame >= 0 {
        start_frame as u64
    } else {
        total
    };
    let remaining = total - start_unsigned;
    let frames = if count <= remaining {
        count
    } else {
        remaining
    };
    if frames == 0 {
        return Err(ExportError::EmptyRange);
    }
    let window_duration = match Time::frames(frames as i64, frame_rate) {
        Ok(t) => t,
        Err(e) => return Err(ExportError::Time(e)),
    };
    Ok(ExportWindow { start: snapped, start_frame, frames, duration: window_duration })
}

/// What a project export renders: refused for unsupported dimensions or an
/// empty timeline; the whole composition without a range, else the window
/// the range selects.
pub open spec fn spec_plan_export(
    width: u32,
    height: u32,
    duration: Time,
    frame_rate: Rational,
    range: Option<ExportRange>,
) -> Result<ExportWindow, ExportError> {
    if !dimensions_supported(width, height) {
        Err(ExportError::UnsupportedDimensions { width, height })
    } else {
        match spec_frame_count(duration, frame_rate) {
            Err(e) => Err(e),
            Ok(total) => if total == 0 {
                Err(ExportError::EmptyTimeline)
            } else {
                match range {
                    Some(range) => spec_resolve_window(range, duration, frame_rate),
                    None => Ok(
                        ExportWindow { start: zero_time(), start_frame: 0, frames: total, duration },
                    ),
                }
            },
        }
    }
}

/// Plans a project export of `width` x `height` whose composition lasts
/// `duration` at `frame_rate` (see [`spec_plan_export`]).
pub fn plan_export(
    width: u32,
    height: u32,
    duration: Time,
    frame_rate: Rational,
    range: Option<ExportRange>,
) -> (r: Result<ExportWindow, ExportError>)
    ensures
        r == spec_plan_export(width, height, duration, frame_rate, range),
{
    validate_dimensions(width, height)?;
    let total = frame_count(duration, frame_rate)?;
    if total == 0 {
        return Err(ExportError::EmptyTimeline);
    }
    match range {
        Some(range) => resolve_window(&range, duration, frame_rate),
        None => Ok(ExportWindow { start: Time::zero(), start_frame: 0, frames: total, duration }),
    }
}

/// What a React entry export renders, given the entry's dimensions, length
/// in frames and frame rate: `(first frame, frame count, window start)`.
/// Refused for unsupported dimensions or no frames; with a range, the
/// window it selects of the whole entry.
pub open spec fn spec_plan_react_export(
    width: u32,
    height: u32,
    duration_in_frames: u64,
    frame_rate: Rational,
    range: Option<ExportRange>,
) -> Result<(u64, u64, Time), ExportError> {
    if !dimensions_supported(width, height) {
        Err(ExportError::UnsupportedDimensions { width, height })
    } else if duration_in_frames == 0 {
        Err(ExportError::EmptyTimeline)
    } else {
        match range {
            None => Ok((0, duration_in_frames, zero_time())),
            Some(range) => if duration_in_frames > i64::MAX {
                Err(ExportError::TimelineTooLong)
            } else {
                match spec_frames(duration_in_frames as i64, frame_rate) {
                    Err(e) => Err(ExportError::Time(e)),
                    Ok(full) => match spec_resolve_window(range, full, frame_rate) {
                        Err(e) => Err(e),
                        Ok(window) => if window.start_frame < 0 {
                            Err(ExportError::TimelineTooLong)
                        } else {
                            Ok((window.start_frame as u64, window.frames, window.start))
                        },
                    },
                }
            },
        }
    }
}

/// Plans a React entry export (see [`spec_plan_react_export`]).
pub fn plan_react_export(
    width: u32,
    height: u32,
    duration_in_frames: u64,
    frame_rate: Rational,
    range: Option<ExportRange>,
) -> (r: Result<(u64, u64, Time), ExportError>)
    ensures
        r == spec_plan_react_export(width, height, duration_in_frames, frame_rate, range),
{
    validate_dimensions(width, height)?;
    if duration_in_frames == 0 {
        return Err(ExportError::EmptyTimeline);
    }
    let range = match range {
        None => return Ok((0, duration_in_frames, Time::zero())),
        Some(range) => range,
    };
    if duration_in_frames > i64::MAX as u64 {
        return Err(ExportError::TimelineTooLong);
    }
    let full = match Time::frames(duration_in_frames as i64, frame_rate) {
        Ok(full) => full,
        Err(e) => return Err(ExportError::Time(e)),
    };
    let window = resolve_window(&range, full, frame_rate)?;
    if window.start_frame < 0 {
        return Err(ExportError::TimelineTooLong);
    }
    Ok((window.start_frame as u64, window.frames, window.start))
}

/// The composition time of the `offset`-th frame of a window that starts at
/// frame `start_frame`.
pub open spec fn spec_export_frame_time(start_frame: i64, offset: u64, frame_rate: Rational) -> Result<
    Time,
    ExportError,
> {
    if offset > i64::MAX || !(i64::MIN <= start_frame + offset <= i64::MAX) {
        Err(ExportError::TimelineTooLong)
    } else {
        match spec_frames((start_frame + offset) as i64, frame_rate) {
            Err(e) => Err(ExportError::Time(e)),
            Ok(t) => Ok(t),
        }
    }
}

/// When the `offset`-th frame of an export window is rendered (see
/// [`spec_export_frame_time`]).
pub fn export_frame_time(start_frame: i64, offset: u64, frame_rate: Rational) -> (r: Result<
    Time,
    ExportError,
>)
    ensures
        r == spec_export_frame_time(start_frame, offset, frame_rate),
{
    if offset > i64::MAX as u64 {
        return Err(ExportError::TimelineTooLong);
    }
    let index = match (offset as i64).checked_add(start_frame) {
        Some(index) => index,
        None => return Err(ExportError::TimelineTooLong),
    };
    match Time::frames(index, frame_rate) {
        Ok(t) => Ok(t),
        Err(e) => Err(ExportError::Time(e)),
    }
}

/// The time of the `offset`-th frame of a React entry export that starts at
/// frame `start_frame` (a frame count of the entry, so never negative).
pub fn react_frame_time(start_frame: u64, offset: u64, frame_rate: Rational) -> (r: Result<
    Time,
    ExportError,
>)
    requires
        start_frame + offset <= u64::MAX,
    ensures
        r == (if start_frame + offset > i64::MAX {
            Err(ExportError::TimelineTooLong)
        } else {
            match spec_frames((start_frame + offset) as i64, frame_rate) {
                Err(e) => Err(ExportError::Time(e)),
                Ok(t) => Ok(t),
            }
        }),
{
    let index = start_frame + offset;
    if index > i64::MAX as u64 {
        return Err(ExportError::TimelineTooLong);
    }
    match Time::frames(index as i64, frame_rate) {
        Ok(t) => Ok(t),
        Err(e) => Err(ExportError::Time(e)),
    }
}

/// Why the `from`/`to` timecodes do not give an export range.
#[derive(Clone, Debug, PartialEq, Eq)]
pub enum ExportRangeError {
    /// The `from` timecode was refused.
    From(TimecodeError),
    /// The `to` timecode was refused.
    To(TimecodeError),
    /// `to` is not after `from`.
    EndNotAfterStart,
}

/// The time a timecode spells, if it is one.
pub open spec fn timecode_time(input: Seq<char>) -> Option<Time> {
    match timecode_millis(input) {
        Ok(millis) => Some(Time { value: millis as i64, timescale: 1000 }),
        Err(_) => None,
    }
}

/// The time given for an optional timecode argument.
pub open spec fn argument_time(argument: Option<&str>) -> Option<Time> {
    match argument {
        Some(text) => timecode_time(text@),
        None => None,
    }
}

/// Whether an optional timecode argument is given and refused.
pub open spec fn argument_refused(argument: Option<&str>) -> bool {
    argument matches Some(text) && timecode_millis(text@) is Err
}

/// Parses an optional timecode argument.
fn parse_argument(argument: Option<&str>) -> (r: Result<Option<Time>, TimecodeError>)
    ensures
        match argument {
            None => r == Ok::<Option<Time>, TimecodeError>(None),
            Some(text) => match r {
                Ok(t) => timecode_millis(text@) is Ok && t == timecode_time(text@),
                Err(e) => timecode_millis(text@) is Err && timecode_result_matches(text@, Err(e)),
            },
        },
{
    match argument {
        None => Ok(None),
        Some(text) => match parse_timecode(text) {
            Ok(t) => Ok(Some(t)),
            Err(e) => Err(e),
        },
    }
}

/// The export range that `from` and `to` timecodes select: none when
/// neither is given; otherwise from `from` (or the start) to `to` (or the
/// end), where `to` must come after `from`. The `from` timecode is parsed
/// first, and a refused one is reported as such.
pub fn export_range(from: Option<&str>, to: Option<&str>) -> (r: Result<
    Option<ExportRange>,
    ExportRangeError,
>)
    ensures
        argument_refused(from) ==> (r matches Err(ExportRangeError::From(e))
            && timecode_result_matches(from->Some_0@, Err(e))),
        !argument_refused(from) && argument_refused(to) ==> (r matches Err(ExportRangeError::To(e))
            && timecode_result_matches(to->Some_0@, Err(e))),
        !argument_refused(from) && !argument_refused(to) ==> r == (if from is None && to is None {
            Ok(None)
        } else if from is Some && to is Some && !is_before(
            argument_time(from)->Some_0,
            argument_time(to)->Some_0,
        ) {
            Err(ExportRangeError::EndNotAfterStart)
        } else {
            Ok(
                Some(
                    ExportRange {
                        start: match argument_time(from) {
                            Some(start) => start,
                            None => zero_time(),
                        },
                        end: argument_time(to),
                    },
                ),
            )
        }),
{
    let start = match parse_argument(from) {
        Ok(start) => start,
        Err(e) => return Err(ExportRangeError::From(e)),
    };
    let end = match parse_argument(to) {
        Ok(end) => end,
        Err(e) => return Err(ExportRangeError::To(e)),
    };
    match (start, end) {
        (None, None) => return Ok(None),
        (Some(s), Some(e)) => {
            if !earlier(s, e) {
                return Err(ExportRangeError::EndNotAfterStart);
            }
        },
        _ => {},
    }
    let start_time = match start {
        Some(s) => s,
        None => Time::zero(),
    };
    Ok(Some(ExportRange { start: start_time, end }))
}


/// A clip of an export's audio graph: when it starts, and the rest of it.
pub struct GraphClip<C> {
    pub start: Time,
    pub rest: C,
}

/// The clips with every start moved `offset` earlier, in order; the first
/// start that cannot be moved gives its error.
pub open spec fn spec_shift_clips<C>(clips: Seq<GraphClip<C>>, offset: Time) -> Result<
    Seq<GraphClip<C>>,
    TimeError,
>
    decreases clips.len(),
{
    if clips.len() == 0 {
        Ok(Seq::empty())
    } else {
        match spec_checked_sub(clips[0].start, offset) {
            Err(e) => Err(e),
            Ok(start) => match spec_shift_clips(clips.drop_first(), offset) {
                Err(e) => Err(e),
                Ok(rest) => Ok(seq![GraphClip { start, rest: clips[0].rest }] + rest),
            },
        }
    }
}

/// The audio clips of an export whose window starts at `offset`: each
/// starts `offset` earlier, so that the window's start becomes the file's
/// start (a clip that began before the window gets a negative start). See
/// [`spec_shift_clips`].
pub fn shift_clips<C>(clips: Vec<GraphClip<C>>, offset: Time) -> (r: Result<
    Vec<GraphClip<C>>,
    TimeError,
>)
    ensures
        match spec_shift_clips(clips@, offset) {
            Err(e) => r matches Err(f) && f == e,
            Ok(shifted) => r matches Ok(v) && v@ == shifted,
        },
{
    let ghost initial = clips@;
    let count = clips.len();
    let mut rest = clips;
    let mut out: Vec<GraphClip<C>> = Vec::new();
    let mut taken: usize = 0;
    assert(initial.skip(0) =~= initial);
    while rest.len() > 0
        invariant
            taken <= initial.len() == count,
            rest@ == initial.skip(taken as int),
            initial == clips@,
            spec_shift_clips(initial, offset) == match spec_shift_clips(rest@, offset) {
                Err(e) => Err(e),
                Ok(shifted) => Ok(out@ + shifted),
            },
        decreases rest@.len(),
    {
        let ghost tail = rest@;
        let clip = rest.remove(0);
        assert(tail[0] == clip);
        assert(tail.drop_first() =~= rest@);
        assert(rest@ =~= initial.skip(taken + 1));
        let start = match clip.start.checked_sub(offset) {
            Ok(start) => start,
            Err(e) => {
                assert(spec_shift_clips(tail, offset) == Err::<Seq<GraphClip<C>>, TimeError>(e));
                return Err(e);
            },
        };
        let ghost prior = out@;
        let moved = GraphClip { start, rest: clip.rest };
        out.push(moved);
        proof {
            match spec_shift_clips(rest@, offset) {
                Err(e) => {},
                Ok(shifted) => {
                    assert(prior + (seq![moved] + shifted) =~= out@ + shifted);
                },
            }
        }
        taken = taken + 1;
    }
    assert(rest@ =~= Seq::<GraphClip<C>>::empty());
    assert(out@ + Seq::<GraphClip<C>>::empty() =~= out@);
    Ok(out)
}

} // verus!
