//! The frame-accurate playhead shared by editor controls and preview
//! evaluation.

use crate::time::{spec_frames, Rational, Time, TimeError};
use vstd::prelude::*;

verus! {

/// `max(value, 0)` as a natural number.
pub open spec fn non_negative(value: int) -> nat {
    if value < 0 {
        0
    } else {
        value as nat
    }
}

/// The number of whole or partial frames that `duration` covers at
/// `frame_rate`: `ceil(max(value, 0) * numerator / (timescale * denominator))`.
pub open spec fn frames_covering(duration: Time, frame_rate: Rational) -> int {
    let n = non_negative(duration.value as int) * frame_rate.numerator;
    let d = duration.timescale * frame_rate.denominator;
    (n + d - 1) / d
}

/// The frame nearest to `time`, halves rounded away from zero:
/// `round(value * numerator / (timescale * denominator))`.
pub open spec fn nearest_frame(time: Time, frame_rate: Rational) -> int {
    let n = time.value * frame_rate.numerator;
    let d = time.timescale * frame_rate.denominator;
    if n >= 0 {
        (n + d / 2) / d
    } else {
        -((-n + d / 2) / d)
    }
}

/// `frame` clamped into `[0, end]`.
pub open spec fn clamp_frame(frame: int, end: int) -> int {
    if frame < 0 {
        0
    } else if frame > end {
        end
    } else {
        frame
    }
}

/// `a + b` saturated into the `i64` range.
pub open spec fn saturating_sum(a: int, b: int) -> int {
    if a + b > i64::MAX {
        i64::MAX as int
    } else if a + b < i64::MIN {
        i64::MIN as int
    } else {
        a + b
    }
}

/// The playhead's position, the timeline's end frame, and its frame rate.
#[derive(Clone, Copy, Debug, PartialEq, Eq, Structural)]
pub struct TimelineClock {
    frame: i64,
    end_frame: i64,
    frame_rate: Rational,
}

impl TimelineClock {
    /// The current frame.
    pub closed spec fn frame_of(self) -> int {
        self.frame as int
    }

    /// The last frame the playhead can reach.
    pub closed spec fn end_frame_of(self) -> int {
        self.end_frame as int
    }

    /// The frame rate the clock counts in.
    pub closed spec fn rate_of(self) -> Rational {
        self.frame_rate
    }

    /// The playhead never leaves `[0, end_frame]`, and the frame rate is valid.
    pub closed spec fn wf(self) -> bool {
        &&& 0 <= self.frame <= self.end_frame
        &&& self.frame_rate.spec_is_valid()
    }

    /// A well-formed clock's frame lies in `[0, end_frame]` and its end
    /// frame fits in `i64`.
    pub proof fn lemma_wf_bounds(self)
        requires
            self.wf(),
        ensures
            0 <= self.frame_of() <= self.end_frame_of() <= i64::MAX,
            self.rate_of().spec_is_valid(),
    {
    }

    /// A clock at frame 0 over `duration` at `frame_rate`. Fails when
    /// either is invalid or the frame count does not fit in `i64`.
    pub fn new(duration: Time, frame_rate: Rational) -> (r: Result<Self, TimeError>)
        ensures
            !duration.spec_is_valid() ==> r == Err::<Self, TimeError>(TimeError::ZeroTimescale),
            duration.spec_is_valid() && !frame_rate.spec_is_valid() ==> r == Err::<Self, TimeError>(
                TimeError::InvalidFrameRate,
            ),
            duration.spec_is_valid() && frame_rate.spec_is_valid() ==> (match r {
                Ok(clock) => {
                    &&& frames_covering(duration, frame_rate) <= i64::MAX
                    &&& clock.wf()
                    &&& clock.frame_of() == 0
                    &&& clock.end_frame_of() == frames_covering(duration, frame_rate)
                    &&& clock.rate_of() == frame_rate
                },
                Err(e) => e == TimeError::Overflow && frames_covering(duration, frame_rate)
                    > i64::MAX,
            }),
    {
        if !duration.is_valid() {
            return Err(TimeError::ZeroTimescale);
        }
        if !frame_rate.is_valid() {
            return Err(TimeError::InvalidFrameRate);
        }
        let value: i128 = if duration.value < 0 {
            0
        } else {
            duration.value as i128
        };
        let num = frame_rate.numerator as i128;
        let den = frame_rate.denominator as i128;
        let ts = duration.timescale as i128;
        assert(0 <= value * num <= 0x7fff_ffff_ffff_ffff * 0xffff_ffff) by (nonlinear_arith)
            requires
                0 <= value <= 0x7fff_ffff_ffff_ffff,
                0 <= num <= 0xffff_ffff,
        ;
        assert(0 < ts * den <= 0xffff_ffff * 0xffff_ffff) by (nonlinear_arith)
            requires
                0 < ts <= 0xffff_ffff,
                0 < den <= 0xffff_ffff,
        ;
        let numerator = value * num;
        let denominator = ts * den;
        let end = (numerator + denominator - 1) / denominator;
        assert(end >= 0) by (nonlinear_arith)
            requires
                numerator >= 0,
                denominator > 0,
                end == (numerator + denominator - 1) / (denominator as int),
        ;
        if end > i64::MAX as i128 {
            return Err(TimeError::Overflow);
        }
        Ok(TimelineClock { frame: 0, end_frame: end as i64, frame_rate })
    }

    pub fn frame(self) -> (f: i64)
        ensures
            f == self.frame_of(),
    {
        self.frame
    }

    pub fn end_frame(self) -> (f: i64)
        ensures
            f == self.end_frame_of(),
    {
        self.end_frame
    }

    /// Whether the playhead has reached the end of the timeline.
    pub fn is_at_end(self) -> (b: bool)
        ensures
            b == (self.frame_of() >= self.end_frame_of()),
    {
        self.frame >= self.end_frame
    }

    /// The time at which the current frame starts.
    pub fn time(self) -> (r: Result<Time, TimeError>)
        ensures
            r == spec_frames(self.frame_of() as i64, self.rate_of()),
    {
        Time::frames(self.frame, self.frame_rate)
    }

    /// The frame nearest to `time` (see [`nearest_frame`]); fails when
    /// `time` is invalid or the frame does not fit in `i64`.
    pub fn frame_for_time(self, time: Time) -> (r: Result<i64, TimeError>)
        requires
            self.wf(),
        ensures
            !time.spec_is_valid() ==> r == Err::<i64, TimeError>(TimeError::ZeroTimescale),
            time.spec_is_valid() ==> (match r {
                Ok(frame) => frame == nearest_frame(time, self.rate_of()),
                Err(e) => e == TimeError::Overflow && !(i64::MIN <= nearest_frame(
                    time,
                    self.rate_of(),
                ) <= i64::MAX),
            }),
    {
        if !time.is_valid() {
            return Err(TimeError::ZeroTimescale);
        }
        let value = time.value as i128;
        let num = self.frame_rate.numerator as i128;
        let den = self.frame_rate.denominator as i128;
        let ts = time.timescale as i128;
        assert(-0x8000_0000_0000_0000 * 0xffff_ffff <= value * num <= 0x7fff_ffff_ffff_ffff
            * 0xffff_ffff) by (nonlinear_arith)
            requires
                -0x8000_0000_0000_0000 <= value <= 0x7fff_ffff_ffff_ffff,
                0 <= num <= 0xffff_ffff,
        ;
        assert(0 < ts * den <= 0xffff_ffff * 0xffff_ffff) by (nonlinear_arith)
            requires
                0 < ts <= 0xffff_ffff,
                0 < den <= 0xffff_ffff,
        ;
        let numerator = value * num;
        let denominator = ts * den;
        let half = denominator / 2;
        let frame: i128 = if numerator >= 0 {
            (numerator + half) / denominator
        } else {
            let magnitude = (-numerator + half) / denominator;
            -magnitude
        };
        if frame < i64::MIN as i128 || frame > i64::MAX as i128 {
            return Err(TimeError::Overflow);
        }
        Ok(frame as i64)
    }

    /// Moves the playhead to `frame`, clamped into `[0, end_frame]`.
    pub fn seek(&mut self, frame: i64)
        requires
            old(self).wf(),
        ensures
            final(self).wf(),
            final(self).frame_of() == clamp_frame(frame as int, old(self).end_frame_of()),
            final(self).end_frame_of() == old(self).end_frame_of(),
            final(self).rate_of() == old(self).rate_of(),
    {
        self.frame = if frame < 0 {
            0
        } else if frame > self.end_frame {
            self.end_frame
        } else {
            frame
        };
    }

    /// Moves the playhead by `delta` frames (saturating), clamped into
    /// `[0, end_frame]`.
    pub fn step(&mut self, delta: i64)
        requires
            old(self).wf(),
        ensures
            final(self).wf(),
            final(self).frame_of() == clamp_frame(
                saturating_sum(old(self).frame_of(), delta as int),
                old(self).end_frame_of(),
            ),
            final(self).end_frame_of() == old(self).end_frame_of(),
            final(self).rate_of() == old(self).rate_of(),
    {
        let sum = self.frame as i128 + delta as i128;
        let target: i64 = if sum > i64::MAX as i128 {
            i64::MAX
        } else if sum < i64::MIN as i128 {
            i64::MIN
        } else {
            sum as i64
        };
        self.seek(target);
    }
}


/// How long a React entry's preview lasts: its length in frames at its
/// frame rate, a length beyond the largest signed frame count being taken
/// as that count.
pub fn react_preview_duration(duration_in_frames: u64, frame_rate: Rational) -> (r: Result<
    Time,
    TimeError,
>)
    ensures
        r == spec_frames(
            if duration_in_frames > i64::MAX {
                i64::MAX
            } else {
                duration_in_frames as i64
            },
            frame_rate,
        ),
{
    let frames: i64 = if duration_in_frames > i64::MAX as u64 {
        i64::MAX
    } else {
        duration_in_frames as i64
    };
    Time::frames(frames, frame_rate)
}


/// Starts playback: nothing plays on an empty timeline; at its end the
/// playhead first goes back to frame 0. Returns the frame playback starts
/// from.
pub fn start_playback(clock: &mut TimelineClock) -> (r: Option<i64>)
    requires
        old(clock).wf(),
    ensures
        final(clock).wf(),
        final(clock).end_frame_of() == old(clock).end_frame_of(),
        final(clock).rate_of() == old(clock).rate_of(),
        old(clock).end_frame_of() == 0 ==> r is None && *final(clock) == *old(clock),
        old(clock).end_frame_of() > 0 ==> {
            &&& final(clock).frame_of() == (if old(clock).frame_of() >= old(clock).end_frame_of() {
                0
            } else {
                old(clock).frame_of()
            })
            &&& r == Some(final(clock).frame_of() as i64)
        },
{
    if clock.end_frame() <= 0 {
        return None;
    }
    if clock.is_at_end() {
        clock.seek(0);
    }
    Some(clock.frame())
}

/// One tick of playback that started at `started_frame`, `elapsed_frames`
/// frames ago: the playhead goes to the frame reached (saturating, and
/// clamped to the timeline). Returns whether playback goes on, that is
/// whether the end is not reached yet.
pub fn playback_tick(clock: &mut TimelineClock, started_frame: i64, elapsed_frames: i64) -> (r: bool)
    requires
        old(clock).wf(),
    ensures
        final(clock).wf(),
        final(clock).end_frame_of() == old(clock).end_frame_of(),
        final(clock).rate_of() == old(clock).rate_of(),
        final(clock).frame_of() == clamp_frame(
            saturating_sum(started_frame as int, elapsed_frames as int),
            old(clock).end_frame_of(),
        ),
        r == (final(clock).frame_of() < final(clock).end_frame_of()),
{
    let sum = started_frame as i128 + elapsed_frames as i128;
    let target: i64 = if sum > i64::MAX as i128 {
        i64::MAX
    } else if sum < i64::MIN as i128 {
        i64::MIN
    } else {
        sum as i64
    };
    if target != clock.frame() {
        clock.seek(target);
    }
    !clock.is_at_end()
}

} // verus!
