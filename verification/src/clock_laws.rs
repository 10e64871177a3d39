//! Laws of the playhead.

use crate::clock::{clamp_frame, nearest_frame, saturating_sum, TimelineClock};
use crate::time::{spec_frames, Rational};
use vstd::arithmetic::div_mod::lemma_div_multiples_vanish_fancy;
use vstd::prelude::*;

verus! {

/// The start time of a frame maps back to that frame: rounding the time of
/// frame `f` to the nearest frame gives `f`.
pub proof fn law_frame_time_round_trip(frame: i64, frame_rate: Rational)
    requires
        frame >= 0,
        spec_frames(frame, frame_rate) is Ok,
    ensures
        nearest_frame(spec_frames(frame, frame_rate)->Ok_0, frame_rate) == frame,
{
    let t = spec_frames(frame, frame_rate)->Ok_0;
    let num = frame_rate.numerator as int;
    let den = frame_rate.denominator as int;
    let d = num * den;
    assert(t.value == frame * den && t.timescale == num);
    assert(d > 0) by (nonlinear_arith)
        requires
            num > 0,
            den > 0,
            d == num * den,
    ;
    assert(t.value * frame_rate.numerator == d * frame) by (nonlinear_arith)
        requires
            t.value == frame * den,
            d == num * den,
            num == frame_rate.numerator,
    ;
    assert(t.value * frame_rate.numerator >= 0) by (nonlinear_arith)
        requires
            t.value * frame_rate.numerator == d * frame,
            d > 0,
            frame >= 0,
    ;
    lemma_div_multiples_vanish_fancy(frame as int, d / 2, d);
}

/// Seeking to the playhead's own frame leaves it where it is.
pub proof fn law_seek_current_frame(clock: TimelineClock)
    requires
        clock.wf(),
    ensures
        clamp_frame(clock.frame_of(), clock.end_frame_of()) == clock.frame_of(),
{
    clock.lemma_wf_bounds();
}

/// Stepping forward and then back by the same number of frames returns to
/// the starting frame when the first step stays on the timeline.
pub proof fn law_step_back_returns(clock: TimelineClock, delta: i64)
    requires
        clock.wf(),
        0 <= clock.frame_of() + delta <= clock.end_frame_of(),
        delta != i64::MIN,
    ensures
        ({
            let forward = clamp_frame(
                saturating_sum(clock.frame_of(), delta as int),
                clock.end_frame_of(),
            );
            clamp_frame(saturating_sum(forward, -delta), clock.end_frame_of()) == clock.frame_of()
        }),
{
    clock.lemma_wf_bounds();
}

/// Every position the playhead can be moved to lies on the timeline.
pub proof fn law_clamped_on_timeline(frame: int, end: int)
    requires
        end >= 0,
    ensures
        0 <= clamp_frame(frame, end) <= end,
{
}


/// Playback moves forward with the elapsed frames and stops exactly at the
/// end: from a start frame on the timeline, after `elapsed` frames
/// (not negative) the playhead is at the start plus `elapsed`, or at the end
/// frame once that is reached, and playback goes on only before the end.
pub proof fn law_playback_stops_at_end(start: i64, elapsed: i64, end: int)
    requires
        0 <= start <= end <= i64::MAX,
        elapsed >= 0,
    ensures
        ({
            let frame = clamp_frame(saturating_sum(start as int, elapsed as int), end);
            &&& frame == (if start + elapsed < end {
                start + elapsed
            } else {
                end
            })
            &&& (frame < end) == (start + elapsed < end)
        }),
{
}

} // verus!
