//! Laws of export planning.

use crate::clock::frames_covering;
use crate::export::{
    as_signed, as_unsigned, clamp_into, floor_frames, min_int, spec_frame_count, spec_frame_floor,
    spec_resolve_window, ExportRange,
};
use crate::time::{spec_frames, Rational, Time};
use crate::encoding::{ColorConversion, EncoderPreset};
use vstd::prelude::*;

verus! {

/// A resolved export window lies inside the composition: it starts on a
/// frame boundary at or after frame 0, covers at least one frame, ends no
/// later than the composition's last frame, and its duration is its frame
/// count at the frame rate.
pub proof fn law_window_inside_composition(
    range: ExportRange,
    duration: Time,
    frame_rate: Rational,
)
    requires
        spec_resolve_window(range, duration, frame_rate) is Ok,
    ensures
        ({
            let w = spec_resolve_window(range, duration, frame_rate)->Ok_0;
            &&& 0 <= w.start_frame
            &&& 1 <= w.frames
            &&& w.start_frame + w.frames <= frames_covering(duration, frame_rate)
            &&& spec_frames(w.start_frame, frame_rate) == Ok::<
                Time,
                crate::time::TimeError,
            >(w.start)
            &&& spec_frames(w.frames as i64, frame_rate) == Ok::<
                Time,
                crate::time::TimeError,
            >(w.duration)
        }),
{
    let total = spec_frame_count(duration, frame_rate)->Ok_0;
    assert(spec_frame_count(duration, frame_rate) is Ok);
    law_floor_non_negative(duration, frame_rate);
    assert(total as int == frames_covering(duration, frame_rate));
    let start = clamp_into(range.start, duration)->Ok_0;
    assert(clamp_into(range.start, duration) is Ok);
    assert(start.spec_is_valid());
    let floor = spec_frame_floor(start, frame_rate)->Ok_0;
    assert(spec_frame_floor(start, frame_rate) is Ok);
    law_floor_non_negative(start, frame_rate);
    assert(floor >= 0);
    let start_frame = min_int(floor as int, as_signed(total));
    let remaining = total - as_unsigned(start_frame);
    if total > i64::MAX {
        assert(start_frame == as_signed(total));
        assert(remaining == 0);
    } else {
        assert(0 <= start_frame <= total);
        assert(remaining == total - start_frame);
    }
}

/// Snapping a time down to a frame never yields a negative frame.
pub proof fn law_floor_non_negative(time: Time, frame_rate: Rational)
    requires
        time.spec_is_valid(),
        frame_rate.spec_is_valid(),
    ensures
        floor_frames(time, frame_rate) >= 0,
        floor_frames(time, frame_rate) <= frames_covering(time, frame_rate),
{
    let n = crate::clock::non_negative(time.value as int) * frame_rate.numerator;
    let d = time.timescale * frame_rate.denominator;
    assert(d > 0) by (nonlinear_arith)
        requires
            time.timescale > 0,
            frame_rate.denominator > 0,
            d == time.timescale * frame_rate.denominator,
    ;
    assert(n >= 0) by (nonlinear_arith)
        requires
            n == crate::clock::non_negative(time.value as int) * frame_rate.numerator,
    ;
    assert(n / d >= 0 && n / d <= (n + d - 1) / d) by (nonlinear_arith)
        requires
            n >= 0,
            d > 0,
    ;
}


/// Each encoder preset goes by the name of the libx264 preset it selects
/// (`ultrafast` to `veryslow`), and each colour conversion by its option
/// name; `as_str` gives these names and `from_name` reads them back.
pub proof fn law_encoder_names()
    ensures
        EncoderPreset::Ultrafast.name() == "ultrafast"@,
        EncoderPreset::Superfast.name() == "superfast"@,
        EncoderPreset::Veryfast.name() == "veryfast"@,
        EncoderPreset::Faster.name() == "faster"@,
        EncoderPreset::Fast.name() == "fast"@,
        EncoderPreset::Medium.name() == "medium"@,
        EncoderPreset::Slow.name() == "slow"@,
        EncoderPreset::Slower.name() == "slower"@,
        EncoderPreset::Veryslow.name() == "veryslow"@,
        ColorConversion::Auto.name() == "auto"@,
        ColorConversion::Gpu.name() == "gpu"@,
        ColorConversion::Encoder.name() == "encoder"@,
{
}

} // verus!
