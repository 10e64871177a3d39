//! Laws of placing times on the timeline.

use crate::time::{is_before, spec_checked_add, spec_checked_sub, zero_time, Time, TimeError, TimeRange};
use crate::time_laws::law_add_exact;
use crate::timeline::{
    markers_ordered, spec_clip_local_time, spec_export_range_for, spec_is_active, spec_set_in,
    spec_set_out, ExportMarkers,
};
use crate::time::{spec_frames, Rational};
use vstd::prelude::*;

verus! {

/// An item is active at its start (when it has positive length) and no
/// longer active at its end: the start is inclusive, the end exclusive.
pub proof fn law_item_end_is_exclusive(range: TimeRange)
    requires
        range.start.spec_is_valid(),
        spec_checked_add(range.start, range.duration) is Ok,
    ensures
        ({
            let end = spec_checked_add(range.start, range.duration)->Ok_0;
            &&& spec_is_active(range, end) == Ok::<bool, TimeError>(false)
            &&& spec_is_active(range, range.start) == Ok::<bool, TimeError>(
                is_before(range.start, end),
            )
        }),
{
    law_add_exact(range.start, range.duration);
}

/// The playhead's clip-local time never leaves the clip: it is neither
/// before zero nor after the clip's (non-negative) duration.
pub proof fn law_clip_local_time_within_clip(time: Time, start: Time, duration: Time)
    requires
        time.spec_is_valid(),
        start.spec_is_valid(),
        duration.spec_is_valid(),
        duration.value >= 0,
    ensures
        ({
            let local = spec_clip_local_time(time, start, duration);
            &&& local.spec_is_valid()
            &&& !is_before(local, zero_time())
            &&& !is_before(duration, local)
        }),
{
    if is_before(start, time) {
        match spec_checked_sub(time, start) {
            Ok(local) => {
                let negated = Time { value: -start.value as i64, timescale: start.timescale };
                law_add_exact(time, negated);
                let lv = local.value as int;
                let lt = local.timescale as int;
                let tt = time.timescale as int;
                let st = start.timescale as int;
                let diff = time.value * st - start.value * tt;
                assert(negated.value == -start.value);
                assert(time.value * st + negated.value * tt == diff) by (nonlinear_arith)
                    requires
                        negated.value == -start.value,
                        diff == time.value * st - start.value * tt,
                ;
                assert(lv * (tt * st) == diff * lt);
                assert(lv > 0) by (nonlinear_arith)
                    requires
                        lv * (tt * st) == diff * lt,
                        diff > 0,
                        lt > 0,
                        tt > 0,
                        st > 0,
                ;
            },
            Err(_) => {},
        }
    }
}


/// The export markers stay in order: placing the in point or the out point
/// never leaves an in point at or after the out point, whatever was set
/// before.
pub proof fn law_markers_stay_ordered(markers: ExportMarkers, playhead: i64)
    ensures
        markers_ordered(spec_set_in(markers, playhead)),
        markers_ordered(spec_set_out(markers, playhead)),
{
}

/// Marking an in point and then an out point at the same or a later
/// playhead, whatever was marked before, gives the export range from the in
/// point's frame to just after the out playhead's frame, when both are
/// representable times.
pub proof fn law_marked_range_covers_the_playheads(
    markers: ExportMarkers,
    first: i64,
    last: i64,
    frame_rate: Rational,
)
    requires
        0 <= first <= last < i64::MAX,
        spec_frames(first, frame_rate) is Ok,
        spec_frames((last + 1) as i64, frame_rate) is Ok,
    ensures
        ({
            let marked = spec_set_out(spec_set_in(markers, first), last);
            spec_export_range_for(marked.in_frame, marked.out_frame, frame_rate) == Some(
                crate::export::ExportRange {
                    start: spec_frames(first, frame_rate)->Ok_0,
                    end: Some(spec_frames((last + 1) as i64, frame_rate)->Ok_0),
                },
            )
        }),
{
}

} // verus!
