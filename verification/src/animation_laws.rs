//! Laws of locating a time among keyframes.

use crate::animation::{keyframe_segment, segment_from, AnimationError, KeyframeSegment};
use crate::time::{is_before, Time};
use vstd::prelude::*;

verus! {

/// Whether every time is valid.
pub open spec fn all_valid(times: Seq<Time>) -> bool {
    forall|j: int| 0 <= j < times.len() ==> (#[trigger] times[j]).spec_is_valid()
}

proof fn lemma_segment_from(times: Seq<Time>, time: Time, i: int)
    requires
        1 <= i,
        times.len() <= usize::MAX,
        forall|j: int| 0 <= j < i && j < times.len() ==> is_before(#[trigger] times[j], time),
    ensures
        segment_from(times, time, i) matches Ok(KeyframeSegment::Between(k)) ==> {
            &&& i <= k < times.len()
            &&& forall|j: int| 0 <= j < k ==> is_before(#[trigger] times[j], time)
            &&& !is_before(times[k as int], time)
        },
        segment_from(times, time, i) matches Ok(KeyframeSegment::AfterLast) ==> forall|j: int|
            0 <= j < times.len() ==> is_before(#[trigger] times[j], time),
        !(segment_from(times, time, i) matches Ok(KeyframeSegment::BeforeFirst)),
        segment_from(times, time, i) is Err ==> (!time.spec_is_valid() || !all_valid(times))
            && segment_from(times, time, i) == Err::<KeyframeSegment, AnimationError>(
            AnimationError::Time(crate::time::TimeError::ZeroTimescale),
        ),
    decreases times.len() - i,
{
    if i < times.len() && time.spec_is_valid() && times[i].spec_is_valid() && is_before(
        times[i],
        time,
    ) {
        lemma_segment_from(times, time, i + 1);
    }
}

/// A time falls in the segment it is located in: at or before the first
/// keyframe for `BeforeFirst`; strictly after keyframe `i - 1` and at or
/// before keyframe `i` for `Between(i)`, with every earlier keyframe before
/// it; after every keyframe for `AfterLast`. The search fails only on no
/// keyframes or an invalid time.
pub proof fn law_segment_contains_the_time(times: Seq<Time>, time: Time)
    requires
        times.len() <= usize::MAX,
    ensures
        keyframe_segment(times, time) matches Ok(KeyframeSegment::BeforeFirst) ==> times.len() > 0
            && !is_before(times[0], time),
        keyframe_segment(times, time) matches Ok(KeyframeSegment::Between(i)) ==> {
            &&& 1 <= i < times.len()
            &&& is_before(times[i - 1], time)
            &&& !is_before(times[i as int], time)
            &&& forall|j: int| 0 <= j < i ==> is_before(#[trigger] times[j], time)
        },
        keyframe_segment(times, time) matches Ok(KeyframeSegment::AfterLast) ==> times.len() > 0
            && forall|j: int| 0 <= j < times.len() ==> is_before(#[trigger] times[j], time),
        keyframe_segment(times, time) == Err::<KeyframeSegment, AnimationError>(
            AnimationError::EmptyKeyframes,
        ) <==> times.len() == 0,
        times.len() > 0 && time.spec_is_valid() && all_valid(times) ==> keyframe_segment(
            times,
            time,
        ) is Ok,
{
    if times.len() > 0 && time.spec_is_valid() && times[0].spec_is_valid() && is_before(
        times[0],
        time,
    ) {
        lemma_segment_from(times, time, 1);
        if let Ok(KeyframeSegment::Between(i)) = keyframe_segment(times, time) {
            assert(is_before(times[i - 1], time));
        }
    }
}

/// For keyframes in time order, the located segment is the one whose ends
/// bracket the time: `Between(i)` exactly when keyframe `i - 1` is before
/// the time and keyframe `i` is not, `BeforeFirst` exactly when the first
/// keyframe is not before it, and `AfterLast` exactly when the last one is.
pub proof fn law_sorted_segment_brackets_the_time(times: Seq<Time>, time: Time, i: int)
    requires
        0 < times.len() <= usize::MAX,
        time.spec_is_valid(),
        all_valid(times),
        forall|a: int, b: int|
            0 <= a < b < times.len() ==> !is_before(#[trigger] times[b], #[trigger] times[a]),
    ensures
        keyframe_segment(times, time) == Ok::<KeyframeSegment, AnimationError>(
            KeyframeSegment::BeforeFirst,
        ) <==> !is_before(times[0], time),
        keyframe_segment(times, time) == Ok::<KeyframeSegment, AnimationError>(
            KeyframeSegment::AfterLast,
        ) <==> is_before(times[times.len() - 1], time),
        1 <= i < times.len() ==> (keyframe_segment(times, time) == Ok::<
            KeyframeSegment,
            AnimationError,
        >(KeyframeSegment::Between(i as usize)) <==> is_before(times[i - 1], time) && !is_before(
            times[i],
            time,
        )),
{
    law_segment_contains_the_time(times, time);
    let r = keyframe_segment(times, time);
    let last = times.len() - 1;
    if let Ok(KeyframeSegment::Between(k)) = r {
        // Later keyframes are not before the time either.
        assert forall|j: int| k <= j < times.len() implies !is_before(#[trigger] times[j], time) by {
            if j > k {
                assert(!is_before(times[j], times[k as int]));
                lemma_not_before_trans(times[k as int], times[j], time);
            }
        }
        if 1 <= i < times.len() && is_before(times[i - 1], time) && !is_before(times[i], time) {
            if i < k {
                assert(is_before(times[i], time));
            } else if i > k {
                assert(!is_before(times[i - 1], time));
            }
        }
    }
    if r == Ok::<KeyframeSegment, AnimationError>(KeyframeSegment::BeforeFirst) {
        assert forall|j: int| 0 <= j < times.len() implies !is_before(#[trigger] times[j], time) by {
            if j > 0 {
                assert(!is_before(times[j], times[0]));
                lemma_not_before_trans(times[0], times[j], time);
            }
        }
    }
}

/// If `a` is not before `t` and `b` is not before `a`, then `b` is not
/// before `t` (for valid times).
proof fn lemma_not_before_trans(a: Time, b: Time, t: Time)
    requires
        a.spec_is_valid(),
        b.spec_is_valid(),
        t.spec_is_valid(),
        !is_before(a, t),
        !is_before(b, a),
    ensures
        !is_before(b, t),
{
    let (av, at) = (a.value as int, a.timescale as int);
    let (bv, bt) = (b.value as int, b.timescale as int);
    let (tv, tt) = (t.value as int, t.timescale as int);
    assert(tv * at <= av * tt);
    assert(av * bt <= bv * at);
    assert(tv * bt <= bv * tt) by (nonlinear_arith)
        requires
            at > 0,
            bt > 0,
            tt > 0,
            tv * at <= av * tt,
            av * bt <= bv * at,
    ;
}

} // verus!
