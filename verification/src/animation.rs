//! Keyframed properties and the exact lookup of the keyframe segment that a
//! time falls in.

use crate::time::{earlier, is_before, Time, TimeError};
use vstd::prelude::*;

verus! {

/// A property that is either constant or keyframed.
#[derive(Clone, Debug, PartialEq)]
pub enum Animatable<T> {
    Static(T),
    Keyframes(KeyframeAnimation<T>),
}

#[derive(Clone, Debug, PartialEq)]
pub struct KeyframeAnimation<T> {
    pub kind: KeyframeAnimationType,
    pub keyframes: Vec<Keyframe<T>>,
}

#[derive(Clone, Copy, Debug, PartialEq, Eq, Structural)]
pub enum KeyframeAnimationType {
    Keyframes,
}

/// A value at an item-local time. The easing shapes the segment that ends at
/// this keyframe.
#[derive(Clone, Debug, PartialEq)]
pub struct Keyframe<T> {
    pub time: Time,
    pub value: T,
    pub easing: Option<Easing>,
}

/// The easings.net catalogue, plus `EaseIn`/`EaseOut`/`EaseInOut`, the
/// older curves kept for project files that already use them: quadratic in
/// and out, and the smoothstep curve `3t^2 - 2t^3` in and out.
#[derive(Clone, Copy, Debug, PartialEq, Eq, Structural)]
pub enum Easing {
    Linear,
    EaseIn,
    EaseOut,
    EaseInOut,
    EaseInSine,
    EaseOutSine,
    EaseInOutSine,
    EaseInQuad,
    EaseOutQuad,
    EaseInOutQuad,
    EaseInCubic,
    EaseOutCubic,
    EaseInOutCubic,
    EaseInQuart,
    EaseOutQuart,
    EaseInOutQuart,
    EaseInQuint,
    EaseOutQuint,
    EaseInOutQuint,
    EaseInExpo,
    EaseOutExpo,
    EaseInOutExpo,
    EaseInCirc,
    EaseOutCirc,
    EaseInOutCirc,
    EaseInBack,
    EaseOutBack,
    EaseInOutBack,
    EaseInElastic,
    EaseOutElastic,
    EaseInOutElastic,
    EaseInBounce,
    EaseOutBounce,
    EaseInOutBounce,
}

/// Why an animated value could not be evaluated.
#[derive(Clone, Copy, Debug, PartialEq, Eq, Structural)]
pub enum AnimationError {
    EmptyKeyframes,
    Time(TimeError),
}

impl From<TimeError> for AnimationError {
    fn from(error: TimeError) -> (r: Self)
        ensures
            r == AnimationError::Time(error),
    {
        AnimationError::Time(error)
    }
}

impl vstd::std_specs::convert::FromSpecImpl<TimeError> for AnimationError {
    open spec fn obeys_from_spec() -> bool {
        true
    }

    open spec fn from_spec(v: TimeError) -> AnimationError {
        AnimationError::Time(v)
    }
}

/// Where a time falls among a list of keyframes.
#[derive(Clone, Copy, Debug, PartialEq, Eq, Structural)]
pub enum KeyframeSegment {
    /// At or before the first keyframe: the first value holds.
    BeforeFirst,
    /// Within the segment from keyframe `i - 1` to keyframe `i` (after the
    /// former, at or before the latter).
    Between(usize),
    /// After the last keyframe: the last value holds.
    AfterLast,
}

/// The times of the keyframes, in order.
pub open spec fn keyframe_times<T>(keyframes: Seq<Keyframe<T>>) -> Seq<Time> {
    keyframes.map_values(|k: Keyframe<T>| k.time)
}

/// The first segment, from keyframe `i` on, whose end is not before `time`;
/// keyframes are compared in order, and an invalid time stops the search.
pub open spec fn segment_from(times: Seq<Time>, time: Time, i: int) -> Result<
    KeyframeSegment,
    AnimationError,
>
    decreases times.len() - i,
{
    if i < 1 || i >= times.len() {
        Ok(KeyframeSegment::AfterLast)
    } else if !time.spec_is_valid() || !times[i].spec_is_valid() {
        Err(AnimationError::Time(TimeError::ZeroTimescale))
    } else if is_before(times[i], time) {
        segment_from(times, time, i + 1)
    } else {
        Ok(KeyframeSegment::Between(i as usize))
    }
}

/// The segment of the keyframe list that `time` falls in: before (or at)
/// the first keyframe, within the first segment whose end it does not pass,
/// or after the last keyframe.
pub open spec fn keyframe_segment(times: Seq<Time>, time: Time) -> Result<
    KeyframeSegment,
    AnimationError,
> {
    if times.len() == 0 {
        Err(AnimationError::EmptyKeyframes)
    } else if !time.spec_is_valid() || !times[0].spec_is_valid() {
        Err(AnimationError::Time(TimeError::ZeroTimescale))
    } else if !is_before(times[0], time) {
        Ok(KeyframeSegment::BeforeFirst)
    } else {
        segment_from(times, time, 1)
    }
}

/// What [`keyframe_segment`] says of the keyframes themselves (see
/// `law_segment_contains_the_time`).
proof fn lemma_segment_facts<T>(keyframes: Seq<Keyframe<T>>, time: Time)
    requires
        keyframes.len() <= usize::MAX,
    ensures
        ({
            let r = keyframe_segment(keyframe_times(keyframes), time);
            &&& r matches Ok(KeyframeSegment::Between(i)) ==> 1 <= i < keyframes.len()
                && is_before(keyframes[i - 1].time, time) && !is_before(keyframes[i as int].time, time)
            &&& r matches Ok(KeyframeSegment::BeforeFirst) ==> !is_before(keyframes[0].time, time)
            &&& r matches Ok(KeyframeSegment::AfterLast) ==> forall|j: int|
                0 <= j < keyframes.len() ==> is_before(#[trigger] keyframes[j].time, time)
        }),
{
    let times = keyframe_times(keyframes);
    assert(times.len() == keyframes.len());
    crate::animation_laws::law_segment_contains_the_time(times, time);
    assert forall|j: int| 0 <= j < keyframes.len() implies times[j] == (#[trigger] keyframes[j]).time by {}
    if let Ok(KeyframeSegment::AfterLast) = keyframe_segment(times, time) {
        assert forall|j: int| 0 <= j < keyframes.len() implies is_before(#[trigger] keyframes[j].time, time) by {
            assert(times[j] == keyframes[j].time);
        }
    }
}

/// Finds the keyframe segment that `time` falls in (see
/// [`keyframe_segment`]); evaluation interpolates within it.
pub fn locate_keyframe<T>(keyframes: &Vec<Keyframe<T>>, time: Time) -> (r: Result<
    KeyframeSegment,
    AnimationError,
>)
    ensures
        r == keyframe_segment(keyframe_times(keyframes@), time),
        r matches Ok(KeyframeSegment::Between(i)) ==> 1 <= i < keyframes@.len()
            && is_before(keyframes@[i - 1].time, time) && !is_before(keyframes@[i as int].time, time),
        r matches Ok(KeyframeSegment::BeforeFirst) ==> !is_before(keyframes@[0].time, time),
        r matches Ok(KeyframeSegment::AfterLast) ==> forall|j: int|
            0 <= j < keyframes@.len() ==> is_before(#[trigger] keyframes@[j].time, time),
{
    let ghost times = keyframe_times(keyframes@);
    let n = keyframes.len();
    proof {
        lemma_segment_facts(keyframes@, time);
    }
    if n == 0 {
        return Err(AnimationError::EmptyKeyframes);
    }
    assert(times[0] == keyframes@[0].time);
    if !time.is_valid() || !keyframes[0].time.is_valid() {
        return Err(AnimationError::Time(TimeError::ZeroTimescale));
    }
    if !earlier(keyframes[0].time, time) {
        return Ok(KeyframeSegment::BeforeFirst);
    }
    assert(keyframe_segment(times, time) == segment_from(times, time, 1));
    let mut i: usize = 1;
    while i < n
        invariant
            1 <= i <= n == keyframes@.len(),
            times == keyframe_times(keyframes@),
            segment_from(times, time, i as int) == keyframe_segment(times, time),
        decreases n - i,
    {
        assert(times[i as int] == keyframes@[i as int].time);
        proof {
            lemma_segment_facts(keyframes@, time);
        }
        if !time.is_valid() || !keyframes[i].time.is_valid() {
            return Err(AnimationError::Time(TimeError::ZeroTimescale));
        }
        if !earlier(keyframes[i].time, time) {
            return Ok(KeyframeSegment::Between(i));
        }
        i = i + 1;
    }
    Ok(KeyframeSegment::AfterLast)
}

} // verus!
