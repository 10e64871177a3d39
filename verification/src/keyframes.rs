//! Authoring keyframes: setting a value at a time, keeping the keyframes in
//! time order, and removing the keyframe at a time.

use crate::animation::{Animatable, Keyframe, KeyframeAnimation, KeyframeAnimationType};
use crate::time::{earlier, is_before, same_instant, zero_time, Time};
use vstd::prelude::*;

verus! {

/// Whether `a` comes strictly before `b`; times that cannot be compared
/// (a zero timescale) are not ordered either way.
pub open spec fn strictly_before(a: Time, b: Time) -> bool {
    a.spec_is_valid() && b.spec_is_valid() && is_before(a, b)
}

/// Whether `a` and `b` are valid and the same instant.
pub open spec fn at_same_instant(a: Time, b: Time) -> bool {
    a.spec_is_valid() && b.spec_is_valid() && same_instant(a, b)
}

/// `sorted` with `k` inserted after every keyframe that it does not come
/// strictly before, scanning from the end: the stable insertion step.
pub open spec fn insert_by_time<T>(sorted: Seq<Keyframe<T>>, k: Keyframe<T>) -> Seq<Keyframe<T>>
    decreases sorted.len(),
{
    if sorted.len() == 0 {
        seq![k]
    } else if strictly_before(k.time, sorted.last().time) {
        insert_by_time(sorted.drop_last(), k).push(sorted.last())
    } else {
        sorted.push(k)
    }
}

/// The keyframes stably sorted by time: keyframes at the same instant (or
/// not comparable) keep their order.
pub open spec fn sort_by_time<T>(keyframes: Seq<Keyframe<T>>) -> Seq<Keyframe<T>>
    decreases keyframes.len(),
{
    if keyframes.len() == 0 {
        Seq::empty()
    } else {
        insert_by_time(sort_by_time(keyframes.drop_last()), keyframes.last())
    }
}

/// Whether `a` is strictly before `b`, computed.
fn time_before(a: Time, b: Time) -> (r: bool)
    ensures
        r == strictly_before(a, b),
{
    a.is_valid() && b.is_valid() && earlier(a, b)
}

/// Inserts `k` into `sorted` (see [`insert_by_time`]).
fn insert_sorted<T>(sorted: &mut Vec<Keyframe<T>>, k: Keyframe<T>)
    ensures
        final(sorted)@ == insert_by_time(old(sorted)@, k),
{
    let ghost s = sorted@;
    let mut j: usize = sorted.len();
    assert(s.take(j as int) =~= s);
    assert(s.skip(j as int) =~= Seq::<Keyframe<T>>::empty());
    while j > 0 && time_before(k.time, sorted[j - 1].time)
        invariant
            j <= s.len(),
            sorted@ == s,
            insert_by_time(s, k) == insert_by_time(s.take(j as int), k) + s.skip(j as int),
        decreases j,
    {
        assert(s.take(j as int).drop_last() =~= s.take(j - 1));
        assert(s.take(j as int).last() == s[j - 1]);
        assert(s.skip(j - 1) =~= seq![s[j - 1]] + s.skip(j as int));
        assert(insert_by_time(s.take(j - 1), k).push(s[j - 1]) + s.skip(j as int)
            =~= insert_by_time(s.take(j - 1), k) + s.skip(j - 1));
        j = j - 1;
    }
    if j == 0 {
        assert(s.take(0) =~= Seq::<Keyframe<T>>::empty());
    } else {
        assert(!strictly_before(k.time, s.take(j as int).last().time));
    }
    sorted.insert(j, k);
    assert(sorted@ =~= s.take(j as int).push(k) + s.skip(j as int));
}

/// Stably sorts keyframes by time (see [`sort_by_time`]).
pub fn sorted_by_time<T>(keyframes: Vec<Keyframe<T>>) -> (r: Vec<Keyframe<T>>)
    ensures
        r@ == sort_by_time(keyframes@),
{
    let ghost initial = keyframes@;
    let mut rest = keyframes;
    let count = rest.len();
    let mut sorted: Vec<Keyframe<T>> = Vec::new();
    let mut taken: usize = 0;
    assert(initial.take(0) =~= Seq::<Keyframe<T>>::empty());
    while rest.len() > 0
        invariant
            taken <= initial.len() == count,
            rest@ == initial.skip(taken as int),
            sorted@ == sort_by_time(initial.take(taken as int)),
        decreases rest@.len(),
    {
        let k = rest.remove(0);
        assert(initial.take(taken + 1).drop_last() =~= initial.take(taken as int));
        assert(initial.take(taken + 1).last() == k);
        assert(rest@ =~= initial.skip(taken + 1));
        insert_sorted(&mut sorted, k);
        taken = taken + 1;
    }
    assert(taken == initial.len());
    assert(initial.take(taken as int) =~= initial);
    sorted
}

/// The first index at or after `i` of a keyframe at the instant `time`, or
/// the number of keyframes.
pub open spec fn instant_index_from<T>(keyframes: Seq<Keyframe<T>>, time: Time, i: int) -> int
    decreases keyframes.len() - i,
{
    if i < 0 || i >= keyframes.len() {
        keyframes.len() as int
    } else if at_same_instant(keyframes[i].time, time) {
        i
    } else {
        instant_index_from(keyframes, time, i + 1)
    }
}

pub proof fn lemma_instant_index_bounds<T>(keyframes: Seq<Keyframe<T>>, time: Time, i: int)
    requires
        0 <= i <= keyframes.len(),
    ensures
        i <= instant_index_from(keyframes, time, i) <= keyframes.len(),
        instant_index_from(keyframes, time, i) < keyframes.len() ==> at_same_instant(
            keyframes[instant_index_from(keyframes, time, i)].time,
            time,
        ),
    decreases keyframes.len() - i,
{
    if i < keyframes.len() && !at_same_instant(keyframes[i].time, time) {
        lemma_instant_index_bounds(keyframes, time, i + 1);
    }
}

/// The position of the first keyframe at the instant `time`.
fn find_instant<T>(keyframes: &Vec<Keyframe<T>>, time: Time) -> (r: usize)
    ensures
        r == instant_index_from(keyframes@, time, 0),
        r <= keyframes@.len(),
{
    proof {
        lemma_instant_index_bounds(keyframes@, time, 0);
    }
    let mut i: usize = 0;
    while i < keyframes.len()
        invariant
            i <= keyframes@.len(),
            instant_index_from(keyframes@, time, i as int) == instant_index_from(
                keyframes@,
                time,
                0,
            ),
        decreases keyframes.len() - i,
    {
        let k = keyframes[i].time;
        if k.is_valid() && time.is_valid() && !earlier(k, time) && !earlier(time, k) {
            return i;
        }
        i = i + 1;
    }
    i
}

/// The keyframes with `value` at `time`: the first keyframe at that instant
/// takes the value; without one, a keyframe is added and the keyframes are
/// sorted by time again.
pub open spec fn spec_with_keyframe<T>(keyframes: Seq<Keyframe<T>>, time: Time, value: T) -> Seq<
    Keyframe<T>,
> {
    let i = instant_index_from(keyframes, time, 0);
    if i < keyframes.len() {
        keyframes.update(i, Keyframe { value, ..keyframes[i] })
    } else {
        sort_by_time(keyframes.push(Keyframe { time, value, easing: None }))
    }
}

/// Sets the value at `time` (see [`spec_with_keyframe`]).
pub fn with_keyframe<T>(keyframes: Vec<Keyframe<T>>, time: Time, value: T) -> (r: Vec<Keyframe<T>>)
    ensures
        r@ == spec_with_keyframe(keyframes@, time, value),
{
    let mut keyframes = keyframes;
    let i = find_instant(&keyframes, time);
    if i < keyframes.len() {
        let ghost before = keyframes@;
        let mut k = keyframes.remove(i);
        k.value = value;
        keyframes.insert(i, k);
        assert(keyframes@ =~= before.update(i as int, k));
        keyframes
    } else {
        keyframes.push(Keyframe { time, value, easing: None });
        sorted_by_time(keyframes)
    }
}

/// The keyframes a property gets when `value` is set at `time`: a constant
/// `v` first becomes a keyframe `v` at zero (taking `value` when `time` is
/// written as zero), followed by `value` at `time`; then the value is set
/// as [`spec_with_keyframe`] says.
pub open spec fn spec_set_keyframe<T>(existing: Animatable<T>, time: Time, value: T) -> Seq<
    Keyframe<T>,
> {
    let start = match existing {
        Animatable::Static(v) => if time == zero_time() {
            seq![Keyframe { time: zero_time(), value, easing: None }]
        } else {
            seq![
                Keyframe { time: zero_time(), value: v, easing: None },
                Keyframe { time, value, easing: None },
            ]
        },
        Animatable::Keyframes(animation) => animation.keyframes@,
    };
    spec_with_keyframe(start, time, value)
}

/// Sets an animated property's value at `time` (see [`spec_set_keyframe`]).
pub fn set_keyframe<T: Copy>(existing: Animatable<T>, time: Time, value: T) -> (r: KeyframeAnimation<
    T,
>)
    ensures
        r.kind == KeyframeAnimationType::Keyframes,
        r.keyframes@ == spec_set_keyframe(existing, time, value),
{
    let start = match existing {
        Animatable::Static(v) => {
            let mut keyframes: Vec<Keyframe<T>> = Vec::new();
            if time == Time::zero() {
                keyframes.push(Keyframe { time: Time::zero(), value, easing: None });
            } else {
                keyframes.push(Keyframe { time: Time::zero(), value: v, easing: None });
                keyframes.push(Keyframe { time, value, easing: None });
            }
            assert(keyframes@ =~= match existing {
                Animatable::Static(v) => if time == zero_time() {
                    seq![Keyframe { time: zero_time(), value, easing: None }]
                } else {
                    seq![
                        Keyframe { time: zero_time(), value: v, easing: None },
                        Keyframe { time, value, easing: None },
                    ]
                },
                Animatable::Keyframes(animation) => animation.keyframes@,
            });
            keyframes
        },
        Animatable::Keyframes(animation) => animation.keyframes,
    };
    KeyframeAnimation { kind: KeyframeAnimationType::Keyframes, keyframes: with_keyframe(start, time, value) }
}

/// Removes the first keyframe at the instant `time` from an animated
/// property. `None` when there is none (and the property stays as it is);
/// otherwise the property that is left: absent with no keyframes, constant
/// with one, animated with more.
pub fn remove_keyframe<T: Copy>(existing: Option<Animatable<T>>, time: Time) -> (r: Option<
    Option<Animatable<T>>,
>)
    ensures
        match existing {
            Some(Animatable::Keyframes(animation)) => {
                let i = instant_index_from(animation.keyframes@, time, 0);
                if i < animation.keyframes@.len() {
                    let rest = animation.keyframes@.remove(i);
                    match r {
                        None => false,
                        Some(None) => rest.len() == 0,
                        Some(Some(Animatable::Static(v))) => rest.len() == 1 && v == rest[0].value,
                        Some(Some(Animatable::Keyframes(left))) => rest.len() >= 2 && left.kind
                            == animation.kind && left.keyframes@ == rest,
                    }
                } else {
                    r is None
                }
            },
            _ => r is None,
        },
{
    let animation = match existing {
        Some(Animatable::Keyframes(animation)) => animation,
        _ => return None,
    };
    let mut keyframes = animation.keyframes;
    let i = find_instant(&keyframes, time);
    if i == keyframes.len() {
        return None;
    }
    keyframes.remove(i);
    if keyframes.len() == 1 {
        Some(Some(Animatable::Static(keyframes[0].value)))
    } else if keyframes.len() == 0 {
        Some(None)
    } else {
        Some(Some(Animatable::Keyframes(KeyframeAnimation { kind: animation.kind, keyframes })))
    }
}

} // verus!
