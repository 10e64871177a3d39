//! Laws of keyframe authoring.

use crate::animation::Keyframe;
use crate::keyframes::{
    at_same_instant, insert_by_time, instant_index_from, lemma_instant_index_bounds, sort_by_time,
    spec_with_keyframe, strictly_before,
};
use crate::time::{is_before, Time};
use vstd::prelude::*;

verus! {

/// Every keyframe time is valid.
pub open spec fn all_valid<T>(keyframes: Seq<Keyframe<T>>) -> bool {
    forall|i: int| 0 <= i < keyframes.len() ==> (#[trigger] keyframes[i]).time.spec_is_valid()
}

/// No keyframe comes strictly before one ahead of it.
pub open spec fn time_sorted<T>(keyframes: Seq<Keyframe<T>>) -> bool {
    forall|i: int, j: int|
        0 <= i < j < keyframes.len() ==> !strictly_before(
            (#[trigger] keyframes[j]).time,
            (#[trigger] keyframes[i]).time,
        )
}

/// For valid times, "not after" is transitive.
proof fn lemma_not_after_transitive(a: Time, b: Time, c: Time)
    requires
        a.spec_is_valid(),
        b.spec_is_valid(),
        c.spec_is_valid(),
        !is_before(b, a),
        !is_before(c, b),
    ensures
        !is_before(c, a),
{
    let (av, bv, cv) = (a.value as int, b.value as int, c.value as int);
    let (at, bt, ct) = (a.timescale as int, b.timescale as int, c.timescale as int);
    assert(av * ct <= cv * at) by (nonlinear_arith)
        requires
            at > 0,
            bt > 0,
            ct > 0,
            av * bt <= bv * at,
            bv * ct <= cv * bt,
    ;
}

/// Inserting a keyframe keeps every keyframe and adds it once.
pub proof fn lemma_insert_keeps<T>(sorted: Seq<Keyframe<T>>, k: Keyframe<T>)
    ensures
        insert_by_time(sorted, k).len() == sorted.len() + 1,
        insert_by_time(sorted, k).to_multiset() == sorted.to_multiset().insert(k),
    decreases sorted.len(),
{
    broadcast use vstd::seq_lib::group_to_multiset_ensures;

    if sorted.len() > 0 {
        let last = sorted.last();
        assert(sorted =~= sorted.drop_last().push(last));
        if strictly_before(k.time, last.time) {
            lemma_insert_keeps(sorted.drop_last(), k);
            assert(insert_by_time(sorted, k).to_multiset() =~= sorted.to_multiset().insert(k));
        }
    } else {
        assert(insert_by_time(sorted, k) =~= seq![k]);
        assert(seq![k] =~= Seq::<Keyframe<T>>::empty().push(k));
    }
}

/// Sorting keeps every keyframe, each as often.
pub proof fn law_sort_keeps_keyframes<T>(keyframes: Seq<Keyframe<T>>)
    ensures
        sort_by_time(keyframes).len() == keyframes.len(),
        sort_by_time(keyframes).to_multiset() == keyframes.to_multiset(),
    decreases keyframes.len(),
{
    broadcast use vstd::seq_lib::group_to_multiset_ensures;

    if keyframes.len() > 0 {
        law_sort_keeps_keyframes(keyframes.drop_last());
        lemma_insert_keeps(sort_by_time(keyframes.drop_last()), keyframes.last());
        assert(keyframes =~= keyframes.drop_last().push(keyframes.last()));
    }
}

/// A keyframe of `insert_by_time(sorted, k)` is `k` or one of `sorted`.
proof fn lemma_inserted_member<T>(sorted: Seq<Keyframe<T>>, k: Keyframe<T>, i: int)
    requires
        0 <= i < insert_by_time(sorted, k).len(),
    ensures
        insert_by_time(sorted, k)[i] == k || sorted.contains(insert_by_time(sorted, k)[i]),
{
    broadcast use vstd::seq_lib::group_to_multiset_ensures;

    lemma_insert_keeps(sorted, k);
    let r = insert_by_time(sorted, k);
    let x = r[i];
    assert(r.contains(x));
    assert(r.to_multiset().count(x) > 0);
    assert(sorted.to_multiset().insert(k).count(x) > 0);
    if x != k {
        assert(sorted.to_multiset().count(x) > 0);
        assert(sorted.contains(x));
    }
}

/// Inserting into time-sorted valid keyframes keeps them sorted.
proof fn lemma_insert_sorted<T>(sorted: Seq<Keyframe<T>>, k: Keyframe<T>)
    requires
        time_sorted(sorted),
        all_valid(sorted),
        k.time.spec_is_valid(),
    ensures
        time_sorted(insert_by_time(sorted, k)),
        all_valid(insert_by_time(sorted, k)),
    decreases sorted.len(),
{
    let r = insert_by_time(sorted, k);
    lemma_insert_keeps(sorted, k);
    if sorted.len() == 0 {
        assert(r =~= seq![k]);
    } else {
        let last = sorted.last();
        let front = sorted.drop_last();
        assert forall|i: int, j: int| 0 <= i < j < front.len() implies !strictly_before(
            (#[trigger] front[j]).time,
            (#[trigger] front[i]).time,
        ) by {
            assert(front[i] == sorted[i] && front[j] == sorted[j]);
        }
        assert forall|i: int| 0 <= i < front.len() implies (#[trigger] front[i]).time.spec_is_valid() by {
            assert(front[i] == sorted[i]);
        }
        if strictly_before(k.time, last.time) {
            lemma_insert_sorted(front, k);
            let head = insert_by_time(front, k);
            assert(r == head.push(last));
            assert forall|i: int| 0 <= i < head.len() implies !strictly_before(
                last.time,
                (#[trigger] head[i]).time,
            ) by {
                lemma_inserted_member(front, k, i);
                if head[i] != k {
                    let m = choose|m: int| 0 <= m < front.len() && front[m] == head[i];
                    assert(sorted[m] == head[i]);
                    assert(!strictly_before(sorted[sorted.len() - 1].time, sorted[m].time));
                }
            }
            assert forall|i: int, j: int| 0 <= i < j < r.len() implies !strictly_before(
                (#[trigger] r[j]).time,
                (#[trigger] r[i]).time,
            ) by {
                if j < head.len() {
                    assert(r[i] == head[i] && r[j] == head[j]);
                } else {
                    assert(r[i] == head[i] && r[j] == last);
                }
            }
            assert forall|i: int| 0 <= i < r.len() implies (#[trigger] r[i]).time.spec_is_valid() by {
                if i < head.len() {
                    assert(r[i] == head[i]);
                }
            }
        } else {
            assert(r == sorted.push(k));
            assert forall|i: int, j: int| 0 <= i < j < r.len() implies !strictly_before(
                (#[trigger] r[j]).time,
                (#[trigger] r[i]).time,
            ) by {
                if j < sorted.len() {
                    assert(r[i] == sorted[i] && r[j] == sorted[j]);
                } else {
                    assert(r[i] == sorted[i] && r[j] == k);
                    if i < sorted.len() - 1 {
                        assert(!strictly_before(last.time, sorted[i].time));
                        lemma_not_after_transitive(sorted[i].time, last.time, k.time);
                    }
                }
            }
            assert forall|i: int| 0 <= i < r.len() implies (#[trigger] r[i]).time.spec_is_valid() by {
                if i < sorted.len() {
                    assert(r[i] == sorted[i]);
                }
            }
        }
    }
}

/// Keyframes with valid times come out of the sort in time order.
pub proof fn law_sort_orders_valid_keyframes<T>(keyframes: Seq<Keyframe<T>>)
    requires
        all_valid(keyframes),
    ensures
        time_sorted(sort_by_time(keyframes)),
        all_valid(sort_by_time(keyframes)),
    decreases keyframes.len(),
{
    if keyframes.len() > 0 {
        let front = keyframes.drop_last();
        assert forall|i: int| 0 <= i < front.len() implies (#[trigger] front[i]).time.spec_is_valid() by {
            assert(front[i] == keyframes[i]);
        }
        law_sort_orders_valid_keyframes(front);
        lemma_insert_sorted(sort_by_time(front), keyframes.last());
    }
}

/// Setting a value at a valid time leaves a keyframe at that instant with
/// that value, keeps sorted valid keyframes sorted, and adds a keyframe
/// only when none was at that instant.
pub proof fn law_set_keyframe_lands<T>(keyframes: Seq<Keyframe<T>>, time: Time, value: T)
    requires
        all_valid(keyframes),
        time.spec_is_valid(),
    ensures
        ({
            let r = spec_with_keyframe(keyframes, time, value);
            let i = instant_index_from(keyframes, time, 0);
            &&& exists|j: int|
                0 <= j < r.len() && at_same_instant((#[trigger] r[j]).time, time) && r[j].value
                    == value
            &&& r.len() == (if i < keyframes.len() {
                keyframes.len()
            } else {
                keyframes.len() + 1
            })
            &&& all_valid(r)
            &&& time_sorted(keyframes) ==> time_sorted(r)
        }),
{
    broadcast use vstd::seq_lib::group_to_multiset_ensures;

    lemma_instant_index_bounds(keyframes, time, 0);
    let i = instant_index_from(keyframes, time, 0);
    let r = spec_with_keyframe(keyframes, time, value);
    if i < keyframes.len() {
        assert(at_same_instant(r[i].time, time) && r[i].value == value);
        assert forall|a: int| 0 <= a < r.len() implies (#[trigger] r[a]).time.spec_is_valid() by {
            assert(r[a].time == keyframes[a].time);
        }
        if time_sorted(keyframes) {
            assert forall|a: int, b: int| 0 <= a < b < r.len() implies !strictly_before(
                (#[trigger] r[b]).time,
                (#[trigger] r[a]).time,
            ) by {
                assert(r[a].time == keyframes[a].time && r[b].time == keyframes[b].time);
            }
        }
    } else {
        let k = Keyframe { time, value, easing: None };
        let pushed = keyframes.push(k);
        assert forall|a: int| 0 <= a < pushed.len() implies (#[trigger] pushed[a]).time.spec_is_valid() by {
            if a < keyframes.len() {
                assert(pushed[a] == keyframes[a]);
            }
        }
        law_sort_keeps_keyframes(pushed);
        law_sort_orders_valid_keyframes(pushed);
        assert(pushed.contains(k)) by {
            assert(pushed[keyframes.len() as int] == k);
        }
        assert(pushed.to_multiset().count(k) > 0);
        assert(r.to_multiset().count(k) > 0);
        assert(r.contains(k));
        let j = choose|j: int| 0 <= j < r.len() && r[j] == k;
        assert(at_same_instant(r[j].time, time));
        if time_sorted(keyframes) {
            lemma_insert_sorted(keyframes, k);
        }
    }
}

/// Sorting keyframes that are already in time order changes nothing.
proof fn lemma_sorted_is_fixed<T>(keyframes: Seq<Keyframe<T>>)
    requires
        time_sorted(keyframes),
    ensures
        sort_by_time(keyframes) == keyframes,
    decreases keyframes.len(),
{
    if keyframes.len() > 0 {
        let front = keyframes.drop_last();
        assert forall|i: int, j: int| 0 <= i < j < front.len() implies !strictly_before(
            (#[trigger] front[j]).time,
            (#[trigger] front[i]).time,
        ) by {
            assert(front[i] == keyframes[i] && front[j] == keyframes[j]);
        }
        lemma_sorted_is_fixed(front);
        if front.len() > 0 {
            assert(!strictly_before(keyframes.last().time, front.last().time)) by {
                assert(front.last() == keyframes[keyframes.len() - 2]);
            }
        }
        assert(front.push(keyframes.last()) =~= keyframes);
    }
}

/// Inserting puts the keyframe at one position and keeps the others in
/// order around it.
proof fn lemma_insert_position<T>(sorted: Seq<Keyframe<T>>, k: Keyframe<T>) -> (p: int)
    ensures
        0 <= p <= sorted.len(),
        insert_by_time(sorted, k) == sorted.take(p) + seq![k] + sorted.skip(p),
    decreases sorted.len(),
{
    if sorted.len() == 0 {
        assert(insert_by_time(sorted, k) =~= sorted.take(0) + seq![k] + sorted.skip(0));
        0
    } else if strictly_before(k.time, sorted.last().time) {
        let front = sorted.drop_last();
        let q = lemma_insert_position(front, k);
        assert(insert_by_time(sorted, k) =~= sorted.take(q) + seq![k] + sorted.skip(q));
        q
    } else {
        assert(insert_by_time(sorted, k) =~= sorted.take(sorted.len() as int) + seq![k]
            + sorted.skip(sorted.len() as int));
        sorted.len() as int
    }
}

/// The first keyframe at an instant is found where it stands when none
/// before it is at that instant.
proof fn lemma_instant_found_at<T>(keyframes: Seq<Keyframe<T>>, time: Time, p: int, k: int)
    requires
        0 <= k <= p < keyframes.len(),
        at_same_instant(keyframes[p].time, time),
        forall|m: int| 0 <= m < p ==> !at_same_instant((#[trigger] keyframes[m]).time, time),
    ensures
        instant_index_from(keyframes, time, k) == p,
    decreases p - k,
{
    if k < p {
        lemma_instant_found_at(keyframes, time, p, k + 1);
    }
}

/// No keyframe before `i` is at the instant.
proof fn lemma_instant_absent<T>(keyframes: Seq<Keyframe<T>>, time: Time, k: int)
    requires
        0 <= k <= keyframes.len(),
        instant_index_from(keyframes, time, k) == keyframes.len(),
    ensures
        forall|m: int| k <= m < keyframes.len() ==> !at_same_instant((#[trigger] keyframes[m]).time, time),
    decreases keyframes.len() - k,
{
    if k < keyframes.len() {
        lemma_instant_absent(keyframes, time, k + 1);
    }
}

/// Setting a value at an instant no keyframe of time-sorted keyframes is at,
/// and removing the keyframe at that instant again, gives the keyframes
/// back.
pub proof fn law_set_then_remove_restores<T>(keyframes: Seq<Keyframe<T>>, time: Time, value: T)
    requires
        time_sorted(keyframes),
        time.spec_is_valid(),
        instant_index_from(keyframes, time, 0) == keyframes.len(),
    ensures
        ({
            let r = spec_with_keyframe(keyframes, time, value);
            let i = instant_index_from(r, time, 0);
            &&& i < r.len()
            &&& r.remove(i) == keyframes
        }),
{
    let k = Keyframe { time, value, easing: None };
    let pushed = keyframes.push(k);
    assert(pushed.drop_last() =~= keyframes);
    lemma_sorted_is_fixed(keyframes);
    let r = spec_with_keyframe(keyframes, time, value);
    assert(r == insert_by_time(keyframes, k));
    let p = lemma_insert_position(keyframes, k);
    lemma_instant_absent(keyframes, time, 0);
    assert(r[p] == k);
    assert(at_same_instant(r[p].time, time));
    assert forall|m: int| 0 <= m < p implies !at_same_instant((#[trigger] r[m]).time, time) by {
        assert(r[m] == keyframes[m]);
    }
    lemma_instant_found_at(r, time, p, 0);
    assert(r.remove(p) =~= keyframes);
}

} // verus!
