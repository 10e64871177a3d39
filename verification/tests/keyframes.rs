use celesta::animation::{Animatable, Easing, Keyframe, KeyframeAnimation, KeyframeAnimationType};
use celesta::keyframes::{remove_keyframe, set_keyframe, sorted_by_time, with_keyframe};
use celesta::time::Time;

fn key(value: i64, timescale: u32, level: u32) -> Keyframe<u32> {
    Keyframe {
        time: Time::new(value, timescale),
        value: level,
        easing: None,
    }
}

fn levels(keyframes: &[Keyframe<u32>]) -> Vec<u32> {
    keyframes.iter().map(|k| k.value).collect()
}

#[test]
fn authors_keyframes_from_a_constant_and_updates_them_in_place() {
    let animation = set_keyframe(Animatable::Static(50), Time::new(1, 1), 100);
    assert_eq!(animation.kind, KeyframeAnimationType::Keyframes);
    assert_eq!(animation.keyframes, vec![key(0, 1, 50), key(1, 1, 100)]);

    let animation = set_keyframe(Animatable::Keyframes(animation), Time::new(2, 2), 80);
    assert_eq!(animation.keyframes.len(), 2);
    assert_eq!(animation.keyframes[1].value, 80);
    assert_eq!(animation.keyframes[1].time, Time::new(1, 1));

    let at_zero = set_keyframe(Animatable::Static(50), Time::new(0, 1), 70);
    assert_eq!(at_zero.keyframes, vec![key(0, 1, 70)]);
    let zero_written_otherwise = set_keyframe(Animatable::Static(50), Time::new(0, 30), 70);
    assert_eq!(zero_written_otherwise.keyframes, vec![key(0, 1, 70), key(0, 30, 70)]);
}

#[test]
fn new_keyframes_are_sorted_into_place() {
    let keyframes = vec![key(0, 1, 1), key(2, 1, 3)];
    let keyframes = with_keyframe(keyframes, Time::new(1, 1), 2);
    assert_eq!(levels(&keyframes), [1, 2, 3]);
    let keyframes = with_keyframe(keyframes, Time::new(3, 1), 4);
    assert_eq!(levels(&keyframes), [1, 2, 3, 4]);
    let keyframes = with_keyframe(keyframes, Time::new(-1, 2), 0);
    assert_eq!(levels(&keyframes), [0, 1, 2, 3, 4]);
}

#[test]
fn sorting_by_time_is_stable() {
    let keyframes = vec![key(3, 1, 0), key(1, 2, 1), key(2, 4, 2), key(0, 1, 3), key(6, 2, 4)];
    assert_eq!(levels(&sorted_by_time(keyframes)), [3, 1, 2, 0, 4]);
    let with_easing = vec![
        Keyframe { time: Time::new(2, 1), value: 2_u32, easing: Some(Easing::EaseIn) },
        Keyframe { time: Time::new(1, 1), value: 1_u32, easing: None },
    ];
    let sorted = sorted_by_time(with_easing);
    assert_eq!(sorted[1].easing, Some(Easing::EaseIn));
    assert!(sorted_by_time(Vec::<Keyframe<u32>>::new()).is_empty());
}

#[test]
fn removing_keyframes_collapses_to_a_constant_or_nothing() {
    let animation = KeyframeAnimation {
        kind: KeyframeAnimationType::Keyframes,
        keyframes: vec![key(0, 1, 50), key(1, 1, 100)],
    };
    assert_eq!(
        remove_keyframe(Some(Animatable::Keyframes(animation.clone())), Time::new(1, 1)),
        Some(Some(Animatable::Static(50)))
    );
    assert_eq!(
        remove_keyframe(Some(Animatable::Keyframes(animation.clone())), Time::new(3, 1)),
        None
    );
    assert_eq!(remove_keyframe(Some(Animatable::Static(5_u32)), Time::new(0, 1)), None);
    assert_eq!(remove_keyframe(None::<Animatable<u32>>, Time::new(0, 1)), None);

    let single = KeyframeAnimation {
        kind: KeyframeAnimationType::Keyframes,
        keyframes: vec![key(2, 4, 9)],
    };
    assert_eq!(
        remove_keyframe(Some(Animatable::Keyframes(single)), Time::new(1, 2)),
        Some(None)
    );

    let three = KeyframeAnimation {
        kind: KeyframeAnimationType::Keyframes,
        keyframes: vec![key(0, 1, 1), key(1, 1, 2), key(2, 1, 3)],
    };
    assert_eq!(
        remove_keyframe(Some(Animatable::Keyframes(three)), Time::new(0, 5)),
        Some(Some(Animatable::Keyframes(KeyframeAnimation {
            kind: KeyframeAnimationType::Keyframes,
            keyframes: vec![key(1, 1, 2), key(2, 1, 3)],
        })))
    );
}

#[test]
fn setting_and_removing_a_new_keyframe_restores_the_animation() {
    let keyframes = vec![key(0, 1, 1), key(2, 1, 3)];
    let animation = KeyframeAnimation {
        kind: KeyframeAnimationType::Keyframes,
        keyframes: keyframes.clone(),
    };
    let edited = set_keyframe(Animatable::Keyframes(animation.clone()), Time::new(1, 1), 2);
    assert_eq!(levels(&edited.keyframes), [1, 2, 3]);
    assert_eq!(
        remove_keyframe(Some(Animatable::Keyframes(edited)), Time::new(2, 2)),
        Some(Some(Animatable::Keyframes(animation)))
    );
}
