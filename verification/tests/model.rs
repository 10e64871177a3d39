use celesta::animation::{
    locate_keyframe, AnimationError, Easing, Keyframe, KeyframeSegment,
};
use celesta::model::{psd_key, AssetLocation, ResolvedAsset};
use celesta::time::{Time, TimeError};

fn keyframe(time: Time, value: f64) -> Keyframe<f64> {
    Keyframe { time, value, easing: Some(Easing::Linear) }
}

#[test]
fn builds_psd_texture_keys_from_layer_selections() {
    let asset = ResolvedAsset {
        id: "character".to_owned(),
        location: AssetLocation::File { path: "./c.psd".to_owned() },
    };
    let key = psd_key(
        &asset,
        &["eyes".to_owned(), "mouth".to_owned()],
        &[],
        &["hat".to_owned()],
    );
    assert_eq!(key, "psd\0character\0eyes\0mouth\0\0hat");
}

#[test]
fn locates_the_keyframe_segment_of_a_time() {
    let keyframes = vec![
        keyframe(Time::new(0, 1), 0.0),
        keyframe(Time::new(1, 1), 100.0),
        keyframe(Time::new(3, 1), 50.0),
    ];
    assert_eq!(locate_keyframe(&keyframes, Time::new(-1, 1)), Ok(KeyframeSegment::BeforeFirst));
    assert_eq!(locate_keyframe(&keyframes, Time::new(0, 1)), Ok(KeyframeSegment::BeforeFirst));
    assert_eq!(locate_keyframe(&keyframes, Time::new(1, 2)), Ok(KeyframeSegment::Between(1)));
    assert_eq!(locate_keyframe(&keyframes, Time::new(1, 1)), Ok(KeyframeSegment::Between(1)));
    assert_eq!(locate_keyframe(&keyframes, Time::new(2, 1)), Ok(KeyframeSegment::Between(2)));
    assert_eq!(locate_keyframe(&keyframes, Time::new(4, 1)), Ok(KeyframeSegment::AfterLast));
    assert_eq!(
        locate_keyframe(&Vec::<Keyframe<f64>>::new(), Time::new(0, 1)),
        Err(AnimationError::EmptyKeyframes)
    );
    assert_eq!(
        locate_keyframe(&keyframes, Time::new(1, 0)),
        Err(AnimationError::Time(TimeError::ZeroTimescale))
    );
    assert_eq!(AnimationError::from(TimeError::Overflow), AnimationError::Time(TimeError::Overflow));
}
