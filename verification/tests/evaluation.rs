use celesta::characters::{Character, Portrait};
use celesta::evaluation::{
    has_solo, heard_clip_positions, is_evaluation_time, item_has_audio, item_is_shown,
    portrait_asset, track_for_layers, DialogueError,
};
use celesta::time::{Time, TimeError, TimeRange};
use celesta::tracks::{ContentKind, Track, TrackItem, TrackKind};

fn clip(id: &str, content: ContentKind, start: i64, duration: i64) -> TrackItem<()> {
    TrackItem {
        id: id.to_owned(),
        range: TimeRange { start: Time::new(start, 1), duration: Time::new(duration, 1) },
        enabled: None,
        content,
        asset: None,
        speaker: None,
        payload: (),
    }
}

fn track(id: &str, kind: TrackKind, items: Vec<TrackItem<()>>) -> Track<()> {
    Track {
        id: id.to_owned(),
        name: id.to_owned(),
        kind,
        enabled: None,
        locked: None,
        muted: None,
        solo: None,
        items,
    }
}

fn voiced(id: &str) -> TrackItem<()> {
    TrackItem { asset: Some("voice".to_owned()), ..clip(id, ContentKind::Dialogue, 0, 4) }
}

fn project() -> Vec<Track<()>> {
    vec![
        track("video", TrackKind::Video, vec![clip("intro", ContentKind::Video, 0, 4)]),
        track(
            "overlays",
            TrackKind::Overlay,
            vec![clip("title", ContentKind::Text, 0, 2), clip("logo", ContentKind::Image, 2, 2)],
        ),
        track(
            "dialogue",
            TrackKind::Dialogue,
            vec![voiced("line-1"), clip("line-2", ContentKind::Dialogue, 4, 2)],
        ),
        track("audio", TrackKind::Audio, vec![clip("music", ContentKind::Audio, 0, 8)]),
    ]
}

#[test]
fn clips_with_sound_are_video_audio_and_voiced_dialogue() {
    assert!(item_has_audio(&clip("v", ContentKind::Video, 0, 1)));
    assert!(item_has_audio(&clip("a", ContentKind::Audio, 0, 1)));
    assert!(item_has_audio(&voiced("d")));
    assert!(!item_has_audio(&clip("d", ContentKind::Dialogue, 0, 1)));
    assert!(!item_has_audio(&clip("t", ContentKind::Text, 0, 1)));
    assert!(!item_has_audio(&clip("c", ContentKind::Component, 0, 1)));
}

#[test]
fn mix_takes_every_enabled_clip_with_sound_of_unmuted_tracks() {
    let tracks = project();
    assert!(!has_solo(&tracks));
    assert_eq!(heard_clip_positions(&tracks), vec![(0, 0), (2, 0), (3, 0)]);

    let mut tracks = project();
    tracks[3].muted = Some(true);
    tracks[0].enabled = Some(false);
    tracks[2].items[0].enabled = Some(false);
    assert!(heard_clip_positions(&tracks).is_empty());
}

#[test]
fn an_audible_solo_track_silences_the_others() {
    let mut tracks = project();
    tracks[2].solo = Some(true);
    assert!(has_solo(&tracks));
    assert_eq!(heard_clip_positions(&tracks), vec![(2, 0)]);

    // A soloed track without sound, or a disabled one, silences nothing.
    let mut tracks = project();
    tracks[1].solo = Some(true);
    assert!(!has_solo(&tracks));
    assert_eq!(heard_clip_positions(&tracks).len(), 3);
    tracks[3].solo = Some(true);
    tracks[3].enabled = Some(false);
    assert!(!has_solo(&tracks));
}

#[test]
fn single_track_evaluation_skips_unknown_and_disabled_tracks() {
    let mut tracks = project();
    assert_eq!(track_for_layers(&tracks, "overlays"), Some(1));
    assert_eq!(track_for_layers(&tracks, "does-not-exist"), None);
    tracks[1].enabled = Some(false);
    assert_eq!(track_for_layers(&tracks, "overlays"), None);
}

#[test]
fn clips_show_from_their_start_until_before_their_end() {
    let logo = clip("logo", ContentKind::Image, 2, 2);
    assert_eq!(item_is_shown(&logo, Time::new(1, 1)), Ok(false));
    assert_eq!(item_is_shown(&logo, Time::new(2, 1)), Ok(true));
    assert_eq!(item_is_shown(&logo, Time::new(7, 2)), Ok(true));
    assert_eq!(item_is_shown(&logo, Time::new(4, 1)), Ok(false));
    let hidden = TrackItem { enabled: Some(false), ..logo.clone() };
    assert_eq!(item_is_shown(&hidden, Time::new(3, 1)), Ok(false));
    assert_eq!(item_is_shown(&logo, Time::new(3, 0)), Err(TimeError::ZeroTimescale));
}

#[test]
fn evaluation_times_are_valid_and_not_negative() {
    assert!(is_evaluation_time(Time::new(0, 1)));
    assert!(is_evaluation_time(Time::new(21, 4)));
    assert!(!is_evaluation_time(Time::new(-1, 30)));
    assert!(!is_evaluation_time(Time::new(1, 0)));
}

#[test]
fn dialogue_portraits_follow_the_expression_or_its_default() {
    let characters = vec![
        Character {
            id: "hero".to_owned(),
            portrait: Some(Portrait {
                default_expression: "neutral".to_owned(),
                expressions: vec![
                    ("angry".to_owned(), "hero-angry".to_owned()),
                    ("neutral".to_owned(), "hero-neutral".to_owned()),
                ],
            }),
        },
        Character { id: "narrator".to_owned(), portrait: None },
    ];
    assert_eq!(portrait_asset(&characters, "hero", None), Ok(Some(&"hero-neutral".to_owned())));
    assert_eq!(
        portrait_asset(&characters, "hero", Some("angry")),
        Ok(Some(&"hero-angry".to_owned()))
    );
    assert_eq!(portrait_asset(&characters, "narrator", Some("angry")), Ok(None));
    assert_eq!(
        portrait_asset(&characters, "hero", Some("sad")),
        Err(DialogueError::MissingExpression {
            character: "hero".to_owned(),
            expression: "sad".to_owned(),
        })
    );
    assert_eq!(
        portrait_asset(&characters, "villain", None),
        Err(DialogueError::MissingCharacter("villain".to_owned()))
    );
}

#[test]
fn visual_only_project_keeps_dialogue_and_component_but_drops_audio() {
    let line = TrackItem {
        id: "line-1".to_owned(),
        range: TimeRange { start: Time::new(0, 1), duration: Time::new(1, 1) },
        enabled: None,
        content: ContentKind::Dialogue,
        asset: Some("voice-001".to_owned()),
        speaker: Some(celesta::tracks::Speaker { character: "akane".to_owned(), expression: None }),
        payload: (),
    };
    let voice = TrackItem {
        id: "voice-only".to_owned(),
        content: ContentKind::Audio,
        speaker: None,
        ..line.clone()
    };
    let tracks = vec![track("dialogue", TrackKind::Dialogue, vec![line, voice])];
    let characters = vec![Character {
        id: "akane".to_owned(),
        portrait: Some(Portrait {
            default_expression: "default".to_owned(),
            expressions: vec![("default".to_owned(), "akane-default".to_owned())],
        }),
    }];

    let filtered = celesta::tracks::visual_only_tracks(tracks);
    let item_ids: Vec<&str> = filtered[0].items.iter().map(|item| item.id.as_str()).collect();
    assert_eq!(item_ids, vec!["line-1"]);

    let time = Time::new(0, 1);
    assert!(is_evaluation_time(time));
    let shown: Vec<&str> = filtered[0]
        .items
        .iter()
        .filter(|item| item_is_shown(item, time) == Ok(true))
        .map(|item| item.id.as_str())
        .collect();
    assert_eq!(shown, vec!["line-1"]);
    assert_eq!(
        portrait_asset(&characters, "akane", None),
        Ok(Some(&"akane-default".to_owned()))
    );
}
