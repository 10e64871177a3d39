use celesta::time::{Rational, Time, TimeError, TimeRange};
use celesta::tracks::{
    track_state, TrackState, clip_indices, ensure_track_unlocked, clip_asset_references, remove_asset_references, place_clip, plan_clip_insertion, AssetKind, ClipInsertion, ClipPlacement, InsertClipError,
    add_track, delete_clip, delete_track, move_clip_to_track, move_track, rename_track,
    toggle_track_enabled, toggle_track_locked, toggle_track_muted, toggle_track_solo, ContentKind,
    Track, TrackError, TrackItem, TrackKind, visual_only_tracks,
};

fn item(id: &str, content: ContentKind) -> TrackItem<u32> {
    TrackItem {
        id: id.to_owned(),
        range: TimeRange { start: Time::new(0, 1), duration: Time::new(1, 1) },
        enabled: None,
        content,
        asset: None,
        speaker: None,
        payload: 7,
    }
}

fn using(id: &str, content: ContentKind, asset: &str) -> TrackItem<u32> {
    TrackItem {
        asset: Some(asset.to_owned()),
        ..item(id, content)
    }
}

fn track(id: &str, kind: TrackKind, items: Vec<TrackItem<u32>>) -> Track<u32> {
    Track {
        id: id.to_owned(),
        name: id.to_uppercase(),
        kind,
        enabled: None,
        locked: None,
        muted: None,
        solo: None,
        items,
    }
}

fn project() -> Vec<Track<u32>> {
    vec![
        track("video", TrackKind::Video, vec![item("intro", ContentKind::Video)]),
        track(
            "overlays",
            TrackKind::Overlay,
            vec![item("title", ContentKind::Text), item("logo", ContentKind::Image)],
        ),
        track("audio", TrackKind::Audio, vec![]),
    ]
}

fn ids(tracks: &[Track<u32>]) -> Vec<&str> {
    tracks.iter().map(|track| track.id.as_str()).collect()
}

fn clip_ids(track: &Track<u32>) -> Vec<&str> {
    track.items.iter().map(|item| item.id.as_str()).collect()
}

#[test]
fn track_operations_create_reorder_and_move_clips() {
    let mut tracks = project();
    let id = add_track(&mut tracks, TrackKind::Overlay);
    assert_eq!(id, "overlays-2");
    assert_eq!(tracks[3].name, "Overlays");
    assert_eq!(tracks[3].kind, TrackKind::Overlay);
    assert!(tracks[3].items.is_empty());

    assert_eq!(move_track(&mut tracks, "overlays-2", -2), Ok(true));
    assert_eq!(ids(&tracks), ["video", "overlays-2", "overlays", "audio"]);
    assert_eq!(move_track(&mut tracks, "video", -1), Ok(false));
    assert_eq!(move_track(&mut tracks, "video", 10), Ok(true));
    assert_eq!(ids(&tracks), ["overlays-2", "overlays", "audio", "video"]);

    assert_eq!(move_clip_to_track(&mut tracks, "title", "overlays-2"), Ok(true));
    assert_eq!(clip_ids(&tracks[0]), ["title"]);
    assert_eq!(clip_ids(&tracks[1]), ["logo"]);
    assert_eq!(move_clip_to_track(&mut tracks, "title", "overlays-2"), Ok(false));
    assert_eq!(
        move_clip_to_track(&mut tracks, "title", "audio"),
        Err(TrackError::IncompatibleClipTrack {
            clip: "title".to_owned(),
            track: "audio".to_owned(),
            expected: TrackKind::Overlay,
            actual: TrackKind::Audio,
        })
    );
    assert_eq!(
        move_clip_to_track(&mut tracks, "missing", "audio"),
        Err(TrackError::MissingClip("missing".to_owned()))
    );
    assert_eq!(
        move_clip_to_track(&mut tracks, "title", "nowhere"),
        Err(TrackError::MissingTrack("nowhere".to_owned()))
    );
}

#[test]
fn track_operations_rename_toggle_and_delete() {
    let mut tracks = project();
    assert_eq!(rename_track(&mut tracks, "video", "  Main  "), Ok(true));
    assert_eq!(tracks[0].name, "Main");
    assert_eq!(rename_track(&mut tracks, "video", "Main"), Ok(false));
    assert_eq!(rename_track(&mut tracks, "video", " \t "), Err(TrackError::InvalidTrackName));
    assert_eq!(
        rename_track(&mut tracks, "nope", "x"),
        Err(TrackError::MissingTrack("nope".to_owned()))
    );

    assert_eq!(toggle_track_enabled(&mut tracks, "video"), Ok(false));
    assert_eq!(tracks[0].enabled, Some(false));
    assert_eq!(toggle_track_enabled(&mut tracks, "video"), Ok(true));
    assert_eq!(tracks[0].enabled, None);

    assert_eq!(toggle_track_locked(&mut tracks, "video"), Ok(true));
    assert_eq!(tracks[0].locked, Some(true));
    assert_eq!(
        rename_track(&mut tracks, "video", "Other"),
        Err(TrackError::LockedTrack("video".to_owned()))
    );
    assert_eq!(
        toggle_track_enabled(&mut tracks, "video"),
        Err(TrackError::LockedTrack("video".to_owned()))
    );
    assert_eq!(
        delete_track(&mut tracks, "video", true),
        Err(TrackError::LockedTrack("video".to_owned()))
    );
    assert_eq!(toggle_track_locked(&mut tracks, "video"), Ok(false));
    assert_eq!(tracks[0].locked, None);

    assert_eq!(
        delete_track(&mut tracks, "overlays", false),
        Err(TrackError::NonEmptyTrack {
            track: "overlays".to_owned(),
            item_count: 2,
        })
    );
    assert_eq!(delete_track(&mut tracks, "audio", false), Ok(()));
    assert_eq!(delete_track(&mut tracks, "overlays", true), Ok(()));
    assert_eq!(ids(&tracks), ["video"]);
}

#[test]
fn track_mute_and_solo_toggle_back_and_forth() {
    let mut tracks = project();
    assert_eq!(toggle_track_muted(&mut tracks, "audio"), Ok(true));
    assert_eq!(tracks[2].muted, Some(true));
    assert_eq!(toggle_track_muted(&mut tracks, "audio"), Ok(false));
    assert_eq!(tracks[2].muted, None);
    assert_eq!(toggle_track_solo(&mut tracks, "audio"), Ok(true));
    assert_eq!(tracks[2].solo, Some(true));
    tracks[1].muted = Some(false);
    assert_eq!(toggle_track_muted(&mut tracks, "overlays"), Ok(true));
    assert_eq!(tracks[1].muted, Some(true));
    assert_eq!(
        toggle_track_solo(&mut tracks, "none"),
        Err(TrackError::MissingTrack("none".to_owned()))
    );
}

#[test]
fn deletes_clips_only_from_unlocked_tracks() {
    let mut tracks = project();
    assert_eq!(delete_clip(&mut tracks, "title"), Ok(()));
    assert_eq!(clip_ids(&tracks[1]), ["logo"]);
    assert_eq!(
        delete_clip(&mut tracks, "title"),
        Err(TrackError::MissingClip("title".to_owned()))
    );
    tracks[0].locked = Some(true);
    assert_eq!(
        delete_clip(&mut tracks, "intro"),
        Err(TrackError::LockedTrack("video".to_owned()))
    );
    assert_eq!(clip_ids(&tracks[0]), ["intro"]);
}

#[test]
fn added_tracks_get_fresh_default_ids() {
    let mut tracks: Vec<Track<u32>> = Vec::new();
    assert_eq!(add_track(&mut tracks, TrackKind::Video), "video");
    assert_eq!(add_track(&mut tracks, TrackKind::Video), "video-2");
    assert_eq!(add_track(&mut tracks, TrackKind::Dialogue), "dialogue");
    assert_eq!(add_track(&mut tracks, TrackKind::Audio), "audio");
    assert_eq!(tracks[2].name, "Dialogue");
    assert_eq!(ids(&tracks), ["video", "video-2", "dialogue", "audio"]);
}

#[test]
fn inserts_asset_clips_on_the_first_open_track_of_their_kind() {
    let mut tracks = project();
    let rate = Rational::new(30, 1);
    let plan = plan_clip_insertion(&tracks, "intro", Some(AssetKind::Video), None, 30, 60, None, rate)
        .unwrap();
    assert_eq!(
        plan,
        ClipInsertion {
            item_id: "intro-2".to_owned(),
            range: TimeRange {
                start: Time::new(30, 30),
                duration: Time::new(60, 30),
            },
            track_kind: TrackKind::Video,
            placement: ClipPlacement::OnTrack(0),
        }
    );
    let placement = plan.placement.clone();
    place_clip(&mut tracks, placement, plan.track_kind, item(&plan.item_id, ContentKind::Video));
    assert_eq!(clip_ids(&tracks[0]), ["intro", "intro-2"]);

    tracks[0].locked = Some(true);
    let plan = plan_clip_insertion(&tracks, "clip", Some(AssetKind::Video), None, 0, 1, None, rate)
        .unwrap();
    assert_eq!(plan.item_id, "clip");
    assert_eq!(
        plan.placement,
        ClipPlacement::NewTrack {
            id: "video-2".to_owned(),
            name: "Video".to_owned(),
        }
    );
    place_clip(&mut tracks, plan.placement, plan.track_kind, item("clip", ContentKind::Video));
    assert_eq!(ids(&tracks), ["video", "overlays", "audio", "video-2"]);
    assert_eq!(clip_ids(&tracks[3]), ["clip"]);
    assert_eq!(tracks[3].name, "Video");

    let image = plan_clip_insertion(&tracks, "logo", Some(AssetKind::Image), None, 0, 1, None, rate)
        .unwrap();
    assert_eq!(image.placement, ClipPlacement::OnTrack(1));
    assert_eq!(image.item_id, "logo-2");
}

#[test]
fn plans_clips_only_on_explicit_compatible_unlocked_tracks() {
    let mut tracks = project();
    let rate = Rational::new(30, 1);
    let plan =
        plan_clip_insertion(&tracks, "music", Some(AssetKind::Audio), Some("audio"), 0, 30, None, rate)
            .unwrap();
    assert_eq!(plan.placement, ClipPlacement::OnTrack(2));
    assert_eq!(
        plan_clip_insertion(&tracks, "music", Some(AssetKind::Audio), Some("video"), 0, 30, None, rate),
        Err(InsertClipError::IncompatibleTrack {
            asset: "music".to_owned(),
            track: "video".to_owned(),
            expected: TrackKind::Audio,
            actual: TrackKind::Video,
        })
    );
    assert_eq!(
        plan_clip_insertion(&tracks, "music", Some(AssetKind::Audio), Some("nope"), 0, 30, None, rate),
        Err(InsertClipError::MissingTrack("nope".to_owned()))
    );
    tracks[2].locked = Some(true);
    assert_eq!(
        plan_clip_insertion(&tracks, "music", Some(AssetKind::Audio), Some("audio"), 0, 30, None, rate),
        Err(InsertClipError::LockedTrack("audio".to_owned()))
    );
}

#[test]
fn refuses_clips_of_missing_or_font_assets_and_bad_frames() {
    let tracks = project();
    let rate = Rational::new(30, 1);
    assert_eq!(
        plan_clip_insertion(&tracks, "x", None, None, 0, 1, None, rate),
        Err(InsertClipError::MissingAsset("x".to_owned()))
    );
    assert_eq!(
        plan_clip_insertion(&tracks, "x", Some(AssetKind::Font), None, 0, 1, None, rate),
        Err(InsertClipError::UnsupportedTimelineAsset(AssetKind::Font))
    );
    let bad = |start_frame, duration_frames| {
        Err(InsertClipError::InvalidNewClipFrameRange {
            start_frame,
            duration_frames,
        })
    };
    assert_eq!(
        plan_clip_insertion(&tracks, "x", Some(AssetKind::Image), None, -1, 1, None, rate),
        bad(-1, 1)
    );
    assert_eq!(
        plan_clip_insertion(&tracks, "x", Some(AssetKind::Image), None, 0, 0, None, rate),
        bad(0, 0)
    );
    assert_eq!(
        plan_clip_insertion(&tracks, "x", Some(AssetKind::Image), None, i64::MAX, 1, None, rate),
        bad(i64::MAX, 1)
    );
    let fixed = Some(Time::new(2, 1));
    assert!(plan_clip_insertion(&tracks, "x", Some(AssetKind::Image), None, 0, 60, fixed, rate).is_ok());
    assert_eq!(
        plan_clip_insertion(&tracks, "x", Some(AssetKind::Image), None, 1, 60, fixed, rate),
        bad(1, 60)
    );
    assert_eq!(
        plan_clip_insertion(&tracks, "x", Some(AssetKind::Image), None, 0, 1, Some(Time::new(1, 0)), rate),
        Err(InsertClipError::Duration(TimeError::ZeroTimescale))
    );
    assert_eq!(
        plan_clip_insertion(&tracks, "x", Some(AssetKind::Image), None, 0, 1, None, Rational::new(0, 1)),
        Err(InsertClipError::Duration(TimeError::InvalidFrameRate))
    );
}

fn referencing_project() -> Vec<Track<u32>> {
    vec![
        track(
            "video",
            TrackKind::Video,
            vec![using("a", ContentKind::Video, "clip"), using("b", ContentKind::Video, "other")],
        ),
        track(
            "dialogue",
            TrackKind::Dialogue,
            vec![using("line", ContentKind::Dialogue, "clip"), item("quiet", ContentKind::Dialogue)],
        ),
        track("audio", TrackKind::Audio, vec![using("c", ContentKind::Audio, "clip")]),
    ]
}

#[test]
fn lists_the_clips_that_use_an_asset() {
    let tracks = referencing_project();
    assert_eq!(
        clip_asset_references(&tracks, "clip"),
        [
            ("video".to_owned(), "a".to_owned()),
            ("dialogue".to_owned(), "line".to_owned()),
            ("audio".to_owned(), "c".to_owned()),
        ]
    );
    assert_eq!(
        clip_asset_references(&tracks, "other"),
        [("video".to_owned(), "b".to_owned())]
    );
    assert!(clip_asset_references(&tracks, "none").is_empty());
}

#[test]
fn removing_an_asset_drops_its_clips_and_silences_dialogue() {
    let mut tracks = referencing_project();
    remove_asset_references(&mut tracks, "clip");
    assert_eq!(clip_ids(&tracks[0]), ["b"]);
    assert_eq!(clip_ids(&tracks[1]), ["line", "quiet"]);
    assert_eq!(tracks[1].items[0].asset, None);
    assert!(tracks[2].items.is_empty());
    assert!(clip_asset_references(&tracks, "clip").is_empty());
    assert_eq!(tracks[0].items[0].asset.as_deref(), Some("other"));
}

#[test]
fn finds_clips_and_refuses_locked_tracks() {
    let mut tracks = project();
    assert_eq!(clip_indices(&tracks, "logo"), Ok((1, 1)));
    assert_eq!(clip_indices(&tracks, "intro"), Ok((0, 0)));
    assert_eq!(
        clip_indices(&tracks, "nothing"),
        Err(TrackError::MissingClip("nothing".to_owned()))
    );
    assert_eq!(ensure_track_unlocked(&tracks, 1), Ok(()));
    tracks[1].locked = Some(true);
    assert_eq!(
        ensure_track_unlocked(&tracks, 1),
        Err(TrackError::LockedTrack("overlays".to_owned()))
    );
    tracks[1].locked = Some(false);
    assert_eq!(ensure_track_unlocked(&tracks, 1), Ok(()));
}

#[test]
fn moving_a_track_and_back_restores_the_order() {
    let mut tracks = project();
    assert_eq!(move_track(&mut tracks, "video", 2), Ok(true));
    assert_eq!(ids(&tracks), ["overlays", "audio", "video"]);
    assert_eq!(move_track(&mut tracks, "video", -2), Ok(true));
    assert_eq!(ids(&tracks), ["video", "overlays", "audio"]);
    assert_eq!(clip_ids(&tracks[1]), ["title", "logo"]);
}

#[test]
fn track_switches_show_their_defaults() {
    let mut tracks = project();
    assert_eq!(
        track_state(&tracks[1]),
        TrackState { enabled: true, locked: false, muted: false, solo: false, item_count: 2 }
    );
    tracks[1].enabled = Some(false);
    tracks[1].locked = Some(false);
    tracks[1].muted = Some(true);
    tracks[1].solo = Some(true);
    assert_eq!(
        track_state(&tracks[1]),
        TrackState { enabled: false, locked: false, muted: true, solo: true, item_count: 2 }
    );
}

#[test]
fn visual_only_tracks_drop_audio_clips_and_keep_the_rest() {
    let mut tracks = project();
    tracks[2].items.push(item("music", ContentKind::Audio));
    tracks[0].items.push(item("voice", ContentKind::Audio));
    tracks[0].muted = Some(true);
    let visual = visual_only_tracks(tracks);
    assert_eq!(ids(&visual), vec!["video", "overlays", "audio"]);
    assert_eq!(clip_ids(&visual[0]), vec!["intro"]);
    assert_eq!(visual[0].muted, Some(true));
    assert_eq!(clip_ids(&visual[1]), vec!["title", "logo"]);
    assert!(visual[2].items.is_empty());
    assert_eq!(visual[2].name, "AUDIO");
}
