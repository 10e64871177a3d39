use celesta::characters::{
    check_asset_removal, AssetRemovalError, character_asset_references, clear_missing_expressions, portrait_without_asset,
    remove_portrait_asset, Character, Portrait,
};
use celesta::tracks::{ContentKind, Speaker, Track, TrackItem, TrackKind};
use celesta::time::{Time, TimeRange};

fn portrait(default: &str, expressions: &[(&str, &str)]) -> Portrait {
    Portrait {
        default_expression: default.to_owned(),
        expressions: expressions
            .iter()
            .map(|(name, asset)| ((*name).to_owned(), (*asset).to_owned()))
            .collect(),
    }
}

fn cast() -> Vec<Character> {
    vec![
        Character {
            id: "akane".to_owned(),
            portrait: Some(portrait("default", &[("default", "akane-default")])),
        },
        Character {
            id: "aoi".to_owned(),
            portrait: Some(portrait(
                "smile",
                &[("angry", "aoi-angry"), ("smile", "aoi-smile"), ("wink", "aoi-smile")],
            )),
        },
        Character {
            id: "narrator".to_owned(),
            portrait: None,
        },
    ]
}

fn line(id: &str, character: &str, expression: Option<&str>) -> TrackItem<()> {
    TrackItem {
        id: id.to_owned(),
        range: TimeRange { start: Time::new(0, 1), duration: Time::new(1, 1) },
        enabled: None,
        content: ContentKind::Dialogue,
        asset: None,
        speaker: Some(Speaker {
            character: character.to_owned(),
            expression: expression.map(str::to_owned),
        }),
        payload: (),
    }
}

fn names(p: &Portrait) -> Vec<&str> {
    p.expressions.iter().map(|(name, _)| name.as_str()).collect()
}

#[test]
fn lists_the_expressions_that_show_an_asset() {
    let characters = cast();
    assert_eq!(
        character_asset_references(&characters, "aoi-smile"),
        [
            ("aoi".to_owned(), "smile".to_owned()),
            ("aoi".to_owned(), "wink".to_owned()),
        ]
    );
    assert_eq!(
        character_asset_references(&characters, "akane-default"),
        [("akane".to_owned(), "default".to_owned())]
    );
    assert!(character_asset_references(&characters, "none").is_empty());
}

#[test]
fn removing_a_portrait_asset_drops_expressions_and_moves_the_default() {
    let aoi = cast().remove(1).portrait.unwrap();
    let without_smile = portrait_without_asset(aoi.clone(), "aoi-smile").unwrap();
    assert_eq!(names(&without_smile), ["angry"]);
    assert_eq!(without_smile.default_expression, "angry");
    let without_angry = portrait_without_asset(aoi, "aoi-angry").unwrap();
    assert_eq!(names(&without_angry), ["smile", "wink"]);
    assert_eq!(without_angry.default_expression, "smile");

    let mut characters = cast();
    remove_portrait_asset(&mut characters, "akane-default");
    assert!(characters[0].portrait.is_none());
    assert_eq!(names(characters[1].portrait.as_ref().unwrap()).len(), 3);
    assert!(characters[2].portrait.is_none());
    assert!(character_asset_references(&characters, "akane-default").is_empty());
}

#[test]
fn cascading_portrait_removal_clears_dialogue_expressions() {
    let mut characters = cast();
    remove_portrait_asset(&mut characters, "aoi-smile");
    let mut tracks = vec![Track {
        id: "dialogue".to_owned(),
        name: "Dialogue".to_owned(),
        kind: TrackKind::Dialogue,
        enabled: None,
        locked: None,
        muted: None,
        solo: None,
        items: vec![
            line("one", "aoi", Some("smile")),
            line("two", "aoi", Some("angry")),
            line("three", "aoi", None),
            line("four", "ghost", Some("smile")),
            line("five", "narrator", Some("calm")),
        ],
    }];
    clear_missing_expressions(&mut tracks, &characters);
    let expressions: Vec<Option<&str>> = tracks[0]
        .items
        .iter()
        .map(|item| item.speaker.as_ref().unwrap().expression.as_deref())
        .collect();
    assert_eq!(expressions, [None, Some("angry"), None, None, None]);
    assert_eq!(tracks[0].items[3].speaker.as_ref().unwrap().character, "ghost");
}

#[test]
fn removing_an_asset_in_use_is_refused_unless_its_references_go_too() {
    let voice = TrackItem {
        id: "line-1".to_owned(),
        range: TimeRange { start: Time::new(0, 1), duration: Time::new(1, 1) },
        enabled: None,
        content: ContentKind::Audio,
        asset: Some("voice".to_owned()),
        speaker: None,
        payload: (),
    };
    let tracks = vec![Track {
        id: "audio".to_owned(),
        name: "Audio".to_owned(),
        kind: TrackKind::Audio,
        enabled: None,
        locked: None,
        muted: None,
        solo: None,
        items: vec![voice],
    }];
    let assets = ["voice", "aoi-smile", "unused"];
    let characters = cast();
    assert_eq!(
        check_asset_removal(&assets, &tracks, &characters, "missing", true),
        Err(AssetRemovalError::MissingAsset("missing".to_owned()))
    );
    assert_eq!(
        check_asset_removal(&assets, &tracks, &characters, "voice", false),
        Err(AssetRemovalError::AssetInUse {
            asset: "voice".to_owned(),
            clips: vec![("audio".to_owned(), "line-1".to_owned())],
            expressions: vec![],
        })
    );
    assert_eq!(
        check_asset_removal(&assets, &tracks, &characters, "aoi-smile", false),
        Err(AssetRemovalError::AssetInUse {
            asset: "aoi-smile".to_owned(),
            clips: vec![],
            expressions: vec![
                ("aoi".to_owned(), "smile".to_owned()),
                ("aoi".to_owned(), "wink".to_owned()),
            ],
        })
    );
    assert_eq!(check_asset_removal(&assets, &tracks, &characters, "voice", true), Ok(()));
    assert_eq!(check_asset_removal(&assets, &tracks, &characters, "unused", false), Ok(()));
}
