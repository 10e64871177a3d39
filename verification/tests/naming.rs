use std::path::{Path, PathBuf};

use celesta::export::{export_progress_label, ExportProgress};
use celesta::naming::{
    decimal_chars, export_suggested_name, import_ids, is_ignored_source_dir, is_react_entry,
    is_watched_source, slugify, unique_id,
};
use celesta::tracks::{asset_kind_for_extension, AssetKind};
use celesta::summary::{clip_kind_label, mouth_asset, ClipKind, LipSyncSummary, MouthShape};

fn react_entry(path: &Path) -> bool {
    is_react_entry(
        path.file_name().and_then(|name| name.to_str()),
        path.extension().and_then(|extension| extension.to_str()),
    )
}

fn suggested_name(path: Option<&Path>, project_name: &str) -> String {
    export_suggested_name(
        path.and_then(|path| path.file_name()).and_then(|name| name.to_str()),
        project_name,
    )
}

#[test]
fn open_recognizes_react_entries_but_not_projects() {
    assert!(react_entry(PathBuf::from("title.tsx").as_path()));
    assert!(react_entry(PathBuf::from("scene.mjs").as_path()));
    assert!(!react_entry(PathBuf::from("demo.celesta.json").as_path()));
    assert!(!react_entry(PathBuf::from("notes.txt").as_path()));
}

#[test]
fn react_entry_extensions_are_the_script_ones() {
    for name in ["a.ts", "a.jsx", "a.js", "a.cjs", "dir/b.tsx"] {
        assert!(react_entry(Path::new(name)), "{name}");
    }
    for name in ["a.json", "a", "a.TSX", ".ts", "a.ts.txt"] {
        assert!(!react_entry(Path::new(name)), "{name}");
    }
    assert!(!is_react_entry(None, None));
    assert!(is_react_entry(None, Some("ts")));
}

#[test]
fn export_name_replaces_project_extensions() {
    assert_eq!(
        suggested_name(Some(PathBuf::from("demo.celesta.json").as_path()), "ignored"),
        "demo.mp4"
    );
    assert_eq!(suggested_name(None, "Untitled"), "Untitled.mp4");
}

#[test]
fn export_name_strips_only_one_known_extension() {
    assert_eq!(export_suggested_name(Some("talk.json"), "x"), "talk.mp4");
    assert_eq!(export_suggested_name(Some("talk.txt"), "x"), "talk.txt.mp4");
    assert_eq!(export_suggested_name(Some(".json"), "x"), ".mp4");
    assert_eq!(export_suggested_name(None, "a.celesta.json"), "a.mp4");
}

#[test]
fn slugs_keep_lowercase_ascii_runs_joined_by_dashes() {
    assert_eq!(slugify("My Voice Clip.WAV"), "my-voice-clip-wav");
    assert_eq!(slugify("  --Hello__World--  "), "hello-world");
    assert_eq!(slugify("intro"), "intro");
    assert_eq!(slugify("über café 2"), "ber-caf-2");
    assert_eq!(slugify("日本語"), "asset");
    assert_eq!(slugify(""), "asset");
}

#[test]
fn unique_ids_take_the_first_free_suffix() {
    assert_eq!(unique_id("clip", &[]), "clip");
    assert_eq!(unique_id("clip", &["other"]), "clip");
    assert_eq!(unique_id("clip", &["clip"]), "clip-2");
    assert_eq!(unique_id("clip", &["clip-2", "clip", "clip-3"]), "clip-4");
    assert_eq!(unique_id("clip", &["clip", "clip-3"]), "clip-2");
    let mut taken = vec!["clip".to_owned()];
    for suffix in 2..=11 {
        taken.push(format!("clip-{suffix}"));
    }
    let names: Vec<&str> = taken.iter().map(String::as_str).collect();
    assert_eq!(unique_id("clip", &names), "clip-12");
}

#[test]
fn decimal_digits_have_no_leading_zeros() {
    let text = |n: u64| decimal_chars(n).into_iter().collect::<String>();
    assert_eq!(text(0), "0");
    assert_eq!(text(7), "7");
    assert_eq!(text(10), "10");
    assert_eq!(text(1200), "1200");
    assert_eq!(text(u64::MAX), u64::MAX.to_string());
}

#[test]
fn export_progress_labels_name_the_stage() {
    assert_eq!(
        export_progress_label(ExportProgress::Rendering { frame: 0, total: 0 }),
        "Starting export\u{2026}"
    );
    assert_eq!(
        export_progress_label(ExportProgress::Rendering { frame: 12, total: 300 }),
        "Exporting frame 12/300"
    );
    assert_eq!(
        export_progress_label(ExportProgress::Rendering { frame: 0, total: 5 }),
        "Exporting frame 0/5"
    );
    assert_eq!(
        export_progress_label(ExportProgress::MixingAudio),
        "Mixing export audio\u{2026}"
    );
    assert_eq!(export_progress_label(ExportProgress::Muxing), "Muxing MP4\u{2026}");
}

#[test]
fn clip_kinds_have_inspector_labels() {
    assert_eq!(clip_kind_label(ClipKind::Video), "Video");
    assert_eq!(clip_kind_label(ClipKind::Audio), "Audio");
    assert_eq!(clip_kind_label(ClipKind::Image), "Image");
    assert_eq!(clip_kind_label(ClipKind::Text), "Text");
    assert_eq!(clip_kind_label(ClipKind::Dialogue), "Dialogue");
    assert_eq!(clip_kind_label(ClipKind::Component), "Component");
}

#[test]
fn mouth_shapes_pick_their_portrait_assets() {
    let open_only = LipSyncSummary {
        a: "a.png".to_owned(),
        i: "i.png".to_owned(),
        u: "u.png".to_owned(),
        e: "e.png".to_owned(),
        o: "o.png".to_owned(),
        closed: None,
    };
    assert_eq!(mouth_asset(MouthShape::A, &open_only).map(String::as_str), Some("a.png"));
    assert_eq!(mouth_asset(MouthShape::I, &open_only).map(String::as_str), Some("i.png"));
    assert_eq!(mouth_asset(MouthShape::U, &open_only).map(String::as_str), Some("u.png"));
    assert_eq!(mouth_asset(MouthShape::E, &open_only).map(String::as_str), Some("e.png"));
    assert_eq!(mouth_asset(MouthShape::O, &open_only).map(String::as_str), Some("o.png"));
    assert_eq!(mouth_asset(MouthShape::Closed, &open_only), None);
    let with_closed = LipSyncSummary {
        closed: Some("closed.png".to_owned()),
        ..open_only
    };
    assert_eq!(
        mouth_asset(MouthShape::Closed, &with_closed).map(String::as_str),
        Some("closed.png")
    );
}

#[test]
fn imported_assets_get_unique_slug_ids_in_order() {
    assert_eq!(
        import_ids(&["My Clip", "my-clip", "Intro", "日本"], &["intro", "asset"]),
        ["my-clip", "my-clip-2", "intro-2", "asset-2"]
    );
    assert!(import_ids(&[], &["a"]).is_empty());
}

#[test]
fn asset_kinds_follow_extensions_in_any_case() {
    assert_eq!(asset_kind_for_extension(Some("MP4")), Some(AssetKind::Video));
    assert_eq!(asset_kind_for_extension(Some("webm")), Some(AssetKind::Video));
    assert_eq!(asset_kind_for_extension(Some("Opus")), Some(AssetKind::Audio));
    assert_eq!(asset_kind_for_extension(Some("jpeg")), Some(AssetKind::Image));
    assert_eq!(asset_kind_for_extension(Some("PBM")), Some(AssetKind::Image));
    assert_eq!(asset_kind_for_extension(Some("ttc")), Some(AssetKind::Font));
    assert_eq!(asset_kind_for_extension(Some("txt")), None);
    assert_eq!(asset_kind_for_extension(Some("")), None);
    assert_eq!(asset_kind_for_extension(None), None);
}

#[test]
fn react_source_watching_skips_dependencies_and_builds() {
    for name in ["node_modules", "dist", ".tmp", ".git"] {
        assert!(is_ignored_source_dir(Some(name)));
    }
    assert!(!is_ignored_source_dir(Some("src")));
    assert!(!is_ignored_source_dir(None));
    for extension in ["tsx", "ts", "jsx", "js", "mjs", "cjs", "json", "css"] {
        assert!(is_watched_source(Some(extension)));
    }
    assert!(!is_watched_source(Some("png")));
    assert!(!is_watched_source(None));
}
