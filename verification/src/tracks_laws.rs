//! Laws of the track operations.

use crate::naming::{is_unique_id, law_unique_id_is_free};
use crate::timeline::spec_move_target;
use crate::tracks::{
    default_track_id, default_track_name, ascii_lowercase, spec_asset_kind_for_extension, spec_asset_track_kind, spec_content_track_kind,
    AssetKind, ContentKind, all_item_ids, asset_references, is_locked, item_references, lemma_track_index_bounds,
    open_track_index_from, same_settings, stored_flag, track_ids, track_index, track_index_from,
    uses_asset, without_asset, without_clip, Track, TrackItem, TrackKind,
};
use vstd::prelude::*;

verus! {

/// The track a flag toggle leaves in place of `t`.
pub open spec fn muted_toggled<C>(t: Track<C>) -> Track<C> {
    Track { muted: stored_flag(t.muted != Some(true)), ..t }
}

/// Replacing a track by one with the same id leaves every track found where
/// it was found.
proof fn lemma_index_after_update<C>(tracks: Seq<Track<C>>, id: Seq<char>, i: int, t: Track<C>, k: int)
    requires
        0 <= i < tracks.len(),
        t.id@ == tracks[i].id@,
        0 <= k <= tracks.len(),
    ensures
        track_index_from(tracks.update(i, t), id, k) == track_index_from(tracks, id, k),
    decreases tracks.len() - k,
{
    if k < tracks.len() {
        lemma_index_after_update(tracks, id, i, t, k + 1);
    }
}

/// Toggling a track's mute twice restores the tracks, unless the track was
/// stored as explicitly audible (`Some(false)`), which the first toggle
/// normalises.
pub proof fn law_toggle_muted_twice_restores<C>(tracks: Seq<Track<C>>, id: Seq<char>)
    requires
        track_index(tracks, id) < tracks.len(),
        tracks[track_index(tracks, id)].muted != Some(false),
    ensures
        ({
            let i = track_index(tracks, id);
            let once = tracks.update(i, muted_toggled(tracks[i]));
            let j = track_index(once, id);
            &&& j == i
            &&& once.update(j, muted_toggled(once[j])) == tracks
        }),
{
    lemma_track_index_bounds(tracks, id, 0);
    let i = track_index(tracks, id);
    let once = tracks.update(i, muted_toggled(tracks[i]));
    lemma_index_after_update(tracks, id, i, muted_toggled(tracks[i]), 0);
    let t = tracks[i];
    assert(muted_toggled(t).muted == stored_flag(t.muted != Some(true)));
    assert(muted_toggled(muted_toggled(t)).muted == t.muted) by {
        match t.muted {
            None => {},
            Some(b) => {
                assert(b);
            },
        }
    }
    assert(muted_toggled(muted_toggled(t)) == t);
    assert(once.update(i, muted_toggled(once[i])) =~= tracks);
}

/// Moving a track reorders the tracks and nothing else: the same tracks,
/// each as often, with the moved one at its target.
pub proof fn law_move_track_permutes<C>(tracks: Seq<Track<C>>, i: int, target: int)
    requires
        0 <= i < tracks.len(),
        0 <= target < tracks.len(),
    ensures
        ({
            let moved = tracks.remove(i).insert(target, tracks[i]);
            &&& moved.len() == tracks.len()
            &&& moved[target] == tracks[i]
            &&& moved.to_multiset() == tracks.to_multiset()
        }),
{
    broadcast use vstd::seq_lib::group_to_multiset_ensures;

    let rest = tracks.remove(i);
    assert(tracks =~= rest.insert(i, tracks[i]));
    vstd::seq_lib::lemma_multiset_commutative(tracks.subrange(0, i), tracks.subrange(i, tracks.len() as int));
    assert(rest.insert(target, tracks[i]).to_multiset() == rest.to_multiset().insert(tracks[i]));
    assert(tracks.to_multiset() == rest.insert(i, tracks[i]).to_multiset());
}

/// A new track's id differs from every existing one.
pub proof fn law_added_track_id_is_fresh<C>(tracks: Seq<Track<C>>, base: Seq<char>, id: Seq<char>)
    requires
        is_unique_id(base, track_ids(tracks), id),
    ensures
        forall|j: int| 0 <= j < tracks.len() ==> (#[trigger] tracks[j]).id@ != id,
{
    law_unique_id_is_free(base, track_ids(tracks), id);
    assert forall|j: int| 0 <= j < tracks.len() implies (#[trigger] tracks[j]).id@ != id by {
        assert(track_ids(tracks)[j] == tracks[j].id@);
    }
}

/// Deleting a clip leaves no clip with its id on the track, and keeps every
/// other clip in order.
pub proof fn law_deleted_clip_is_gone<C>(items: Seq<TrackItem<C>>, id: Seq<char>)
    ensures
        forall|k: int|
            0 <= k < without_clip(items, id).len() ==> (#[trigger] without_clip(items, id)[k]).id@
                != id,
        without_clip(items, id).len() <= items.len(),
        (forall|k: int| 0 <= k < items.len() ==> (#[trigger] items[k]).id@ != id) ==> without_clip(
            items,
            id,
        ) == items,
    decreases items.len(),
{
    if items.len() > 0 {
        law_deleted_clip_is_gone(items.drop_last(), id);
        if forall|k: int| 0 <= k < items.len() ==> (#[trigger] items[k]).id@ != id {
            assert forall|k: int| 0 <= k < items.drop_last().len() implies (
            #[trigger] items.drop_last()[k]).id@ != id by {
                assert(items.drop_last()[k] == items[k]);
            }
            assert(items.drop_last().push(items.last()) =~= items);
        }
    } else {
        assert(without_clip(items, id) =~= items);
    }
}

/// A clip placed without a target track lands on an unlocked track of its
/// own kind, when there is one.
pub proof fn law_open_track_fits<C>(tracks: Seq<Track<C>>, kind: TrackKind, i: int)
    requires
        0 <= i <= tracks.len(),
    ensures
        open_track_index_from(tracks, kind, i) < tracks.len() ==> ({
            let j = open_track_index_from(tracks, kind, i);
            &&& i <= j
            &&& tracks[j].kind == kind
            &&& !is_locked(tracks[j])
        }),
        open_track_index_from(tracks, kind, i) == tracks.len() ==> forall|j: int|
            i <= j < tracks.len() ==> (#[trigger] tracks[j]).kind != kind || is_locked(tracks[j]),
    decreases tracks.len() - i,
{
    if i < tracks.len() && !(tracks[i].kind == kind && !is_locked(tracks[i])) {
        law_open_track_fits(tracks, kind, i + 1);
    }
}

/// A new clip's id differs from the id of every clip already on a track.
pub proof fn law_inserted_clip_id_is_fresh<C>(tracks: Seq<Track<C>>, asset_id: Seq<char>, id: Seq<char>)
    requires
        is_unique_id(asset_id, all_item_ids(tracks), id),
    ensures
        !all_item_ids(tracks).contains(id),
{
    law_unique_id_is_free(asset_id, all_item_ids(tracks), id);
}

proof fn lemma_no_item_references<C>(track_id: Seq<char>, items: Seq<TrackItem<C>>, asset: Seq<char>)
    ensures
        item_references(track_id, without_asset(items, asset), asset).len() == 0,
    decreases items.len(),
{
    if items.len() > 0 {
        lemma_no_item_references(track_id, items.drop_last(), asset);
        let rest = without_asset(items.drop_last(), asset);
        let kept = without_asset(items, asset);
        if kept.len() > rest.len() {
            assert(kept.drop_last() =~= rest);
            assert(!uses_asset(kept.last(), asset));
        } else {
            assert(kept =~= rest);
        }
    }
}

/// Once an asset's references are removed, no clip uses it any more.
pub proof fn law_removed_asset_is_unreferenced<C>(
    before: Seq<Track<C>>,
    after: Seq<Track<C>>,
    asset: Seq<char>,
)
    requires
        after.len() == before.len(),
        forall|j: int|
            0 <= j < before.len() ==> same_settings(#[trigger] after[j], before[j])
                && after[j].items@ == without_asset(before[j].items@, asset),
    ensures
        asset_references(after, asset).len() == 0,
    decreases after.len(),
{
    if after.len() > 0 {
        let n = after.len() - 1;
        assert forall|j: int| 0 <= j < before.drop_last().len() implies same_settings(
            #[trigger] after.drop_last()[j],
            before.drop_last()[j],
        ) && after.drop_last()[j].items@ == without_asset(before.drop_last()[j].items@, asset) by {
            assert(after.drop_last()[j] == after[j]);
            assert(before.drop_last()[j] == before[j]);
        }
        law_removed_asset_is_unreferenced(before.drop_last(), after.drop_last(), asset);
        assert(same_settings(after[n], before[n]));
        lemma_no_item_references(after.last().id@, before.last().items@, asset);
    }
}

/// No two tracks share an id.
pub open spec fn unique_track_ids<C>(tracks: Seq<Track<C>>) -> bool {
    forall|a: int, b: int|
        0 <= a < b < tracks.len() ==> (#[trigger] tracks[a]).id@ != (#[trigger] tracks[b]).id@
}

/// A track is found where it stands when no track before it has its id.
proof fn lemma_found_at<C>(tracks: Seq<Track<C>>, id: Seq<char>, t: int, k: int)
    requires
        0 <= k <= t < tracks.len(),
        tracks[t].id@ == id,
        forall|m: int| 0 <= m < t ==> (#[trigger] tracks[m]).id@ != id,
    ensures
        track_index_from(tracks, id, k) == t,
    decreases t - k,
{
    if k < t {
        lemma_found_at(tracks, id, t, k + 1);
    }
}

/// Moving a track by an offset that keeps it on the timeline and then back
/// by the opposite offset restores the tracks (ids being unique).
pub proof fn law_move_track_back<C>(tracks: Seq<Track<C>>, id: Seq<char>, offset: int)
    requires
        tracks.len() <= usize::MAX,
        unique_track_ids(tracks),
        track_index(tracks, id) < tracks.len(),
        0 <= track_index(tracks, id) + offset < tracks.len(),
    ensures
        ({
            let i = track_index(tracks, id);
            let len = tracks.len() as int;
            let target = spec_move_target(i, offset, len);
            let moved = tracks.remove(i).insert(target, tracks[i]);
            &&& target == i + offset
            &&& track_index(moved, id) == target
            &&& spec_move_target(target, -offset, len) == i
            &&& moved.remove(target).insert(i, moved[target]) == tracks
        }),
{
    lemma_track_index_bounds(tracks, id, 0);
    let i = track_index(tracks, id);
    let len = tracks.len() as int;
    let target = spec_move_target(i, offset, len);
    assert(target == i + offset);
    let rest = tracks.remove(i);
    let moved = rest.insert(target, tracks[i]);
    assert forall|m: int| 0 <= m < target implies (#[trigger] moved[m]).id@ != id by {
        assert(moved[m] == rest[m]);
        if m < i {
            assert(rest[m] == tracks[m]);
        } else {
            assert(rest[m] == tracks[m + 1]);
        }
    }
    lemma_found_at(moved, id, target, 0);
    assert(moved.remove(target) =~= rest);
    assert(rest.insert(i, tracks[i]) =~= tracks);
}


/// What an extension imports as, in any ASCII case: video for mp4, mov,
/// mkv, webm, m4v and avi; audio for wav, mp3, aac, m4a, flac, ogg and opus;
/// an image for png, jpg, jpeg, webp, pnm, ppm, pgm and pbm; a font for ttf,
/// otf and ttc; anything else is not imported.
pub proof fn law_extension_table()
    ensures
        spec_asset_kind_for_extension(ascii_lowercase("mp4"@)) == Some(AssetKind::Video),
        spec_asset_kind_for_extension(ascii_lowercase("mov"@)) == Some(AssetKind::Video),
        spec_asset_kind_for_extension(ascii_lowercase("mkv"@)) == Some(AssetKind::Video),
        spec_asset_kind_for_extension(ascii_lowercase("webm"@)) == Some(AssetKind::Video),
        spec_asset_kind_for_extension(ascii_lowercase("m4v"@)) == Some(AssetKind::Video),
        spec_asset_kind_for_extension(ascii_lowercase("avi"@)) == Some(AssetKind::Video),
        spec_asset_kind_for_extension(ascii_lowercase("wav"@)) == Some(AssetKind::Audio),
        spec_asset_kind_for_extension(ascii_lowercase("mp3"@)) == Some(AssetKind::Audio),
        spec_asset_kind_for_extension(ascii_lowercase("aac"@)) == Some(AssetKind::Audio),
        spec_asset_kind_for_extension(ascii_lowercase("m4a"@)) == Some(AssetKind::Audio),
        spec_asset_kind_for_extension(ascii_lowercase("flac"@)) == Some(AssetKind::Audio),
        spec_asset_kind_for_extension(ascii_lowercase("ogg"@)) == Some(AssetKind::Audio),
        spec_asset_kind_for_extension(ascii_lowercase("opus"@)) == Some(AssetKind::Audio),
        spec_asset_kind_for_extension(ascii_lowercase("png"@)) == Some(AssetKind::Image),
        spec_asset_kind_for_extension(ascii_lowercase("jpg"@)) == Some(AssetKind::Image),
        spec_asset_kind_for_extension(ascii_lowercase("jpeg"@)) == Some(AssetKind::Image),
        spec_asset_kind_for_extension(ascii_lowercase("webp"@)) == Some(AssetKind::Image),
        spec_asset_kind_for_extension(ascii_lowercase("pnm"@)) == Some(AssetKind::Image),
        spec_asset_kind_for_extension(ascii_lowercase("ppm"@)) == Some(AssetKind::Image),
        spec_asset_kind_for_extension(ascii_lowercase("pgm"@)) == Some(AssetKind::Image),
        spec_asset_kind_for_extension(ascii_lowercase("pbm"@)) == Some(AssetKind::Image),
        spec_asset_kind_for_extension(ascii_lowercase("ttf"@)) == Some(AssetKind::Font),
        spec_asset_kind_for_extension(ascii_lowercase("otf"@)) == Some(AssetKind::Font),
        spec_asset_kind_for_extension(ascii_lowercase("ttc"@)) == Some(AssetKind::Font),
        spec_asset_kind_for_extension(ascii_lowercase("PNG"@)) == Some(AssetKind::Image),
        spec_asset_kind_for_extension(ascii_lowercase("Mp4"@)) == Some(AssetKind::Video),
        spec_asset_kind_for_extension(ascii_lowercase("txt"@)) is None,
        spec_asset_kind_for_extension(ascii_lowercase("json"@)) is None,
        spec_asset_kind_for_extension(ascii_lowercase(Seq::empty())) is None,
{
    assert(spec_asset_kind_for_extension(ascii_lowercase("mp4"@)) == Some(AssetKind::Video)) by {
        reveal_strlit("mp4");
        assert(ascii_lowercase("mp4"@) =~= "mp4"@);
    }
    assert(spec_asset_kind_for_extension(ascii_lowercase("mov"@)) == Some(AssetKind::Video)) by {
        reveal_strlit("mov");
        assert(ascii_lowercase("mov"@) =~= "mov"@);
    }
    assert(spec_asset_kind_for_extension(ascii_lowercase("mkv"@)) == Some(AssetKind::Video)) by {
        reveal_strlit("mkv");
        assert(ascii_lowercase("mkv"@) =~= "mkv"@);
    }
    assert(spec_asset_kind_for_extension(ascii_lowercase("webm"@)) == Some(AssetKind::Video)) by {
        reveal_strlit("webm");
        assert(ascii_lowercase("webm"@) =~= "webm"@);
    }
    assert(spec_asset_kind_for_extension(ascii_lowercase("m4v"@)) == Some(AssetKind::Video)) by {
        reveal_strlit("m4v");
        assert(ascii_lowercase("m4v"@) =~= "m4v"@);
    }
    assert(spec_asset_kind_for_extension(ascii_lowercase("avi"@)) == Some(AssetKind::Video)) by {
        reveal_strlit("avi");
        assert(ascii_lowercase("avi"@) =~= "avi"@);
    }
    assert(spec_asset_kind_for_extension(ascii_lowercase("wav"@)) == Some(AssetKind::Audio)) by {
        reveal_strlit("avi");
        reveal_strlit("m4v");
        reveal_strlit("mkv");
        reveal_strlit("mov");
        reveal_strlit("mp4");
        reveal_strlit("wav");
        reveal_strlit("webm");
        assert(ascii_lowercase("wav"@) =~= "wav"@);
        assert("wav"@[0] != "mp4"@[0]);
        assert("wav"@[0] != "mov"@[0]);
        assert("wav"@[0] != "mkv"@[0]);
        assert("wav"@.len() != "webm"@.len());
        assert("wav"@[0] != "m4v"@[0]);
        assert("wav"@[0] != "avi"@[0]);
    }
    assert(spec_asset_kind_for_extension(ascii_lowercase("mp3"@)) == Some(AssetKind::Audio)) by {
        reveal_strlit("avi");
        reveal_strlit("m4v");
        reveal_strlit("mkv");
        reveal_strlit("mov");
        reveal_strlit("mp3");
        reveal_strlit("mp4");
        reveal_strlit("webm");
        assert(ascii_lowercase("mp3"@) =~= "mp3"@);
        assert("mp3"@[2] != "mp4"@[2]);
        assert("mp3"@[1] != "mov"@[1]);
        assert("mp3"@[1] != "mkv"@[1]);
        assert("mp3"@.len() != "webm"@.len());
        assert("mp3"@[1] != "m4v"@[1]);
        assert("mp3"@[0] != "avi"@[0]);
    }
    assert(spec_asset_kind_for_extension(ascii_lowercase("aac"@)) == Some(AssetKind::Audio)) by {
        reveal_strlit("aac");
        reveal_strlit("avi");
        reveal_strlit("m4v");
        reveal_strlit("mkv");
        reveal_strlit("mov");
        reveal_strlit("mp4");
        reveal_strlit("webm");
        assert(ascii_lowercase("aac"@) =~= "aac"@);
        assert("aac"@[0] != "mp4"@[0]);
        assert("aac"@[0] != "mov"@[0]);
        assert("aac"@[0] != "mkv"@[0]);
        assert("aac"@.len() != "webm"@.len());
        assert("aac"@[0] != "m4v"@[0]);
        assert("aac"@[1] != "avi"@[1]);
    }
    assert(spec_asset_kind_for_extension(ascii_lowercase("m4a"@)) == Some(AssetKind::Audio)) by {
        reveal_strlit("avi");
        reveal_strlit("m4a");
        reveal_strlit("m4v");
        reveal_strlit("mkv");
        reveal_strlit("mov");
        reveal_strlit("mp4");
        reveal_strlit("webm");
        assert(ascii_lowercase("m4a"@) =~= "m4a"@);
        assert("m4a"@[1] != "mp4"@[1]);
        assert("m4a"@[1] != "mov"@[1]);
        assert("m4a"@[1] != "mkv"@[1]);
        assert("m4a"@.len() != "webm"@.len());
        assert("m4a"@[2] != "m4v"@[2]);
        assert("m4a"@[0] != "avi"@[0]);
    }
    assert(spec_asset_kind_for_extension(ascii_lowercase("flac"@)) == Some(AssetKind::Audio)) by {
        reveal_strlit("avi");
        reveal_strlit("flac");
        reveal_strlit("m4v");
        reveal_strlit("mkv");
        reveal_strlit("mov");
        reveal_strlit("mp4");
        reveal_strlit("webm");
        assert(ascii_lowercase("flac"@) =~= "flac"@);
        assert("flac"@.len() != "mp4"@.len());
        assert("flac"@.len() != "mov"@.len());
        assert("flac"@.len() != "mkv"@.len());
        assert("flac"@[0] != "webm"@[0]);
        assert("flac"@.len() != "m4v"@.len());
        assert("flac"@.len() != "avi"@.len());
    }
    assert(spec_asset_kind_for_extension(ascii_lowercase("ogg"@)) == Some(AssetKind::Audio)) by {
        reveal_strlit("avi");
        reveal_strlit("m4v");
        reveal_strlit("mkv");
        reveal_strlit("mov");
        reveal_strlit("mp4");
        reveal_strlit("ogg");
        reveal_strlit("webm");
        assert(ascii_lowercase("ogg"@) =~= "ogg"@);
        assert("ogg"@[0] != "mp4"@[0]);
        assert("ogg"@[0] != "mov"@[0]);
        assert("ogg"@[0] != "mkv"@[0]);
        assert("ogg"@.len() != "webm"@.len());
        assert("ogg"@[0] != "m4v"@[0]);
        assert("ogg"@[0] != "avi"@[0]);
    }
    assert(spec_asset_kind_for_extension(ascii_lowercase("opus"@)) == Some(AssetKind::Audio)) by {
        reveal_strlit("avi");
        reveal_strlit("m4v");
        reveal_strlit("mkv");
        reveal_strlit("mov");
        reveal_strlit("mp4");
        reveal_strlit("opus");
        reveal_strlit("webm");
        assert(ascii_lowercase("opus"@) =~= "opus"@);
        assert("opus"@.len() != "mp4"@.len());
        assert("opus"@.len() != "mov"@.len());
        assert("opus"@.len() != "mkv"@.len());
        assert("opus"@[0] != "webm"@[0]);
        assert("opus"@.len() != "m4v"@.len());
        assert("opus"@.len() != "avi"@.len());
    }
    assert(spec_asset_kind_for_extension(ascii_lowercase("png"@)) == Some(AssetKind::Image)) by {
        reveal_strlit("aac");
        reveal_strlit("avi");
        reveal_strlit("flac");
        reveal_strlit("m4a");
        reveal_strlit("m4v");
        reveal_strlit("mkv");
        reveal_strlit("mov");
        reveal_strlit("mp3");
        reveal_strlit("mp4");
        reveal_strlit("ogg");
        reveal_strlit("opus");
        reveal_strlit("png");
        reveal_strlit("wav");
        reveal_strlit("webm");
        assert(ascii_lowercase("png"@) =~= "png"@);
        assert("png"@[0] != "mp4"@[0]);
        assert("png"@[0] != "mov"@[0]);
        assert("png"@[0] != "mkv"@[0]);
        assert("png"@.len() != "webm"@.len());
        assert("png"@[0] != "m4v"@[0]);
        assert("png"@[0] != "avi"@[0]);
        assert("png"@[0] != "wav"@[0]);
        assert("png"@[0] != "mp3"@[0]);
        assert("png"@[0] != "aac"@[0]);
        assert("png"@[0] != "m4a"@[0]);
        assert("png"@.len() != "flac"@.len());
        assert("png"@[0] != "ogg"@[0]);
        assert("png"@.len() != "opus"@.len());
    }
    assert(spec_asset_kind_for_extension(ascii_lowercase("jpg"@)) == Some(AssetKind::Image)) by {
        reveal_strlit("aac");
        reveal_strlit("avi");
        reveal_strlit("flac");
        reveal_strlit("jpg");
        reveal_strlit("m4a");
        reveal_strlit("m4v");
        reveal_strlit("mkv");
        reveal_strlit("mov");
        reveal_strlit("mp3");
        reveal_strlit("mp4");
        reveal_strlit("ogg");
        reveal_strlit("opus");
        reveal_strlit("wav");
        reveal_strlit("webm");
        assert(ascii_lowercase("jpg"@) =~= "jpg"@);
        assert("jpg"@[0] != "mp4"@[0]);
        assert("jpg"@[0] != "mov"@[0]);
        assert("jpg"@[0] != "mkv"@[0]);
        assert("jpg"@.len() != "webm"@.len());
        assert("jpg"@[0] != "m4v"@[0]);
        assert("jpg"@[0] != "avi"@[0]);
        assert("jpg"@[0] != "wav"@[0]);
        assert("jpg"@[0] != "mp3"@[0]);
        assert("jpg"@[0] != "aac"@[0]);
        assert("jpg"@[0] != "m4a"@[0]);
        assert("jpg"@.len() != "flac"@.len());
        assert("jpg"@[0] != "ogg"@[0]);
        assert("jpg"@.len() != "opus"@.len());
    }
    assert(spec_asset_kind_for_extension(ascii_lowercase("jpeg"@)) == Some(AssetKind::Image)) by {
        reveal_strlit("aac");
        reveal_strlit("avi");
        reveal_strlit("flac");
        reveal_strlit("jpeg");
        reveal_strlit("m4a");
        reveal_strlit("m4v");
        reveal_strlit("mkv");
        reveal_strlit("mov");
        reveal_strlit("mp3");
        reveal_strlit("mp4");
        reveal_strlit("ogg");
        reveal_strlit("opus");
        reveal_strlit("wav");
        reveal_strlit("webm");
        assert(ascii_lowercase("jpeg"@) =~= "jpeg"@);
        assert("jpeg"@.len() != "mp4"@.len());
        assert("jpeg"@.len() != "mov"@.len());
        assert("jpeg"@.len() != "mkv"@.len());
        assert("jpeg"@[0] != "webm"@[0]);
        assert("jpeg"@.len() != "m4v"@.len());
        assert("jpeg"@.len() != "avi"@.len());
        assert("jpeg"@.len() != "wav"@.len());
        assert("jpeg"@.len() != "mp3"@.len());
        assert("jpeg"@.len() != "aac"@.len());
        assert("jpeg"@.len() != "m4a"@.len());
        assert("jpeg"@[0] != "flac"@[0]);
        assert("jpeg"@.len() != "ogg"@.len());
        assert("jpeg"@[0] != "opus"@[0]);
    }
    assert(spec_asset_kind_for_extension(ascii_lowercase("webp"@)) == Some(AssetKind::Image)) by {
        reveal_strlit("aac");
        reveal_strlit("avi");
        reveal_strlit("flac");
        reveal_strlit("m4a");
        reveal_strlit("m4v");
        reveal_strlit("mkv");
        reveal_strlit("mov");
        reveal_strlit("mp3");
        reveal_strlit("mp4");
        reveal_strlit("ogg");
        reveal_strlit("opus");
        reveal_strlit("wav");
        reveal_strlit("webm");
        reveal_strlit("webp");
        assert(ascii_lowercase("webp"@) =~= "webp"@);
        assert("webp"@.len() != "mp4"@.len());
        assert("webp"@.len() != "mov"@.len());
        assert("webp"@.len() != "mkv"@.len());
        assert("webp"@[3] != "webm"@[3]);
        assert("webp"@.len() != "m4v"@.len());
        assert("webp"@.len() != "avi"@.len());
        assert("webp"@.len() != "wav"@.len());
        assert("webp"@.len() != "mp3"@.len());
        assert("webp"@.len() != "aac"@.len());
        assert("webp"@.len() != "m4a"@.len());
        assert("webp"@[0] != "flac"@[0]);
        assert("webp"@.len() != "ogg"@.len());
        assert("webp"@[0] != "opus"@[0]);
    }
    assert(spec_asset_kind_for_extension(ascii_lowercase("pnm"@)) == Some(AssetKind::Image)) by {
        reveal_strlit("aac");
        reveal_strlit("avi");
        reveal_strlit("flac");
        reveal_strlit("m4a");
        reveal_strlit("m4v");
        reveal_strlit("mkv");
        reveal_strlit("mov");
        reveal_strlit("mp3");
        reveal_strlit("mp4");
        reveal_strlit("ogg");
        reveal_strlit("opus");
        reveal_strlit("pnm");
        reveal_strlit("wav");
        reveal_strlit("webm");
        assert(ascii_lowercase("pnm"@) =~= "pnm"@);
        assert("pnm"@[0] != "mp4"@[0]);
        assert("pnm"@[0] != "mov"@[0]);
        assert("pnm"@[0] != "mkv"@[0]);
        assert("pnm"@.len() != "webm"@.len());
        assert("pnm"@[0] != "m4v"@[0]);
        assert("pnm"@[0] != "avi"@[0]);
        assert("pnm"@[0] != "wav"@[0]);
        assert("pnm"@[0] != "mp3"@[0]);
        assert("pnm"@[0] != "aac"@[0]);
        assert("pnm"@[0] != "m4a"@[0]);
        assert("pnm"@.len() != "flac"@.len());
        assert("pnm"@[0] != "ogg"@[0]);
        assert("pnm"@.len() != "opus"@.len());
    }
    assert(spec_asset_kind_for_extension(ascii_lowercase("ppm"@)) == Some(AssetKind::Image)) by {
        reveal_strlit("aac");
        reveal_strlit("avi");
        reveal_strlit("flac");
        reveal_strlit("m4a");
        reveal_strlit("m4v");
        reveal_strlit("mkv");
        reveal_strlit("mov");
        reveal_strlit("mp3");
        reveal_strlit("mp4");
        reveal_strlit("ogg");
        reveal_strlit("opus");
        reveal_strlit("ppm");
        reveal_strlit("wav");
        reveal_strlit("webm");
        assert(ascii_lowercase("ppm"@) =~= "ppm"@);
        assert("ppm"@[0] != "mp4"@[0]);
        assert("ppm"@[0] != "mov"@[0]);
        assert("ppm"@[0] != "mkv"@[0]);
        assert("ppm"@.len() != "webm"@.len());
        assert("ppm"@[0] != "m4v"@[0]);
        assert("ppm"@[0] != "avi"@[0]);
        assert("ppm"@[0] != "wav"@[0]);
        assert("ppm"@[0] != "mp3"@[0]);
        assert("ppm"@[0] != "aac"@[0]);
        assert("ppm"@[0] != "m4a"@[0]);
        assert("ppm"@.len() != "flac"@.len());
        assert("ppm"@[0] != "ogg"@[0]);
        assert("ppm"@.len() != "opus"@.len());
    }
    assert(spec_asset_kind_for_extension(ascii_lowercase("pgm"@)) == Some(AssetKind::Image)) by {
        reveal_strlit("aac");
        reveal_strlit("avi");
        reveal_strlit("flac");
        reveal_strlit("m4a");
        reveal_strlit("m4v");
        reveal_strlit("mkv");
        reveal_strlit("mov");
        reveal_strlit("mp3");
        reveal_strlit("mp4");
        reveal_strlit("ogg");
        reveal_strlit("opus");
        reveal_strlit("pgm");
        reveal_strlit("wav");
        reveal_strlit("webm");
        assert(ascii_lowercase("pgm"@) =~= "pgm"@);
        assert("pgm"@[0] != "mp4"@[0]);
        assert("pgm"@[0] != "mov"@[0]);
        assert("pgm"@[0] != "mkv"@[0]);
        assert("pgm"@.len() != "webm"@.len());
        assert("pgm"@[0] != "m4v"@[0]);
        assert("pgm"@[0] != "avi"@[0]);
        assert("pgm"@[0] != "wav"@[0]);
        assert("pgm"@[0] != "mp3"@[0]);
        assert("pgm"@[0] != "aac"@[0]);
        assert("pgm"@[0] != "m4a"@[0]);
        assert("pgm"@.len() != "flac"@.len());
        assert("pgm"@[0] != "ogg"@[0]);
        assert("pgm"@.len() != "opus"@.len());
    }
    assert(spec_asset_kind_for_extension(ascii_lowercase("pbm"@)) == Some(AssetKind::Image)) by {
        reveal_strlit("aac");
        reveal_strlit("avi");
        reveal_strlit("flac");
        reveal_strlit("m4a");
        reveal_strlit("m4v");
        reveal_strlit("mkv");
        reveal_strlit("mov");
        reveal_strlit("mp3");
        reveal_strlit("mp4");
        reveal_strlit("ogg");
        reveal_strlit("opus");
        reveal_strlit("pbm");
        reveal_strlit("wav");
        reveal_strlit("webm");
        assert(ascii_lowercase("pbm"@) =~= "pbm"@);
        assert("pbm"@[0] != "mp4"@[0]);
        assert("pbm"@[0] != "mov"@[0]);
        assert("pbm"@[0] != "mkv"@[0]);
        assert("pbm"@.len() != "webm"@.len());
        assert("pbm"@[0] != "m4v"@[0]);
        assert("pbm"@[0] != "avi"@[0]);
        assert("pbm"@[0] != "wav"@[0]);
        assert("pbm"@[0] != "mp3"@[0]);
        assert("pbm"@[0] != "aac"@[0]);
        assert("pbm"@[0] != "m4a"@[0]);
        assert("pbm"@.len() != "flac"@.len());
        assert("pbm"@[0] != "ogg"@[0]);
        assert("pbm"@.len() != "opus"@.len());
    }
    assert(spec_asset_kind_for_extension(ascii_lowercase("ttf"@)) == Some(AssetKind::Font)) by {
        reveal_strlit("aac");
        reveal_strlit("avi");
        reveal_strlit("flac");
        reveal_strlit("jpeg");
        reveal_strlit("jpg");
        reveal_strlit("m4a");
        reveal_strlit("m4v");
        reveal_strlit("mkv");
        reveal_strlit("mov");
        reveal_strlit("mp3");
        reveal_strlit("mp4");
        reveal_strlit("ogg");
        reveal_strlit("opus");
        reveal_strlit("pbm");
        reveal_strlit("pgm");
        reveal_strlit("png");
        reveal_strlit("pnm");
        reveal_strlit("ppm");
        reveal_strlit("ttf");
        reveal_strlit("wav");
        reveal_strlit("webm");
        reveal_strlit("webp");
        assert(ascii_lowercase("ttf"@) =~= "ttf"@);
        assert("ttf"@[0] != "mp4"@[0]);
        assert("ttf"@[0] != "mov"@[0]);
        assert("ttf"@[0] != "mkv"@[0]);
        assert("ttf"@.len() != "webm"@.len());
        assert("ttf"@[0] != "m4v"@[0]);
        assert("ttf"@[0] != "avi"@[0]);
        assert("ttf"@[0] != "wav"@[0]);
        assert("ttf"@[0] != "mp3"@[0]);
        assert("ttf"@[0] != "aac"@[0]);
        assert("ttf"@[0] != "m4a"@[0]);
        assert("ttf"@.len() != "flac"@.len());
        assert("ttf"@[0] != "ogg"@[0]);
        assert("ttf"@.len() != "opus"@.len());
        assert("ttf"@[0] != "png"@[0]);
        assert("ttf"@[0] != "jpg"@[0]);
        assert("ttf"@.len() != "jpeg"@.len());
        assert("ttf"@.len() != "webp"@.len());
        assert("ttf"@[0] != "pnm"@[0]);
        assert("ttf"@[0] != "ppm"@[0]);
        assert("ttf"@[0] != "pgm"@[0]);
        assert("ttf"@[0] != "pbm"@[0]);
    }
    assert(spec_asset_kind_for_extension(ascii_lowercase("otf"@)) == Some(AssetKind::Font)) by {
        reveal_strlit("aac");
        reveal_strlit("avi");
        reveal_strlit("flac");
        reveal_strlit("jpeg");
        reveal_strlit("jpg");
        reveal_strlit("m4a");
        reveal_strlit("m4v");
        reveal_strlit("mkv");
        reveal_strlit("mov");
        reveal_strlit("mp3");
        reveal_strlit("mp4");
        reveal_strlit("ogg");
        reveal_strlit("opus");
        reveal_strlit("otf");
        reveal_strlit("pbm");
        reveal_strlit("pgm");
        reveal_strlit("png");
        reveal_strlit("pnm");
        reveal_strlit("ppm");
        reveal_strlit("wav");
        reveal_strlit("webm");
        reveal_strlit("webp");
        assert(ascii_lowercase("otf"@) =~= "otf"@);
        assert("otf"@[0] != "mp4"@[0]);
        assert("otf"@[0] != "mov"@[0]);
        assert("otf"@[0] != "mkv"@[0]);
        assert("otf"@.len() != "webm"@.len());
        assert("otf"@[0] != "m4v"@[0]);
        assert("otf"@[0] != "avi"@[0]);
        assert("otf"@[0] != "wav"@[0]);
        assert("otf"@[0] != "mp3"@[0]);
        assert("otf"@[0] != "aac"@[0]);
        assert("otf"@[0] != "m4a"@[0]);
        assert("otf"@.len() != "flac"@.len());
        assert("otf"@[1] != "ogg"@[1]);
        assert("otf"@.len() != "opus"@.len());
        assert("otf"@[0] != "png"@[0]);
        assert("otf"@[0] != "jpg"@[0]);
        assert("otf"@.len() != "jpeg"@.len());
        assert("otf"@.len() != "webp"@.len());
        assert("otf"@[0] != "pnm"@[0]);
        assert("otf"@[0] != "ppm"@[0]);
        assert("otf"@[0] != "pgm"@[0]);
        assert("otf"@[0] != "pbm"@[0]);
    }
    assert(spec_asset_kind_for_extension(ascii_lowercase("ttc"@)) == Some(AssetKind::Font)) by {
        reveal_strlit("aac");
        reveal_strlit("avi");
        reveal_strlit("flac");
        reveal_strlit("jpeg");
        reveal_strlit("jpg");
        reveal_strlit("m4a");
        reveal_strlit("m4v");
        reveal_strlit("mkv");
        reveal_strlit("mov");
        reveal_strlit("mp3");
        reveal_strlit("mp4");
        reveal_strlit("ogg");
        reveal_strlit("opus");
        reveal_strlit("pbm");
        reveal_strlit("pgm");
        reveal_strlit("png");
        reveal_strlit("pnm");
        reveal_strlit("ppm");
        reveal_strlit("ttc");
        reveal_strlit("wav");
        reveal_strlit("webm");
        reveal_strlit("webp");
        assert(ascii_lowercase("ttc"@) =~= "ttc"@);
        assert("ttc"@[0] != "mp4"@[0]);
        assert("ttc"@[0] != "mov"@[0]);
        assert("ttc"@[0] != "mkv"@[0]);
        assert("ttc"@.len() != "webm"@.len());
        assert("ttc"@[0] != "m4v"@[0]);
        assert("ttc"@[0] != "avi"@[0]);
        assert("ttc"@[0] != "wav"@[0]);
        assert("ttc"@[0] != "mp3"@[0]);
        assert("ttc"@[0] != "aac"@[0]);
        assert("ttc"@[0] != "m4a"@[0]);
        assert("ttc"@.len() != "flac"@.len());
        assert("ttc"@[0] != "ogg"@[0]);
        assert("ttc"@.len() != "opus"@.len());
        assert("ttc"@[0] != "png"@[0]);
        assert("ttc"@[0] != "jpg"@[0]);
        assert("ttc"@.len() != "jpeg"@.len());
        assert("ttc"@.len() != "webp"@.len());
        assert("ttc"@[0] != "pnm"@[0]);
        assert("ttc"@[0] != "ppm"@[0]);
        assert("ttc"@[0] != "pgm"@[0]);
        assert("ttc"@[0] != "pbm"@[0]);
    }
    assert(spec_asset_kind_for_extension(ascii_lowercase("txt"@)) is None) by {
        reveal_strlit("aac");
        reveal_strlit("avi");
        reveal_strlit("flac");
        reveal_strlit("jpeg");
        reveal_strlit("jpg");
        reveal_strlit("m4a");
        reveal_strlit("m4v");
        reveal_strlit("mkv");
        reveal_strlit("mov");
        reveal_strlit("mp3");
        reveal_strlit("mp4");
        reveal_strlit("ogg");
        reveal_strlit("opus");
        reveal_strlit("otf");
        reveal_strlit("pbm");
        reveal_strlit("pgm");
        reveal_strlit("png");
        reveal_strlit("pnm");
        reveal_strlit("ppm");
        reveal_strlit("ttc");
        reveal_strlit("ttf");
        reveal_strlit("txt");
        reveal_strlit("wav");
        reveal_strlit("webm");
        reveal_strlit("webp");
        assert(ascii_lowercase("txt"@) =~= "txt"@);
        assert("txt"@[0] != "mp4"@[0]);
        assert("txt"@[0] != "mov"@[0]);
        assert("txt"@[0] != "mkv"@[0]);
        assert("txt"@.len() != "webm"@.len());
        assert("txt"@[0] != "m4v"@[0]);
        assert("txt"@[0] != "avi"@[0]);
        assert("txt"@[0] != "wav"@[0]);
        assert("txt"@[0] != "mp3"@[0]);
        assert("txt"@[0] != "aac"@[0]);
        assert("txt"@[0] != "m4a"@[0]);
        assert("txt"@.len() != "flac"@.len());
        assert("txt"@[0] != "ogg"@[0]);
        assert("txt"@.len() != "opus"@.len());
        assert("txt"@[0] != "png"@[0]);
        assert("txt"@[0] != "jpg"@[0]);
        assert("txt"@.len() != "jpeg"@.len());
        assert("txt"@.len() != "webp"@.len());
        assert("txt"@[0] != "pnm"@[0]);
        assert("txt"@[0] != "ppm"@[0]);
        assert("txt"@[0] != "pgm"@[0]);
        assert("txt"@[0] != "pbm"@[0]);
        assert("txt"@[1] != "ttf"@[1]);
        assert("txt"@[0] != "otf"@[0]);
        assert("txt"@[1] != "ttc"@[1]);
    }
    assert(spec_asset_kind_for_extension(ascii_lowercase("json"@)) is None) by {
        reveal_strlit("aac");
        reveal_strlit("avi");
        reveal_strlit("flac");
        reveal_strlit("jpeg");
        reveal_strlit("jpg");
        reveal_strlit("json");
        reveal_strlit("m4a");
        reveal_strlit("m4v");
        reveal_strlit("mkv");
        reveal_strlit("mov");
        reveal_strlit("mp3");
        reveal_strlit("mp4");
        reveal_strlit("ogg");
        reveal_strlit("opus");
        reveal_strlit("otf");
        reveal_strlit("pbm");
        reveal_strlit("pgm");
        reveal_strlit("png");
        reveal_strlit("pnm");
        reveal_strlit("ppm");
        reveal_strlit("ttc");
        reveal_strlit("ttf");
        reveal_strlit("wav");
        reveal_strlit("webm");
        reveal_strlit("webp");
        assert(ascii_lowercase("json"@) =~= "json"@);
        assert("json"@.len() != "mp4"@.len());
        assert("json"@.len() != "mov"@.len());
        assert("json"@.len() != "mkv"@.len());
        assert("json"@[0] != "webm"@[0]);
        assert("json"@.len() != "m4v"@.len());
        assert("json"@.len() != "avi"@.len());
        assert("json"@.len() != "wav"@.len());
        assert("json"@.len() != "mp3"@.len());
        assert("json"@.len() != "aac"@.len());
        assert("json"@.len() != "m4a"@.len());
        assert("json"@[0] != "flac"@[0]);
        assert("json"@.len() != "ogg"@.len());
        assert("json"@[0] != "opus"@[0]);
        assert("json"@.len() != "png"@.len());
        assert("json"@.len() != "jpg"@.len());
        assert("json"@[1] != "jpeg"@[1]);
        assert("json"@[0] != "webp"@[0]);
        assert("json"@.len() != "pnm"@.len());
        assert("json"@.len() != "ppm"@.len());
        assert("json"@.len() != "pgm"@.len());
        assert("json"@.len() != "pbm"@.len());
        assert("json"@.len() != "ttf"@.len());
        assert("json"@.len() != "otf"@.len());
        assert("json"@.len() != "ttc"@.len());
    }
    assert(spec_asset_kind_for_extension(ascii_lowercase("PNG"@)) == Some(AssetKind::Image)) by {
        reveal_strlit("PNG");
        reveal_strlit("png");
        assert(ascii_lowercase("PNG"@) =~= "png"@);
    }
    assert(spec_asset_kind_for_extension(ascii_lowercase("Mp4"@)) == Some(AssetKind::Video)) by {
        reveal_strlit("Mp4");
        reveal_strlit("mp4");
        assert(ascii_lowercase("Mp4"@) =~= "mp4"@);
    }
    assert(spec_asset_kind_for_extension(ascii_lowercase(Seq::empty())) is None) by {
        reveal_strlit("mp4");
        reveal_strlit("mov");
        reveal_strlit("mkv");
        reveal_strlit("webm");
        reveal_strlit("m4v");
        reveal_strlit("avi");
        reveal_strlit("wav");
        reveal_strlit("mp3");
        reveal_strlit("aac");
        reveal_strlit("m4a");
        reveal_strlit("flac");
        reveal_strlit("ogg");
        reveal_strlit("opus");
        reveal_strlit("png");
        reveal_strlit("jpg");
        reveal_strlit("jpeg");
        reveal_strlit("webp");
        reveal_strlit("pnm");
        reveal_strlit("ppm");
        reveal_strlit("pgm");
        reveal_strlit("pbm");
        reveal_strlit("ttf");
        reveal_strlit("otf");
        reveal_strlit("ttc");
        assert(ascii_lowercase(Seq::<char>::empty()) =~= Seq::<char>::empty());
        assert("mp4"@.len() != 0);
        assert("mov"@.len() != 0);
        assert("mkv"@.len() != 0);
        assert("webm"@.len() != 0);
        assert("m4v"@.len() != 0);
        assert("avi"@.len() != 0);
        assert("wav"@.len() != 0);
        assert("mp3"@.len() != 0);
        assert("aac"@.len() != 0);
        assert("m4a"@.len() != 0);
        assert("flac"@.len() != 0);
        assert("ogg"@.len() != 0);
        assert("opus"@.len() != 0);
        assert("png"@.len() != 0);
        assert("jpg"@.len() != 0);
        assert("jpeg"@.len() != 0);
        assert("webp"@.len() != 0);
        assert("pnm"@.len() != 0);
        assert("ppm"@.len() != 0);
        assert("pgm"@.len() != 0);
        assert("pbm"@.len() != 0);
        assert("ttf"@.len() != 0);
        assert("otf"@.len() != 0);
        assert("ttc"@.len() != 0);
    }
}

/// Every kind of clip goes on the kind of track its asset is placed on, so
/// a clip that a plan placed can be moved to any unlocked track of that
/// kind: video clips on video tracks, audio on audio tracks, images (like
/// text and components) on overlay tracks, and dialogue on dialogue tracks.
pub proof fn law_clips_go_where_their_assets_go()
    ensures
        spec_content_track_kind(ContentKind::Video) == spec_asset_track_kind(AssetKind::Video),
        spec_content_track_kind(ContentKind::Audio) == spec_asset_track_kind(AssetKind::Audio),
        spec_content_track_kind(ContentKind::Image) == spec_asset_track_kind(AssetKind::Image),
        spec_content_track_kind(ContentKind::Video) == TrackKind::Video,
        spec_content_track_kind(ContentKind::Audio) == TrackKind::Audio,
        spec_content_track_kind(ContentKind::Image) == TrackKind::Overlay,
        spec_content_track_kind(ContentKind::Text) == TrackKind::Overlay,
        spec_content_track_kind(ContentKind::Component) == TrackKind::Overlay,
        spec_content_track_kind(ContentKind::Dialogue) == TrackKind::Dialogue,
        forall|a: ContentKind, b: ContentKind|
            spec_content_track_kind(a) == spec_content_track_kind(b) && a != b ==> (
            #[trigger] spec_content_track_kind(a) == TrackKind::Overlay && #[trigger]
            spec_content_track_kind(b) == TrackKind::Overlay),
{
}


/// A new track is named after what it holds: `video`/`Video`,
/// `audio`/`Audio`, `overlays`/`Overlays` and `dialogue`/`Dialogue` as id
/// base and name.
pub proof fn law_new_track_names()
    ensures
        default_track_id(TrackKind::Video) == "video"@ && default_track_name(TrackKind::Video)
            == "Video"@,
        default_track_id(TrackKind::Audio) == "audio"@ && default_track_name(TrackKind::Audio)
            == "Audio"@,
        default_track_id(TrackKind::Overlay) == "overlays"@ && default_track_name(
            TrackKind::Overlay,
        ) == "Overlays"@,
        default_track_id(TrackKind::Dialogue) == "dialogue"@ && default_track_name(
            TrackKind::Dialogue,
        ) == "Dialogue"@,
{
}

} // verus!
