//! Laws of what an evaluation picks.

use crate::evaluation::{
    heard_clips, heard_in_track, item_is_heard, spec_has_solo, track_is_heard,
};
use crate::tracks::ContentKind;
use crate::tracks::{Track, TrackItem};
use vstd::prelude::*;

verus! {

proof fn lemma_heard_in_track_contains<C>(j: int, items: Seq<TrackItem<C>>, p: (int, int))
    ensures
        heard_in_track(j, items).contains(p) <==> (p.0 == j && 0 <= p.1 < items.len()
            && item_is_heard(items[p.1])),
    decreases items.len(),
{
    if items.len() > 0 {
        let rest = items.drop_last();
        lemma_heard_in_track_contains(j, rest, p);
        let whole = heard_in_track(j, items);
        let part = heard_in_track(j, rest);
        if item_is_heard(items.last()) {
            assert(whole == part.push((j, items.len() - 1)));
            if part.contains(p) {
                let m = choose|m: int| 0 <= m < part.len() && part[m] == p;
                assert(whole[m] == p);
            }
            if p == (j, items.len() - 1) {
                assert(whole[part.len() as int] == p);
            }
            if whole.contains(p) && p != (j, items.len() - 1) {
                let m = choose|m: int| 0 <= m < whole.len() && whole[m] == p;
                assert(m < part.len());
                assert(part[m] == p);
            }
        } else {
            assert(whole == part);
        }
        if 0 <= p.1 < rest.len() {
            assert(items[p.1] == rest[p.1]);
        }
    }
}

proof fn lemma_add_contains(a: Seq<(int, int)>, b: Seq<(int, int)>, p: (int, int))
    ensures
        (a + b).contains(p) <==> a.contains(p) || b.contains(p),
{
    if a.contains(p) {
        let m = choose|m: int| 0 <= m < a.len() && a[m] == p;
        assert((a + b)[m] == p);
    }
    if b.contains(p) {
        let m = choose|m: int| 0 <= m < b.len() && b[m] == p;
        assert((a + b)[a.len() + m] == p);
    }
    if (a + b).contains(p) {
        let m = choose|m: int| 0 <= m < (a + b).len() && (a + b)[m] == p;
        if m < a.len() {
            assert(a[m] == p);
        } else {
            assert(b[m - a.len()] == p);
        }
    }
}

proof fn lemma_heard_clips_contains<C>(tracks: Seq<Track<C>>, has_solo: bool, p: (int, int))
    ensures
        heard_clips(tracks, has_solo).contains(p) <==> (0 <= p.0 < tracks.len() && track_is_heard(
            tracks[p.0],
            has_solo,
        ) && 0 <= p.1 < tracks[p.0].items@.len() && item_is_heard(tracks[p.0].items@[p.1])),
    decreases tracks.len(),
{
    if tracks.len() > 0 {
        let rest = tracks.drop_last();
        let last = tracks.len() - 1;
        lemma_heard_clips_contains(rest, has_solo, p);
        lemma_heard_in_track_contains(last, tracks.last().items@, p);
        if track_is_heard(tracks.last(), has_solo) {
            lemma_add_contains(
                heard_clips(rest, has_solo),
                heard_in_track(last, tracks.last().items@),
                p,
            );
        }
        if 0 <= p.0 < rest.len() {
            assert(tracks[p.0] == rest[p.0]);
        }
    }
}

/// The audio mix plays a clip exactly when its track is enabled, not muted,
/// and soloed whenever some enabled soloed track holds a clip with sound,
/// and the clip itself is enabled and has sound (a video or audio clip, or
/// a dialogue with a voice).
pub proof fn law_heard_clips_are_exactly<C>(tracks: Seq<Track<C>>, j: int, k: int)
    ensures
        heard_clips(tracks, spec_has_solo(tracks)).contains((j, k)) <==> {
            &&& 0 <= j < tracks.len()
            &&& tracks[j].enabled != Some(false)
            &&& tracks[j].muted != Some(true)
            &&& (spec_has_solo(tracks) ==> tracks[j].solo == Some(true))
            &&& 0 <= k < tracks[j].items@.len()
            &&& item_is_heard(tracks[j].items@[k])
        },
{
    lemma_heard_clips_contains(tracks, spec_has_solo(tracks), (j, k));
}

/// The mix takes clips track by track and, within a track, clip by clip:
/// the positions it lists strictly increase.
pub proof fn law_heard_clips_in_order<C>(tracks: Seq<Track<C>>, has_solo: bool, a: int, b: int)
    requires
        0 <= a < b < heard_clips(tracks, has_solo).len(),
    ensures
        ({
            let x = heard_clips(tracks, has_solo)[a];
            let y = heard_clips(tracks, has_solo)[b];
            x.0 < y.0 || (x.0 == y.0 && x.1 < y.1)
        }),
    decreases tracks.len(),
{
    let rest = tracks.drop_last();
    let last = tracks.len() - 1;
    let part = heard_clips(rest, has_solo);
    if track_is_heard(tracks.last(), has_solo) {
        let tail = heard_in_track(last, tracks.last().items@);
        assert(heard_clips(tracks, has_solo) == part + tail);
        if b < part.len() {
            law_heard_clips_in_order(rest, has_solo, a, b);
            assert(heard_clips(tracks, has_solo)[a] == part[a]);
            assert(heard_clips(tracks, has_solo)[b] == part[b]);
        } else if a < part.len() {
            lemma_heard_clips_contains(rest, has_solo, part[a]);
            assert(part.contains(part[a]));
            lemma_heard_in_track_contains(last, tracks.last().items@, tail[b - part.len()]);
            assert(tail.contains(tail[b - part.len()]));
            assert(heard_clips(tracks, has_solo)[a] == part[a]);
            assert(heard_clips(tracks, has_solo)[b] == tail[b - part.len()]);
        } else {
            lemma_heard_in_track_order(last, tracks.last().items@, a - part.len(), b - part.len());
            lemma_heard_in_track_contains(last, tracks.last().items@, tail[b - part.len()]);
            assert(tail.contains(tail[b - part.len()]));
            assert(heard_clips(tracks, has_solo)[a] == tail[a - part.len()]);
            assert(heard_clips(tracks, has_solo)[b] == tail[b - part.len()]);
        }
    } else {
        law_heard_clips_in_order(rest, has_solo, a, b);
    }
}

proof fn lemma_heard_in_track_order<C>(j: int, items: Seq<TrackItem<C>>, a: int, b: int)
    requires
        0 <= a < b < heard_in_track(j, items).len(),
    ensures
        heard_in_track(j, items)[a].0 == j,
        heard_in_track(j, items)[a].1 < heard_in_track(j, items)[b].1,
    decreases items.len(),
{
    let rest = items.drop_last();
    let part = heard_in_track(j, rest);
    if item_is_heard(items.last()) {
        assert(heard_in_track(j, items) == part.push((j, items.len() - 1)));
        if b < part.len() {
            lemma_heard_in_track_order(j, rest, a, b);
        } else {
            lemma_heard_in_track_contains(j, rest, part[a]);
            assert(part.contains(part[a]));
        }
    } else {
        lemma_heard_in_track_order(j, rest, a, b);
    }
}


/// Whether a clip has sound: a video or audio clip, or a dialogue line with
/// a voice.
pub open spec fn sounds<C>(item: TrackItem<C>) -> bool {
    item.content == ContentKind::Video || item.content == ContentKind::Audio || (item.content
        == ContentKind::Dialogue && item.asset is Some)
}

/// Some track silences the tracks that are not soloed exactly when a track
/// is enabled, soloed, and holds a clip with sound, at any position among
/// its clips.
pub proof fn law_solo_needs_a_clip_with_sound<C>(tracks: Seq<Track<C>>)
    ensures
        spec_has_solo(tracks) <==> exists|j: int, k: int|
            0 <= j < tracks.len() && tracks[j].enabled != Some(false) && tracks[j].solo == Some(
                true,
            ) && 0 <= k < tracks[j].items@.len() && #[trigger] sounds(tracks[j].items@[k]),
{
    if spec_has_solo(tracks) {
        let j = choose|j: int| 0 <= j < tracks.len() && crate::evaluation::is_audible_solo(
            #[trigger] tracks[j],
        );
        let k = choose|k: int|
            0 <= k < tracks[j].items@.len() && crate::evaluation::spec_item_has_audio(
                #[trigger] tracks[j].items@[k],
            );
        assert(sounds(tracks[j].items@[k]));
    }
    if exists|j: int, k: int|
        0 <= j < tracks.len() && tracks[j].enabled != Some(false) && tracks[j].solo == Some(true)
            && 0 <= k < tracks[j].items@.len() && #[trigger] sounds(tracks[j].items@[k]) {
        let (j, k) = choose|j: int, k: int|
            0 <= j < tracks.len() && tracks[j].enabled != Some(false) && tracks[j].solo == Some(true)
                && 0 <= k < tracks[j].items@.len() && #[trigger] sounds(tracks[j].items@[k]);
        assert(crate::evaluation::spec_item_has_audio(tracks[j].items@[k]));
        assert(crate::evaluation::is_audible_solo(tracks[j]));
    }
}


/// A clip has sound exactly when it is a video or audio clip, or a dialogue
/// line with a voice.
pub proof fn law_which_clips_have_sound<C>(item: TrackItem<C>)
    ensures
        crate::evaluation::spec_item_has_audio(item) <==> sounds(item),
{
}

} // verus!
