//! The tracks of a project and the editor's operations on them: adding,
//! reordering, renaming, toggling and deleting tracks, and moving and
//! deleting the clips on them.
//!
//! A clip's payload (its range, content and styling) is carried along as
//! `C`; the operations read only its id and what kind of content it is.

use crate::clock::frames_covering;
use crate::naming::{ascii_lower, chars_match, is_unique_id, lower_char, names_of, unique_id};
use crate::text::{chars_of, str_eq, string_from_chars};
use crate::time::{spec_frames, Rational, Time, TimeError, TimeRange};
use crate::timecode::{trim_chars, trimmed};
use crate::timeline::{
    check_clip_frames, clip_frames_range, move_target, spec_move_target, timeline_clock_error,
    ClipFramesError,
};
use vstd::prelude::*;

verus! {

/// What a track holds.
#[derive(Clone, Copy, Debug, PartialEq, Eq, Structural)]
pub enum TrackKind {
    Video,
    Audio,
    Overlay,
    Dialogue,
}

/// What a clip shows or plays.
#[derive(Clone, Copy, Debug, PartialEq, Eq, Structural)]
pub enum ContentKind {
    Video,
    Audio,
    Image,
    Text,
    Component,
    Dialogue,
}

/// The kind of track a clip of this content belongs on.
pub open spec fn spec_content_track_kind(kind: ContentKind) -> TrackKind {
    match kind {
        ContentKind::Video => TrackKind::Video,
        ContentKind::Audio => TrackKind::Audio,
        ContentKind::Image | ContentKind::Text | ContentKind::Component => TrackKind::Overlay,
        ContentKind::Dialogue => TrackKind::Dialogue,
    }
}

#[verifier::when_used_as_spec(spec_content_track_kind)]
pub fn content_track_kind(kind: ContentKind) -> (r: TrackKind)
    ensures
        r == spec_content_track_kind(kind),
{
    match kind {
        ContentKind::Video => TrackKind::Video,
        ContentKind::Audio => TrackKind::Audio,
        ContentKind::Image | ContentKind::Text | ContentKind::Component => TrackKind::Overlay,
        ContentKind::Dialogue => TrackKind::Dialogue,
    }
}

/// A clip on a track.
#[derive(Clone, Debug)]
pub struct TrackItem<C> {
    pub id: String,
    /// When the clip plays, in composition time.
    pub range: TimeRange,
    /// Stored only when the clip is switched off (`Some(false)`) or on.
    pub enabled: Option<bool>,
    pub content: ContentKind,
    /// The asset the clip plays or shows; for a dialogue, its voice.
    pub asset: Option<String>,
    /// For a dialogue, who speaks and with which expression.
    pub speaker: Option<Speaker>,
    pub payload: C,
}

/// The character a dialogue clip shows and the portrait expression it asks
/// for (the character's default when absent).
#[derive(Clone, Debug)]
pub struct Speaker {
    pub character: String,
    pub expression: Option<String>,
}

/// A track; the flags are stored only when they differ from the default
/// (enabled, unlocked, audible, not soloed).
#[derive(Clone, Debug)]
pub struct Track<C> {
    pub id: String,
    pub name: String,
    pub kind: TrackKind,
    pub enabled: Option<bool>,
    pub locked: Option<bool>,
    pub muted: Option<bool>,
    pub solo: Option<bool>,
    pub items: Vec<TrackItem<C>>,
}

/// Why a track operation was refused.
#[derive(Clone, Debug, PartialEq, Eq)]
pub enum TrackError {
    MissingTrack(String),
    MissingClip(String),
    LockedTrack(String),
    InvalidTrackName,
    NonEmptyTrack { track: String, item_count: usize },
    IncompatibleClipTrack { clip: String, track: String, expected: TrackKind, actual: TrackKind },
}

/// Whether a track is locked.
pub open spec fn is_locked<C>(track: Track<C>) -> bool {
    track.locked == Some(true)
}

/// The first index at or after `i` whose track has id `id`, or the number
/// of tracks.
pub open spec fn track_index_from<C>(tracks: Seq<Track<C>>, id: Seq<char>, i: int) -> int
    decreases tracks.len() - i,
{
    if i < 0 || i >= tracks.len() {
        tracks.len() as int
    } else if tracks[i].id@ == id {
        i
    } else {
        track_index_from(tracks, id, i + 1)
    }
}

/// The position of the first track with id `id`, or the number of tracks.
pub open spec fn track_index<C>(tracks: Seq<Track<C>>, id: Seq<char>) -> int {
    track_index_from(tracks, id, 0)
}

/// Whether a track holds a clip with id `id`.
pub open spec fn holds_clip<C>(track: Track<C>, id: Seq<char>) -> bool {
    exists|k: int| 0 <= k < track.items@.len() && (#[trigger] track.items@[k]).id@ == id
}

/// The first index at or after `i` whose track holds clip `id`, or the
/// number of tracks.
pub open spec fn clip_track_index_from<C>(tracks: Seq<Track<C>>, id: Seq<char>, i: int) -> int
    decreases tracks.len() - i,
{
    if i < 0 || i >= tracks.len() {
        tracks.len() as int
    } else if holds_clip(tracks[i], id) {
        i
    } else {
        clip_track_index_from(tracks, id, i + 1)
    }
}

/// The position of the first track holding clip `id`, or the number of
/// tracks.
pub open spec fn clip_track_index<C>(tracks: Seq<Track<C>>, id: Seq<char>) -> int {
    clip_track_index_from(tracks, id, 0)
}

/// The position of the first clip with id `id` among `items`, or their
/// number.
pub open spec fn item_index_from<C>(items: Seq<TrackItem<C>>, id: Seq<char>, i: int) -> int
    decreases items.len() - i,
{
    if i < 0 || i >= items.len() {
        items.len() as int
    } else if items[i].id@ == id {
        i
    } else {
        item_index_from(items, id, i + 1)
    }
}

pub proof fn lemma_track_index_bounds<C>(tracks: Seq<Track<C>>, id: Seq<char>, i: int)
    requires
        0 <= i <= tracks.len(),
    ensures
        i <= track_index_from(tracks, id, i) <= tracks.len(),
        track_index_from(tracks, id, i) < tracks.len() ==> tracks[track_index_from(
            tracks,
            id,
            i,
        )].id@ == id,
    decreases tracks.len() - i,
{
    if i < tracks.len() && tracks[i].id@ != id {
        lemma_track_index_bounds(tracks, id, i + 1);
    }
}

proof fn lemma_clip_track_index_bounds<C>(tracks: Seq<Track<C>>, id: Seq<char>, i: int)
    requires
        0 <= i <= tracks.len(),
    ensures
        i <= clip_track_index_from(tracks, id, i) <= tracks.len(),
        clip_track_index_from(tracks, id, i) < tracks.len() ==> holds_clip(
            tracks[clip_track_index_from(tracks, id, i)],
            id,
        ),
    decreases tracks.len() - i,
{
    if i < tracks.len() && !holds_clip(tracks[i], id) {
        lemma_clip_track_index_bounds(tracks, id, i + 1);
    }
}

proof fn lemma_item_index_bounds<C>(items: Seq<TrackItem<C>>, id: Seq<char>, i: int)
    requires
        0 <= i <= items.len(),
    ensures
        i <= item_index_from(items, id, i) <= items.len(),
        item_index_from(items, id, i) < items.len() ==> items[item_index_from(
            items,
            id,
            i,
        )].id@ == id,
        (forall|k: int| i <= k < items.len() ==> (#[trigger] items[k]).id@ != id) ==> item_index_from(
            items,
            id,
            i,
        ) == items.len(),
    decreases items.len() - i,
{
    if i < items.len() && items[i].id@ != id {
        lemma_item_index_bounds(items, id, i + 1);
    }
}

/// The position of the first track with id `id` (see [`track_index`]).
pub fn find_track<C>(tracks: &Vec<Track<C>>, id: &str) -> (r: usize)
    ensures
        r == track_index(tracks@, id@),
        r <= tracks@.len(),
        r < tracks@.len() ==> tracks@[r as int].id@ == id@,
{
    proof {
        lemma_track_index_bounds(tracks@, id@, 0);
    }
    let mut i: usize = 0;
    while i < tracks.len()
        invariant
            i <= tracks@.len(),
            track_index_from(tracks@, id@, i as int) == track_index(tracks@, id@),
        decreases tracks.len() - i,
    {
        if str_eq(tracks[i].id.as_str(), id) {
            return i;
        }
        i = i + 1;
    }
    i
}

/// The position of the first clip with id `id` on a track.
fn find_item<C>(items: &Vec<TrackItem<C>>, id: &str) -> (r: usize)
    ensures
        r == item_index_from(items@, id@, 0),
        r <= items@.len(),
        r < items@.len() ==> items@[r as int].id@ == id@,
        r == items@.len() ==> forall|k: int| 0 <= k < items@.len() ==> (#[trigger] items@[k]).id@
            != id@,
{
    proof {
        lemma_item_index_bounds(items@, id@, 0);
    }
    let mut i: usize = 0;
    while i < items.len()
        invariant
            i <= items@.len(),
            item_index_from(items@, id@, i as int) == item_index_from(items@, id@, 0),
            forall|k: int| 0 <= k < i ==> (#[trigger] items@[k]).id@ != id@,
        decreases items.len() - i,
    {
        if str_eq(items[i].id.as_str(), id) {
            return i;
        }
        i = i + 1;
    }
    i
}

/// The position of the first track holding clip `id` (see
/// [`clip_track_index`]).
pub fn find_clip_track<C>(tracks: &Vec<Track<C>>, id: &str) -> (r: usize)
    ensures
        r == clip_track_index(tracks@, id@),
        r <= tracks@.len(),
        r < tracks@.len() ==> holds_clip(tracks@[r as int], id@),
{
    proof {
        lemma_clip_track_index_bounds(tracks@, id@, 0);
    }
    let mut i: usize = 0;
    while i < tracks.len()
        invariant
            i <= tracks@.len(),
            clip_track_index_from(tracks@, id@, i as int) == clip_track_index(tracks@, id@),
        decreases tracks.len() - i,
    {
        let k = find_item(&tracks[i].items, id);
        if k < tracks[i].items.len() {
            return i;
        }
        assert(!holds_clip(tracks@[i as int], id@));
        i = i + 1;
    }
    i
}

/// A flag that is on only when stored as `Some(true)`; off is stored as
/// absent.
pub open spec fn stored_flag(on: bool) -> Option<bool> {
    if on {
        Some(true)
    } else {
        None
    }
}

/// The outcome of an operation on the track with id `id` that succeeds
/// with `value` and leaves `changed` in its place: refused when there is no
/// such track.
pub open spec fn on_track<C, T>(
    before: Seq<Track<C>>,
    after: Seq<Track<C>>,
    id: Seq<char>,
    r: Result<T, TrackError>,
    value: spec_fn(Track<C>) -> T,
    changed: spec_fn(Track<C>) -> Track<C>,
) -> bool {
    let i = track_index(before, id);
    if i == before.len() {
        &&& r matches Err(TrackError::MissingTrack(missing)) && missing@ == id
        &&& after == before
    } else {
        &&& r == Ok::<T, TrackError>(value(before[i]))
        &&& after == before.update(i, changed(before[i]))
    }
}

/// Puts `track` back at `i` after it was taken out.
fn put_back<C>(tracks: &mut Vec<Track<C>>, i: usize, track: Track<C>)
    requires
        i <= old(tracks)@.len(),
    ensures
        final(tracks)@ == old(tracks)@.insert(i as int, track),
{
    tracks.insert(i, track);
}

/// Toggles whether a track is muted; returns whether it now is.
pub fn toggle_track_muted<C>(tracks: &mut Vec<Track<C>>, id: &str) -> (r: Result<bool, TrackError>)
    ensures
        on_track(
            old(tracks)@,
            final(tracks)@,
            id@,
            r,
            |t: Track<C>| t.muted != Some(true),
            |t: Track<C>| Track { muted: stored_flag(t.muted != Some(true)), ..t },
        ),
{
    let i = find_track(tracks, id);
    if i == tracks.len() {
        return Err(TrackError::MissingTrack(id.to_owned()));
    }
    let ghost before = tracks@;
    let mut track = tracks.remove(i);
    let muted = !matches!(track.muted, Some(true));
    track.muted = if muted {
        Some(true)
    } else {
        None
    };
    put_back(tracks, i, track);
    assert(tracks@ =~= before.update(i as int, track));
    Ok(muted)
}

/// Toggles whether a track is soloed; returns whether it now is.
pub fn toggle_track_solo<C>(tracks: &mut Vec<Track<C>>, id: &str) -> (r: Result<bool, TrackError>)
    ensures
        on_track(
            old(tracks)@,
            final(tracks)@,
            id@,
            r,
            |t: Track<C>| t.solo != Some(true),
            |t: Track<C>| Track { solo: stored_flag(t.solo != Some(true)), ..t },
        ),
{
    let i = find_track(tracks, id);
    if i == tracks.len() {
        return Err(TrackError::MissingTrack(id.to_owned()));
    }
    let ghost before = tracks@;
    let mut track = tracks.remove(i);
    let solo = !matches!(track.solo, Some(true));
    track.solo = if solo {
        Some(true)
    } else {
        None
    };
    put_back(tracks, i, track);
    assert(tracks@ =~= before.update(i as int, track));
    Ok(solo)
}

/// Toggles whether a track is locked; returns whether it now is.
pub fn toggle_track_locked<C>(tracks: &mut Vec<Track<C>>, id: &str) -> (r: Result<bool, TrackError>)
    ensures
        on_track(
            old(tracks)@,
            final(tracks)@,
            id@,
            r,
            |t: Track<C>| t.locked != Some(true),
            |t: Track<C>| Track { locked: stored_flag(t.locked != Some(true)), ..t },
        ),
{
    let i = find_track(tracks, id);
    if i == tracks.len() {
        return Err(TrackError::MissingTrack(id.to_owned()));
    }
    let ghost before = tracks@;
    let mut track = tracks.remove(i);
    let locked = !matches!(track.locked, Some(true));
    track.locked = if locked {
        Some(true)
    } else {
        None
    };
    put_back(tracks, i, track);
    assert(tracks@ =~= before.update(i as int, track));
    Ok(locked)
}

/// Toggles whether an unlocked track is enabled; returns whether it now
/// is. Disabled is stored as `Some(false)`, enabled as absent.
pub fn toggle_track_enabled<C>(tracks: &mut Vec<Track<C>>, id: &str) -> (r: Result<bool, TrackError>)
    ensures
        ({
            let i = track_index(old(tracks)@, id@);
            if i < old(tracks)@.len() && is_locked(old(tracks)@[i]) {
                &&& r matches Err(TrackError::LockedTrack(locked)) && locked@ == id@
                &&& final(tracks)@ == old(tracks)@
            } else {
                on_track(
                    old(tracks)@,
                    final(tracks)@,
                    id@,
                    r,
                    |t: Track<C>| t.enabled == Some(false),
                    |t: Track<C>|
                        Track {
                            enabled: if t.enabled == Some(false) {
                                None
                            } else {
                                Some(false)
                            },
                            ..t
                        },
                )
            }
        }),
{
    let i = find_track(tracks, id);
    if i == tracks.len() {
        return Err(TrackError::MissingTrack(id.to_owned()));
    }
    if matches!(tracks[i].locked, Some(true)) {
        return Err(TrackError::LockedTrack(id.to_owned()));
    }
    let ghost before = tracks@;
    let mut track = tracks.remove(i);
    let enabled = matches!(track.enabled, Some(false));
    track.enabled = if enabled {
        None
    } else {
        Some(false)
    };
    put_back(tracks, i, track);
    assert(tracks@ =~= before.update(i as int, track));
    Ok(enabled)
}

/// Renames an unlocked track to `name` without its surrounding white
/// space, which must leave something; returns whether the name changed.
pub fn rename_track<C>(tracks: &mut Vec<Track<C>>, id: &str, name: &str) -> (r: Result<
    bool,
    TrackError,
>)
    ensures
        ({
            let i = track_index(old(tracks)@, id@);
            let new_name = trimmed(name@);
            if new_name.len() == 0 {
                r == Err::<bool, TrackError>(TrackError::InvalidTrackName) && final(tracks)@ == old(
                    tracks,
                )@
            } else if i == old(tracks)@.len() {
                &&& r matches Err(TrackError::MissingTrack(missing)) && missing@ == id@
                &&& final(tracks)@ == old(tracks)@
            } else if is_locked(old(tracks)@[i]) {
                &&& r matches Err(TrackError::LockedTrack(locked)) && locked@ == id@
                &&& final(tracks)@ == old(tracks)@
            } else {
                &&& r == Ok::<bool, TrackError>(old(tracks)@[i].name@ != new_name)
                &&& final(tracks)@.len() == old(tracks)@.len()
                &&& final(tracks)@[i].name@ == new_name
                &&& final(tracks)@[i] == (Track { name: final(tracks)@[i].name, ..old(tracks)@[i] })
                &&& forall|j: int|
                    0 <= j < old(tracks)@.len() && j != i ==> final(tracks)@[j] == old(tracks)@[j]
            }
        }),
{
    let chars = chars_of(name);
    let new_name = trim_chars(&chars);
    if new_name.len() == 0 {
        return Err(TrackError::InvalidTrackName);
    }
    let i = find_track(tracks, id);
    if i == tracks.len() {
        return Err(TrackError::MissingTrack(id.to_owned()));
    }
    if matches!(tracks[i].locked, Some(true)) {
        return Err(TrackError::LockedTrack(id.to_owned()));
    }
    let renamed = string_from_chars(new_name.as_slice());
    let changed = !str_eq(tracks[i].name.as_str(), renamed.as_str());
    let ghost before = tracks@;
    let mut track = tracks.remove(i);
    track.name = renamed;
    put_back(tracks, i, track);
    assert(tracks@ =~= before.update(i as int, track));
    Ok(changed)
}

/// Moves an unlocked track by `offset` positions, stopping at either end;
/// returns whether it moved.
pub fn move_track<C>(tracks: &mut Vec<Track<C>>, id: &str, offset: isize) -> (r: Result<
    bool,
    TrackError,
>)
    ensures
        ({
            let before = old(tracks)@;
            let i = track_index(before, id@);
            if i == before.len() {
                &&& r matches Err(TrackError::MissingTrack(missing)) && missing@ == id@
                &&& final(tracks)@ == before
            } else if is_locked(before[i]) {
                &&& r matches Err(TrackError::LockedTrack(locked)) && locked@ == id@
                &&& final(tracks)@ == before
            } else {
                let target = spec_move_target(i, offset as int, before.len() as int);
                &&& r == Ok::<bool, TrackError>(target != i)
                &&& final(tracks)@ == before.remove(i).insert(target, before[i])
            }
        }),
{
    let i = find_track(tracks, id);
    if i == tracks.len() {
        return Err(TrackError::MissingTrack(id.to_owned()));
    }
    if matches!(tracks[i].locked, Some(true)) {
        return Err(TrackError::LockedTrack(id.to_owned()));
    }
    let target = move_target(i, offset, tracks.len());
    if target == i {
        let ghost before = tracks@;
        proof {
            assert(before.remove(i as int).insert(i as int, before[i as int]) =~= before);
        }
        return Ok(false);
    }
    let track = tracks.remove(i);
    tracks.insert(target, track);
    Ok(true)
}

/// Deletes an unlocked track; one that still holds clips only when
/// `delete_non_empty` says so.
pub fn delete_track<C>(tracks: &mut Vec<Track<C>>, id: &str, delete_non_empty: bool) -> (r: Result<
    (),
    TrackError,
>)
    ensures
        ({
            let before = old(tracks)@;
            let i = track_index(before, id@);
            if i == before.len() {
                &&& r matches Err(TrackError::MissingTrack(missing)) && missing@ == id@
                &&& final(tracks)@ == before
            } else if is_locked(before[i]) {
                &&& r matches Err(TrackError::LockedTrack(locked)) && locked@ == id@
                &&& final(tracks)@ == before
            } else if !delete_non_empty && before[i].items@.len() > 0 {
                &&& r matches Err(TrackError::NonEmptyTrack { track, item_count }) && track@ == id@
                    && item_count == before[i].items@.len()
                &&& final(tracks)@ == before
            } else {
                &&& r is Ok
                &&& final(tracks)@ == before.remove(i)
            }
        }),
{
    let i = find_track(tracks, id);
    if i == tracks.len() {
        return Err(TrackError::MissingTrack(id.to_owned()));
    }
    if matches!(tracks[i].locked, Some(true)) {
        return Err(TrackError::LockedTrack(id.to_owned()));
    }
    if !delete_non_empty && tracks[i].items.len() > 0 {
        return Err(TrackError::NonEmptyTrack { track: id.to_owned(), item_count: tracks[i].items.len() });
    }
    let _removed = tracks.remove(i);
    Ok(())
}

/// The id a new track of `kind` is based on.
pub open spec fn default_track_id(kind: TrackKind) -> Seq<char> {
    match kind {
        TrackKind::Video => "video"@,
        TrackKind::Audio => "audio"@,
        TrackKind::Overlay => "overlays"@,
        TrackKind::Dialogue => "dialogue"@,
    }
}

/// The name a new track of `kind` gets.
pub open spec fn default_track_name(kind: TrackKind) -> Seq<char> {
    match kind {
        TrackKind::Video => "Video"@,
        TrackKind::Audio => "Audio"@,
        TrackKind::Overlay => "Overlays"@,
        TrackKind::Dialogue => "Dialogue"@,
    }
}

/// The default id base and name of a new track of `kind`.
pub fn track_defaults(kind: TrackKind) -> (r: (&'static str, &'static str))
    ensures
        r.0@ == default_track_id(kind),
        r.1@ == default_track_name(kind),
{
    match kind {
        TrackKind::Video => ("video", "Video"),
        TrackKind::Audio => ("audio", "Audio"),
        TrackKind::Overlay => ("overlays", "Overlays"),
        TrackKind::Dialogue => ("dialogue", "Dialogue"),
    }
}

/// The ids of the tracks, in order.
pub open spec fn track_ids<C>(tracks: Seq<Track<C>>) -> Seq<Seq<char>> {
    tracks.map_values(|t: Track<C>| t.id@)
}

/// Everything of a track but its name and its clips.
pub open spec fn same_settings<C>(a: Track<C>, b: Track<C>) -> bool {
    &&& a.id == b.id
    &&& a.kind == b.kind
    &&& a.enabled == b.enabled
    &&& a.locked == b.locked
    &&& a.muted == b.muted
    &&& a.solo == b.solo
}

/// Adds an empty track of `kind` at the end, with the default name and an
/// id no other track has (see [`is_unique_id`]); returns the id.
pub fn add_track<C>(tracks: &mut Vec<Track<C>>, kind: TrackKind) -> (r: String)
    requires
        old(tracks)@.len() < u64::MAX - 2,
    ensures
        is_unique_id(default_track_id(kind), track_ids(old(tracks)@), r@),
        final(tracks)@.len() == old(tracks)@.len() + 1,
        final(tracks)@.take(old(tracks)@.len() as int) == old(tracks)@,
        ({
            let added = final(tracks)@.last();
            &&& added.id@ == r@
            &&& added.name@ == default_track_name(kind)
            &&& added.kind == kind
            &&& added.enabled is None && added.locked is None && added.muted is None
                && added.solo is None
            &&& added.items@.len() == 0
        }),
{
    let (base, name) = track_defaults(kind);
    let mut ids: Vec<&str> = Vec::new();
    let mut i: usize = 0;
    while i < tracks.len()
        invariant
            i <= tracks@.len(),
            ids@.len() == i,
            forall|j: int| 0 <= j < i ==> (#[trigger] ids@[j])@ == tracks@[j].id@,
        decreases tracks.len() - i,
    {
        ids.push(tracks[i].id.as_str());
        i = i + 1;
    }
    assert(names_of(ids@) =~= track_ids(tracks@));
    let id = unique_id(base, ids.as_slice());
    let track_id = id.clone();
    tracks.push(
        Track {
            id: track_id,
            name: name.to_owned(),
            kind,
            enabled: None,
            locked: None,
            muted: None,
            solo: None,
            items: Vec::new(),
        },
    );
    assert(tracks@.take(old(tracks)@.len() as int) =~= old(tracks)@);
    id
}

/// Moves a clip to another compatible, unlocked track, at the end of its
/// clips; returns whether it moved (not when it is already there).
pub fn move_clip_to_track<C>(tracks: &mut Vec<Track<C>>, clip_id: &str, target_id: &str) -> (r:
    Result<bool, TrackError>)
    ensures
        ({
            let before = old(tracks)@;
            let after = final(tracks)@;
            let s = clip_track_index(before, clip_id@);
            let t = track_index(before, target_id@);
            if s == before.len() {
                &&& r matches Err(TrackError::MissingClip(missing)) && missing@ == clip_id@
                &&& after == before
            } else if t == before.len() {
                &&& r matches Err(TrackError::MissingTrack(missing)) && missing@ == target_id@
                &&& after == before
            } else if s == t {
                r == Ok::<bool, TrackError>(false) && after == before
            } else if is_locked(before[s]) {
                &&& r matches Err(TrackError::LockedTrack(locked)) && locked@ == before[s].id@
                &&& after == before
            } else if is_locked(before[t]) {
                &&& r matches Err(TrackError::LockedTrack(locked)) && locked@ == target_id@
                &&& after == before
            } else {
                let k = item_index_from(before[s].items@, clip_id@, 0);
                let item = before[s].items@[k];
                if spec_content_track_kind(item.content) != before[t].kind {
                    &&& r matches Err(
                        TrackError::IncompatibleClipTrack { clip, track, expected, actual },
                    ) && clip@ == clip_id@ && track@ == target_id@ && expected
                        == spec_content_track_kind(item.content) && actual == before[t].kind
                    &&& after == before
                } else {
                    &&& r == Ok::<bool, TrackError>(true)
                    &&& after.len() == before.len()
                    &&& forall|j: int| 0 <= j < before.len() && j != s && j != t ==> after[j] == before[j]
                    &&& same_settings(after[s], before[s]) && after[s].name == before[s].name
                    &&& after[s].items@ == before[s].items@.remove(k)
                    &&& same_settings(after[t], before[t]) && after[t].name == before[t].name
                    &&& after[t].items@ == before[t].items@.push(item)
                }
            }
        }),
{
    let s = find_clip_track(tracks, clip_id);
    if s == tracks.len() {
        return Err(TrackError::MissingClip(clip_id.to_owned()));
    }
    let t = find_track(tracks, target_id);
    if t == tracks.len() {
        return Err(TrackError::MissingTrack(target_id.to_owned()));
    }
    if s == t {
        return Ok(false);
    }
    if matches!(tracks[s].locked, Some(true)) {
        return Err(TrackError::LockedTrack(tracks[s].id.clone()));
    }
    if matches!(tracks[t].locked, Some(true)) {
        return Err(TrackError::LockedTrack(target_id.to_owned()));
    }
    let k = find_item(&tracks[s].items, clip_id);
    let expected = content_track_kind(tracks[s].items[k].content);
    let actual = tracks[t].kind;
    if expected != actual {
        return Err(
            TrackError::IncompatibleClipTrack {
                clip: clip_id.to_owned(),
                track: target_id.to_owned(),
                expected,
                actual,
            },
        );
    }
    let ghost before = tracks@;
    let mut source = tracks.remove(s);
    let item = source.items.remove(k);
    put_back(tracks, s, source);
    let ghost middle = tracks@;
    assert(middle =~= before.update(s as int, source));
    let mut target = tracks.remove(t);
    target.items.push(item);
    put_back(tracks, t, target);
    assert(tracks@ =~= middle.update(t as int, target));
    Ok(true)
}

/// The clips of `items` but those with id `id`, in order.
pub open spec fn without_clip<C>(items: Seq<TrackItem<C>>, id: Seq<char>) -> Seq<TrackItem<C>>
    decreases items.len(),
{
    if items.len() == 0 {
        Seq::empty()
    } else {
        let rest = without_clip(items.drop_last(), id);
        if items.last().id@ == id {
            rest
        } else {
            rest.push(items.last())
        }
    }
}

/// Deletes every clip with id `clip_id` from the first track holding one,
/// which must be unlocked.
pub fn delete_clip<C>(tracks: &mut Vec<Track<C>>, clip_id: &str) -> (r: Result<(), TrackError>)
    ensures
        ({
            let before = old(tracks)@;
            let after = final(tracks)@;
            let s = clip_track_index(before, clip_id@);
            if s == before.len() {
                &&& r matches Err(TrackError::MissingClip(missing)) && missing@ == clip_id@
                &&& after == before
            } else if is_locked(before[s]) {
                &&& r matches Err(TrackError::LockedTrack(locked)) && locked@ == before[s].id@
                &&& after == before
            } else {
                &&& r is Ok
                &&& after.len() == before.len()
                &&& forall|j: int| 0 <= j < before.len() && j != s ==> after[j] == before[j]
                &&& same_settings(after[s], before[s]) && after[s].name == before[s].name
                &&& after[s].items@ == without_clip(before[s].items@, clip_id@)
            }
        }),
{
    let s = find_clip_track(tracks, clip_id);
    if s == tracks.len() {
        return Err(TrackError::MissingClip(clip_id.to_owned()));
    }
    if matches!(tracks[s].locked, Some(true)) {
        return Err(TrackError::LockedTrack(tracks[s].id.clone()));
    }
    let ghost before = tracks@;
    let mut source = tracks.remove(s);
    let ghost initial = source.items@;
    let ghost removed = source;
    let count = source.items.len();
    let mut kept: Vec<TrackItem<C>> = Vec::new();
    let mut taken: usize = 0;
    assert(initial.take(0) =~= Seq::<TrackItem<C>>::empty());
    while source.items.len() > 0
        invariant
            taken <= initial.len() == count,
            source.items@ == initial.skip(taken as int),
            same_settings(source, removed),
            source.name == removed.name,
            kept@ == without_clip(initial.take(taken as int), clip_id@),
        decreases source.items@.len(),
    {
        let item = source.items.remove(0);
        assert(initial.take(taken + 1).drop_last() =~= initial.take(taken as int));
        assert(initial.take(taken + 1).last() == item);
        assert(source.items@ =~= initial.skip(taken + 1));
        if !str_eq(item.id.as_str(), clip_id) {
            kept.push(item);
        }
        taken = taken + 1;
    }
    assert(taken == initial.len());
    assert(initial.take(taken as int) =~= initial);
    source.items = kept;
    assert(removed == before[s as int]);
    assert(same_settings(source, removed));
    assert(source.items@ == without_clip(before[s as int].items@, clip_id@));
    put_back(tracks, s, source);
    assert(tracks@ =~= before.update(s as int, source));
    Ok(())
}

/// What an asset holds.
#[derive(Clone, Copy, Debug, PartialEq, Eq, Structural)]
pub enum AssetKind {
    Video,
    Audio,
    Image,
    Font,
}

/// The ids of all clips, track by track.
pub open spec fn all_item_ids<C>(tracks: Seq<Track<C>>) -> Seq<Seq<char>>
    decreases tracks.len(),
{
    if tracks.len() == 0 {
        Seq::empty()
    } else {
        all_item_ids(tracks.drop_last()) + item_ids(tracks.last().items@)
    }
}

/// The ids of the clips, in order.
pub open spec fn item_ids<C>(items: Seq<TrackItem<C>>) -> Seq<Seq<char>> {
    items.map_values(|item: TrackItem<C>| item.id@)
}

/// The ids of every clip, for making up a fresh one.
fn collect_item_ids<'a, C>(tracks: &'a Vec<Track<C>>) -> (ids: Vec<&'a str>)
    requires
        all_item_ids(tracks@).len() < u64::MAX - 2,
    ensures
        names_of(ids@) == all_item_ids(tracks@),
{
    let mut ids: Vec<&str> = Vec::new();
    let mut i: usize = 0;
    assert(tracks@.take(0) =~= Seq::<Track<C>>::empty());
    while i < tracks.len()
        invariant
            i <= tracks@.len(),
            all_item_ids(tracks@).len() < u64::MAX - 2,
            names_of(ids@) == all_item_ids(tracks@.take(i as int)),
        decreases tracks.len() - i,
    {
        let items = &tracks[i].items;
        let ghost start = ids@;
        let mut k: usize = 0;
        proof {
            lemma_all_item_ids_prefix(tracks@, i as int + 1);
            assert(tracks@.take(i + 1).drop_last() =~= tracks@.take(i as int));
            assert(tracks@.take(i + 1).last() == tracks@[i as int]);
        }
        while k < items.len()
            invariant
                k <= items@.len(),
                items@ == tracks@[i as int].items@,
                all_item_ids(tracks@).len() < u64::MAX - 2,
                all_item_ids(tracks@.take(i + 1)).len() <= all_item_ids(tracks@).len(),
                all_item_ids(tracks@.take(i + 1)) == all_item_ids(tracks@.take(i as int))
                    + item_ids(items@),
                names_of(ids@) == all_item_ids(tracks@.take(i as int)) + item_ids(
                    items@.take(k as int),
                ),
            decreases items.len() - k,
        {
            let ghost prefix = names_of(ids@);
            proof {
                assert(item_ids(items@.take(k as int)).len() == k);
            }
            let id = items[k].id.as_str();
            ids.push(id);
            assert(names_of(ids@) =~= prefix.push(id@));
            assert(item_ids(items@.take(k + 1)) =~= item_ids(items@.take(k as int)).push(
                items@[k as int].id@,
            ));
            assert(names_of(ids@) =~= all_item_ids(tracks@.take(i as int)) + item_ids(
                items@.take(k + 1),
            ));
            k = k + 1;
        }
        assert(items@.take(k as int) =~= items@);
        i = i + 1;
    }
    assert(tracks@.take(i as int) =~= tracks@);
    ids
}

/// The ids of a prefix of the tracks' clips are no more than all of them.
proof fn lemma_all_item_ids_prefix<C>(tracks: Seq<Track<C>>, n: int)
    requires
        0 <= n <= tracks.len(),
    ensures
        all_item_ids(tracks.take(n)).len() <= all_item_ids(tracks).len(),
    decreases tracks.len() - n,
{
    if n < tracks.len() {
        lemma_all_item_ids_prefix(tracks, n + 1);
        assert(tracks.take(n + 1).drop_last() =~= tracks.take(n));
    } else {
        assert(tracks.take(n) =~= tracks);
    }
}

/// Why a clip of an asset could not be inserted.
#[derive(Clone, Debug, PartialEq, Eq)]
pub enum InsertClipError {
    MissingAsset(String),
    /// Fonts are not placed on the timeline.
    UnsupportedTimelineAsset(AssetKind),
    /// The clip must start at frame 0 or later, last at least one frame and
    /// end by the timeline's fixed end, if it has one.
    InvalidNewClipFrameRange { start_frame: i64, duration_frames: i64 },
    Duration(TimeError),
    MissingTrack(String),
    LockedTrack(String),
    IncompatibleTrack { asset: String, track: String, expected: TrackKind, actual: TrackKind },
}

/// Where a new clip goes.
#[derive(Clone, Debug, PartialEq, Eq)]
pub enum ClipPlacement {
    /// At the end of the clips of the track at this position.
    OnTrack(usize),
    /// On a new track, added at the end.
    NewTrack { id: String, name: String },
}

/// How a clip of an asset is to be inserted.
#[derive(Clone, Debug, PartialEq, Eq)]
pub struct ClipInsertion {
    /// A clip id no clip has: the asset's id, or it with a suffix.
    pub item_id: String,
    pub range: TimeRange,
    pub track_kind: TrackKind,
    pub placement: ClipPlacement,
}

/// The kind of track that clips of an asset go on.
pub open spec fn spec_asset_track_kind(kind: AssetKind) -> TrackKind {
    match kind {
        AssetKind::Video => TrackKind::Video,
        AssetKind::Audio => TrackKind::Audio,
        AssetKind::Image | AssetKind::Font => TrackKind::Overlay,
    }
}

/// The first unlocked track of `kind` at or after `i`, or the number of
/// tracks.
pub open spec fn open_track_index_from<C>(tracks: Seq<Track<C>>, kind: TrackKind, i: int) -> int
    decreases tracks.len() - i,
{
    if i < 0 || i >= tracks.len() {
        tracks.len() as int
    } else if tracks[i].kind == kind && !is_locked(tracks[i]) {
        i
    } else {
        open_track_index_from(tracks, kind, i + 1)
    }
}

proof fn lemma_open_track_index_bounds<C>(tracks: Seq<Track<C>>, kind: TrackKind, i: int)
    requires
        0 <= i <= tracks.len(),
    ensures
        i <= open_track_index_from(tracks, kind, i) <= tracks.len(),
    decreases tracks.len() - i,
{
    if i < tracks.len() && !(tracks[i].kind == kind && !is_locked(tracks[i])) {
        lemma_open_track_index_bounds(tracks, kind, i + 1);
    }
}

/// The first unlocked track of `kind`.
fn find_open_track<C>(tracks: &Vec<Track<C>>, kind: TrackKind) -> (r: usize)
    ensures
        r == open_track_index_from(tracks@, kind, 0),
        r <= tracks@.len(),
{
    proof {
        lemma_open_track_index_bounds(tracks@, kind, 0);
    }
    let mut i: usize = 0;
    while i < tracks.len()
        invariant
            i <= tracks@.len(),
            open_track_index_from(tracks@, kind, i as int) == open_track_index_from(
                tracks@,
                kind,
                0,
            ),
        decreases tracks.len() - i,
    {
        if tracks[i].kind == kind && !matches!(tracks[i].locked, Some(true)) {
            return i;
        }
        i = i + 1;
    }
    i
}

/// Whether `start_frame` and `duration_frames` cannot be a new clip's
/// frames, before the timeline's end is looked at.
pub open spec fn bad_new_clip_frames(start_frame: i64, duration_frames: i64) -> bool {
    start_frame < 0 || duration_frames < 1 || start_frame + duration_frames > i64::MAX
}

/// Plans inserting a clip of the asset `asset_id` (of `asset_kind`, `None`
/// when there is no such asset) spanning `duration_frames` frames from
/// `start_frame`, on the track `target_track_id` or, without one, on the
/// first unlocked track of the right kind or else a new one. A timeline
/// with a fixed `timeline_duration` must hold the clip.
pub fn plan_clip_insertion<C>(
    tracks: &Vec<Track<C>>,
    asset_id: &str,
    asset_kind: Option<AssetKind>,
    target_track_id: Option<&str>,
    start_frame: i64,
    duration_frames: i64,
    timeline_duration: Option<Time>,
    frame_rate: Rational,
) -> (r: Result<ClipInsertion, InsertClipError>)
    requires
        all_item_ids(tracks@).len() < u64::MAX - 2,
        tracks@.len() < u64::MAX - 2,
    ensures
        asset_kind is None ==> (r matches Err(InsertClipError::MissingAsset(missing)) && missing@
            == asset_id@),
        asset_kind == Some(AssetKind::Font) ==> r == Err::<ClipInsertion, InsertClipError>(
            InsertClipError::UnsupportedTimelineAsset(AssetKind::Font),
        ),
        asset_kind is Some && asset_kind->Some_0 != AssetKind::Font ==> ({
            let track_kind = spec_asset_track_kind(asset_kind->Some_0);
            let bad_range = InsertClipError::InvalidNewClipFrameRange {
                start_frame,
                duration_frames,
            };
            if bad_new_clip_frames(start_frame, duration_frames) {
                r == Err::<ClipInsertion, InsertClipError>(bad_range)
            } else if timeline_duration matches Some(d) && timeline_clock_error(d, frame_rate)
                is Some {
                r == Err::<ClipInsertion, InsertClipError>(
                    InsertClipError::Duration(
                        timeline_clock_error(timeline_duration->Some_0, frame_rate)->Some_0,
                    ),
                )
            } else if timeline_duration matches Some(d) && start_frame + duration_frames
                > frames_covering(d, frame_rate) {
                r == Err::<ClipInsertion, InsertClipError>(bad_range)
            } else if target_track_id matches Some(t) && track_index(tracks@, t@)
                == tracks@.len() {
                r matches Err(InsertClipError::MissingTrack(missing)) && missing@
                    == target_track_id->Some_0@
            } else if target_track_id matches Some(t) && is_locked(
                tracks@[track_index(tracks@, t@)],
            ) {
                r matches Err(InsertClipError::LockedTrack(locked)) && locked@
                    == target_track_id->Some_0@
            } else if target_track_id matches Some(t) && tracks@[track_index(tracks@, t@)].kind
                != track_kind {
                r matches Err(InsertClipError::IncompatibleTrack { asset, track, expected, actual })
                    && asset@ == asset_id@ && track@ == target_track_id->Some_0@ && expected
                    == track_kind && actual == tracks@[track_index(
                    tracks@,
                    target_track_id->Some_0@,
                )].kind
            } else if spec_frames(start_frame, frame_rate) is Err {
                r == Err::<ClipInsertion, InsertClipError>(
                    InsertClipError::Duration(spec_frames(start_frame, frame_rate)->Err_0),
                )
            } else if spec_frames(duration_frames, frame_rate) is Err {
                r == Err::<ClipInsertion, InsertClipError>(
                    InsertClipError::Duration(spec_frames(duration_frames, frame_rate)->Err_0),
                )
            } else {
                r matches Ok(plan) && {
                    &&& is_unique_id(asset_id@, all_item_ids(tracks@), plan.item_id@)
                    &&& plan.range == (TimeRange {
                        start: spec_frames(start_frame, frame_rate)->Ok_0,
                        duration: spec_frames(duration_frames, frame_rate)->Ok_0,
                    })
                    &&& plan.track_kind == track_kind
                    &&& match target_track_id {
                        Some(t) => plan.placement == ClipPlacement::OnTrack(
                            track_index(tracks@, t@) as usize,
                        ),
                        None => {
                            let open = open_track_index_from(tracks@, track_kind, 0);
                            if open < tracks@.len() {
                                plan.placement == ClipPlacement::OnTrack(open as usize)
                            } else {
                                plan.placement matches ClipPlacement::NewTrack { id, name }
                                    && is_unique_id(
                                    default_track_id(track_kind),
                                    track_ids(tracks@),
                                    id@,
                                ) && name@ == default_track_name(track_kind)
                            }
                        },
                    }
                }
            }
        }),
{
    let kind = match asset_kind {
        None => return Err(InsertClipError::MissingAsset(asset_id.to_owned())),
        Some(kind) => kind,
    };
    if kind == AssetKind::Font {
        return Err(InsertClipError::UnsupportedTimelineAsset(kind));
    }
    let bad_range = InsertClipError::InvalidNewClipFrameRange { start_frame, duration_frames };
    if start_frame < 0 || duration_frames < 1 {
        return Err(bad_range);
    }
    if start_frame.checked_add(duration_frames).is_none() {
        return Err(bad_range);
    }
    match timeline_duration {
        None => {},
        Some(duration) => match check_clip_frames(duration, frame_rate, start_frame, duration_frames) {
            Ok(()) => {},
            Err(ClipFramesError::Duration(e)) => return Err(InsertClipError::Duration(e)),
            Err(ClipFramesError::InvalidClipFrameRange { .. }) => return Err(bad_range),
        },
    }
    let track_kind = match kind {
        AssetKind::Video => TrackKind::Video,
        AssetKind::Audio => TrackKind::Audio,
        _ => TrackKind::Overlay,
    };
    let target = match target_track_id {
        None => None,
        Some(track_id) => {
            let t = find_track(tracks, track_id);
            if t == tracks.len() {
                return Err(InsertClipError::MissingTrack(track_id.to_owned()));
            }
            if matches!(tracks[t].locked, Some(true)) {
                return Err(InsertClipError::LockedTrack(track_id.to_owned()));
            }
            if tracks[t].kind != track_kind {
                return Err(
                    InsertClipError::IncompatibleTrack {
                        asset: asset_id.to_owned(),
                        track: track_id.to_owned(),
                        expected: track_kind,
                        actual: tracks[t].kind,
                    },
                );
            }
            Some(t)
        },
    };
    let ids = collect_item_ids(tracks);
    let item_id = unique_id(asset_id, ids.as_slice());
    let range = match clip_frames_range(start_frame, duration_frames, frame_rate) {
        Ok(range) => range,
        Err(e) => return Err(InsertClipError::Duration(e)),
    };
    let placement = match target {
        Some(t) => ClipPlacement::OnTrack(t),
        None => {
            let open = find_open_track(tracks, track_kind);
            if open < tracks.len() {
                ClipPlacement::OnTrack(open)
            } else {
                let (base, name) = track_defaults(track_kind);
                let mut track_id_list: Vec<&str> = Vec::new();
                let mut i: usize = 0;
                while i < tracks.len()
                    invariant
                        i <= tracks@.len(),
                        tracks@.len() < u64::MAX - 2,
                        track_id_list@.len() == i,
                        forall|j: int| 0 <= j < i ==> (#[trigger] track_id_list@[j])@
                            == tracks@[j].id@,
                    decreases tracks.len() - i,
                {
                    track_id_list.push(tracks[i].id.as_str());
                    i = i + 1;
                }
                assert(names_of(track_id_list@) =~= track_ids(tracks@));
                let id = unique_id(base, track_id_list.as_slice());
                ClipPlacement::NewTrack { id, name: name.to_owned() }
            }
        },
    };
    Ok(ClipInsertion { item_id, range, track_kind, placement })
}

/// Puts a new clip where a plan placed it (see [`plan_clip_insertion`]):
/// at the end of a track's clips, or alone on a new track of `kind` added
/// at the end.
pub fn place_clip<C>(
    tracks: &mut Vec<Track<C>>,
    placement: ClipPlacement,
    kind: TrackKind,
    item: TrackItem<C>,
)
    requires
        placement matches ClipPlacement::OnTrack(i) ==> i < old(tracks)@.len(),
    ensures
        ({
            let before = old(tracks)@;
            let after = final(tracks)@;
            match placement {
                ClipPlacement::OnTrack(i) => {
                    &&& after.len() == before.len()
                    &&& forall|j: int| 0 <= j < before.len() && j != i ==> after[j] == before[j]
                    &&& same_settings(after[i as int], before[i as int])
                    &&& after[i as int].name == before[i as int].name
                    &&& after[i as int].items@ == before[i as int].items@.push(item)
                },
                ClipPlacement::NewTrack { id, name } => {
                    &&& after.len() == before.len() + 1
                    &&& after.take(before.len() as int) == before
                    &&& after.last().id == id
                    &&& after.last().name == name
                    &&& after.last().kind == kind
                    &&& after.last().enabled is None && after.last().locked is None
                        && after.last().muted is None && after.last().solo is None
                    &&& after.last().items@ == seq![item]
                },
            }
        }),
{
    match placement {
        ClipPlacement::OnTrack(i) => {
            let ghost before = tracks@;
            let mut track = tracks.remove(i);
            track.items.push(item);
            put_back(tracks, i, track);
            assert(tracks@ =~= before.update(i as int, track));
        },
        ClipPlacement::NewTrack { id, name } => {
            let mut items: Vec<TrackItem<C>> = Vec::new();
            items.push(item);
            tracks.push(
                Track {
                    id,
                    name,
                    kind,
                    enabled: None,
                    locked: None,
                    muted: None,
                    solo: None,
                    items,
                },
            );
            assert(tracks@.take(old(tracks)@.len() as int) =~= old(tracks)@);
        },
    }
}

/// Whether a clip uses the asset `asset`.
pub open spec fn uses_asset<C>(item: TrackItem<C>, asset: Seq<char>) -> bool {
    item.asset matches Some(a) && a@ == asset
}

/// `(track id, clip id)` of each clip among `items` that uses `asset`.
pub open spec fn item_references<C>(track_id: Seq<char>, items: Seq<TrackItem<C>>, asset: Seq<char>) -> Seq<
    (Seq<char>, Seq<char>),
>
    decreases items.len(),
{
    if items.len() == 0 {
        Seq::empty()
    } else {
        let rest = item_references(track_id, items.drop_last(), asset);
        if uses_asset(items.last(), asset) {
            rest.push((track_id, items.last().id@))
        } else {
            rest
        }
    }
}

/// `(track id, clip id)` of each clip that uses `asset`, track by track.
pub open spec fn asset_references<C>(tracks: Seq<Track<C>>, asset: Seq<char>) -> Seq<
    (Seq<char>, Seq<char>),
>
    decreases tracks.len(),
{
    if tracks.len() == 0 {
        Seq::empty()
    } else {
        asset_references(tracks.drop_last(), asset) + item_references(
            tracks.last().id@,
            tracks.last().items@,
            asset,
        )
    }
}

/// The `(track id, clip id)` pairs as character sequences.
pub open spec fn pair_views(pairs: Seq<(String, String)>) -> Seq<(Seq<char>, Seq<char>)> {
    pairs.map_values(|p: (String, String)| (p.0@, p.1@))
}

/// The clips that use the asset `asset_id`, as `(track id, clip id)`, in
/// track and clip order.
pub fn clip_asset_references<C>(tracks: &Vec<Track<C>>, asset_id: &str) -> (r: Vec<(String, String)>)
    ensures
        pair_views(r@) == asset_references(tracks@, asset_id@),
{
    let mut found: Vec<(String, String)> = Vec::new();
    let mut i: usize = 0;
    assert(tracks@.take(0) =~= Seq::<Track<C>>::empty());
    while i < tracks.len()
        invariant
            i <= tracks@.len(),
            pair_views(found@) == asset_references(tracks@.take(i as int), asset_id@),
        decreases tracks.len() - i,
    {
        let track = &tracks[i];
        let items = &track.items;
        let mut k: usize = 0;
        proof {
            assert(tracks@.take(i + 1).drop_last() =~= tracks@.take(i as int));
            assert(tracks@.take(i + 1).last() == tracks@[i as int]);
            assert(items@.take(0) =~= Seq::<TrackItem<C>>::empty());
        }
        while k < items.len()
            invariant
                k <= items@.len(),
                items@ == tracks@[i as int].items@,
                *track == tracks@[i as int],
                asset_references(tracks@.take(i + 1), asset_id@) == asset_references(
                    tracks@.take(i as int),
                    asset_id@,
                ) + item_references(track.id@, items@, asset_id@),
                pair_views(found@) == asset_references(tracks@.take(i as int), asset_id@)
                    + item_references(track.id@, items@.take(k as int), asset_id@),
            decreases items.len() - k,
        {
            let item = &items[k];
            let ghost before = pair_views(found@);
            assert(items@.take(k + 1).drop_last() =~= items@.take(k as int));
            assert(items@.take(k + 1).last() == items@[k as int]);
            let uses = match &item.asset {
                Some(asset) => str_eq(asset.as_str(), asset_id),
                None => false,
            };
            if uses {
                found.push((track.id.clone(), item.id.clone()));
                assert(pair_views(found@) =~= before.push((track.id@, item.id@)));
            }
            k = k + 1;
        }
        assert(items@.take(k as int) =~= items@);
        i = i + 1;
    }
    assert(tracks@.take(i as int) =~= tracks@);
    found
}

/// The clips of `items` once the asset `asset` is gone: a dialogue loses
/// its voice, every other clip that uses it is dropped.
pub open spec fn without_asset<C>(items: Seq<TrackItem<C>>, asset: Seq<char>) -> Seq<TrackItem<C>>
    decreases items.len(),
{
    if items.len() == 0 {
        Seq::empty()
    } else {
        let rest = without_asset(items.drop_last(), asset);
        let last = items.last();
        if !uses_asset(last, asset) {
            rest.push(last)
        } else if last.content == ContentKind::Dialogue {
            rest.push(TrackItem { asset: None, ..last })
        } else {
            rest
        }
    }
}

/// The clips of one track once the asset is gone (see [`without_asset`]).
fn drop_asset_from_items<C>(items: Vec<TrackItem<C>>, asset_id: &str) -> (r: Vec<TrackItem<C>>)
    ensures
        r@ == without_asset(items@, asset_id@),
{
    let ghost initial = items@;
    let mut items = items;
    let count = items.len();
    let mut kept: Vec<TrackItem<C>> = Vec::new();
    let mut taken: usize = 0;
    assert(initial.take(0) =~= Seq::<TrackItem<C>>::empty());
    while items.len() > 0
        invariant
            taken <= initial.len() == count,
            items@ == initial.skip(taken as int),
            kept@ == without_asset(initial.take(taken as int), asset_id@),
        decreases items@.len(),
    {
        let mut item = items.remove(0);
        assert(initial.take(taken + 1).drop_last() =~= initial.take(taken as int));
        assert(initial.take(taken + 1).last() == item);
        assert(items@ =~= initial.skip(taken + 1));
        let uses = match &item.asset {
            Some(asset) => str_eq(asset.as_str(), asset_id),
            None => false,
        };
        if !uses {
            kept.push(item);
        } else if item.content == ContentKind::Dialogue {
            item.asset = None;
            kept.push(item);
        }
        taken = taken + 1;
    }
    assert(taken == initial.len());
    assert(initial.take(taken as int) =~= initial);
    kept
}

/// Removes the asset `asset_id` from every track: dialogues lose it as
/// their voice, every other clip that uses it is deleted.
pub fn remove_asset_references<C>(tracks: &mut Vec<Track<C>>, asset_id: &str)
    ensures
        final(tracks)@.len() == old(tracks)@.len(),
        forall|j: int|
            0 <= j < old(tracks)@.len() ==> same_settings(#[trigger] final(tracks)@[j], old(tracks)@[j])
                && final(tracks)@[j].name == old(tracks)@[j].name && final(tracks)@[j].items@
                == without_asset(old(tracks)@[j].items@, asset_id@),
{
    let ghost before = tracks@;
    let mut i: usize = 0;
    while i < tracks.len()
        invariant
            i <= tracks@.len() == before.len(),
            forall|j: int|
                0 <= j < i ==> same_settings(#[trigger] tracks@[j], before[j]) && tracks@[j].name
                    == before[j].name && tracks@[j].items@ == without_asset(
                    before[j].items@,
                    asset_id@,
                ),
            forall|j: int| i <= j < before.len() ==> #[trigger] tracks@[j] == before[j],
        decreases tracks.len() - i,
    {
        let ghost current = tracks@;
        let mut track = tracks.remove(i);
        let mut items: Vec<TrackItem<C>> = Vec::new();
        std::mem::swap(&mut items, &mut track.items);
        track.items = drop_asset_from_items(items, asset_id);
        put_back(tracks, i, track);
        assert(tracks@ =~= current.update(i as int, track));
        i = i + 1;
    }
}

/// `s` with `A-Z` mapped to `a-z`.
pub open spec fn ascii_lowercase(s: Seq<char>) -> Seq<char> {
    s.map_values(|c: char| ascii_lower(c))
}

/// What kind of asset a file with this (lower-case) extension is.
pub open spec fn spec_asset_kind_for_extension(extension: Seq<char>) -> Option<AssetKind> {
    if extension == "mp4"@ || extension == "mov"@ || extension == "mkv"@ || extension == "webm"@
        || extension == "m4v"@ || extension == "avi"@ {
        Some(AssetKind::Video)
    } else if extension == "wav"@ || extension == "mp3"@ || extension == "aac"@ || extension
        == "m4a"@ || extension == "flac"@ || extension == "ogg"@ || extension == "opus"@ {
        Some(AssetKind::Audio)
    } else if extension == "png"@ || extension == "jpg"@ || extension == "jpeg"@ || extension
        == "webp"@ || extension == "pnm"@ || extension == "ppm"@ || extension == "pgm"@
        || extension == "pbm"@ {
        Some(AssetKind::Image)
    } else if extension == "ttf"@ || extension == "otf"@ || extension == "ttc"@ {
        Some(AssetKind::Font)
    } else {
        None
    }
}

/// The kind of asset a file is by its extension, in any ASCII case; `None`
/// for a file without an extension or with an unsupported one.
pub fn asset_kind_for_extension(extension: Option<&str>) -> (r: Option<AssetKind>)
    ensures
        r == (match extension {
            None => None,
            Some(e) => spec_asset_kind_for_extension(ascii_lowercase(e@)),
        }),
{
    let extension = match extension {
        None => return None,
        Some(e) => e,
    };
    let chars = chars_of(extension);
    let mut lower: Vec<char> = Vec::new();
    let mut i: usize = 0;
    while i < chars.len()
        invariant
            i <= chars@.len(),
            lower@ == ascii_lowercase(chars@.take(i as int)),
        decreases chars.len() - i,
    {
        lower.push(lower_char(chars[i]));
        assert(ascii_lowercase(chars@.take(i + 1)) =~= ascii_lowercase(chars@.take(i as int)).push(
            ascii_lower(chars@[i as int]),
        ));
        i = i + 1;
    }
    assert(chars@.take(i as int) =~= chars@);
    let e = &lower;
    if chars_match(e, "mp4") || chars_match(e, "mov") || chars_match(e, "mkv") || chars_match(
        e,
        "webm",
    ) || chars_match(e, "m4v") || chars_match(e, "avi") {
        Some(AssetKind::Video)
    } else if chars_match(e, "wav") || chars_match(e, "mp3") || chars_match(e, "aac")
        || chars_match(e, "m4a") || chars_match(e, "flac") || chars_match(e, "ogg")
        || chars_match(e, "opus") {
        Some(AssetKind::Audio)
    } else if chars_match(e, "png") || chars_match(e, "jpg") || chars_match(e, "jpeg")
        || chars_match(e, "webp") || chars_match(e, "pnm") || chars_match(e, "ppm")
        || chars_match(e, "pgm") || chars_match(e, "pbm") {
        Some(AssetKind::Image)
    } else if chars_match(e, "ttf") || chars_match(e, "otf") || chars_match(e, "ttc") {
        Some(AssetKind::Font)
    } else {
        None
    }
}

/// Where clip `clip_id` is: its track (the first holding it) and its
/// position there.
pub fn clip_indices<C>(tracks: &Vec<Track<C>>, clip_id: &str) -> (r: Result<(usize, usize), TrackError>)
    ensures
        ({
            let s = clip_track_index(tracks@, clip_id@);
            if s == tracks@.len() {
                r matches Err(TrackError::MissingClip(missing)) && missing@ == clip_id@
            } else {
                &&& r == Ok::<(usize, usize), TrackError>(
                    (s as usize, item_index_from(tracks@[s].items@, clip_id@, 0) as usize),
                )
                &&& item_index_from(tracks@[s].items@, clip_id@, 0) < tracks@[s].items@.len()
                &&& tracks@[s].items@[item_index_from(tracks@[s].items@, clip_id@, 0)].id@
                    == clip_id@
            }
        }),
{
    let s = find_clip_track(tracks, clip_id);
    if s == tracks.len() {
        return Err(TrackError::MissingClip(clip_id.to_owned()));
    }
    let k = find_item(&tracks[s].items, clip_id);
    Ok((s, k))
}

/// Refuses to edit a locked track.
pub fn ensure_track_unlocked<C>(tracks: &Vec<Track<C>>, track_index: usize) -> (r: Result<
    (),
    TrackError,
>)
    requires
        track_index < tracks@.len(),
    ensures
        is_locked(tracks@[track_index as int]) ==> (r matches Err(TrackError::LockedTrack(locked))
            && locked@ == tracks@[track_index as int].id@),
        !is_locked(tracks@[track_index as int]) ==> r is Ok,
{
    if matches!(tracks[track_index].locked, Some(true)) {
        return Err(TrackError::LockedTrack(tracks[track_index].id.clone()));
    }
    Ok(())
}

/// What the timeline shows of a track's switches.
#[derive(Clone, Copy, Debug, PartialEq, Eq, Structural)]
pub struct TrackState {
    pub enabled: bool,
    pub locked: bool,
    pub muted: bool,
    pub solo: bool,
    pub item_count: usize,
}

/// A track's switches as shown: enabled unless stored disabled, the others
/// on only when stored on.
pub fn track_state<C>(track: &Track<C>) -> (r: TrackState)
    ensures
        r == (TrackState {
            enabled: track.enabled != Some(false),
            locked: track.locked == Some(true),
            muted: track.muted == Some(true),
            solo: track.solo == Some(true),
            item_count: track.items@.len() as usize,
        }),
{
    TrackState {
        enabled: !matches!(track.enabled, Some(false)),
        locked: matches!(track.locked, Some(true)),
        muted: matches!(track.muted, Some(true)),
        solo: matches!(track.solo, Some(true)),
        item_count: track.items.len(),
    }
}


/// The clips of `items` that are not audio clips, in order.
pub open spec fn visual_items<C>(items: Seq<TrackItem<C>>) -> Seq<TrackItem<C>>
    decreases items.len(),
{
    if items.len() == 0 {
        Seq::empty()
    } else {
        let rest = visual_items(items.drop_last());
        if items.last().content == ContentKind::Audio {
            rest
        } else {
            rest.push(items.last())
        }
    }
}

/// `track` with its audio clips dropped.
fn without_audio_clips<C>(track: Track<C>) -> (r: Track<C>)
    ensures
        same_settings(r, track),
        r.name == track.name,
        r.items@ == visual_items(track.items@),
{
    let mut source = track;
    let ghost initial = source.items@;
    let mut kept: Vec<TrackItem<C>> = Vec::new();
    let mut taken: usize = 0;
    assert(initial.take(0) =~= Seq::<TrackItem<C>>::empty());
    while source.items.len() > 0
        invariant
            taken <= initial.len() == track.items.len(),
            source.items@ == initial.skip(taken as int),
            same_settings(source, track),
            source.name == track.name,
            kept@ == visual_items(initial.take(taken as int)),
        decreases source.items@.len(),
    {
        let item = source.items.remove(0);
        assert(initial.take(taken + 1).drop_last() =~= initial.take(taken as int));
        assert(initial.take(taken + 1).last() == item);
        assert(source.items@ =~= initial.skip(taken + 1));
        if item.content != ContentKind::Audio {
            kept.push(item);
        }
        taken = taken + 1;
    }
    assert(initial.take(taken as int) =~= initial);
    source.items = kept;
    source
}

/// The tracks a companion project shows beside a React entry: every track,
/// with its audio clips dropped (they have nothing to show; the audio mix
/// still takes them from the project itself).
pub fn visual_only_tracks<C>(tracks: Vec<Track<C>>) -> (r: Vec<Track<C>>)
    ensures
        r.len() == tracks.len(),
        forall|j: int|
            0 <= j < tracks.len() ==> {
                &&& same_settings(#[trigger] r@[j], tracks@[j])
                &&& r@[j].name == tracks@[j].name
                &&& r@[j].items@ == visual_items(tracks@[j].items@)
            },
{
    let ghost initial = tracks@;
    let mut rest = tracks;
    let mut result: Vec<Track<C>> = Vec::new();
    while rest.len() > 0
        invariant
            result.len() + rest.len() == initial.len(),
            rest@ == initial.skip(result.len() as int),
            forall|j: int|
                0 <= j < result.len() ==> {
                    &&& same_settings(#[trigger] result@[j], initial[j])
                    &&& result@[j].name == initial[j].name
                    &&& result@[j].items@ == visual_items(initial[j].items@)
                },
        decreases rest@.len(),
    {
        let ghost done = result.len();
        let track = rest.remove(0);
        assert(track == initial[done as int]);
        assert(rest@ =~= initial.skip(done + 1));
        result.push(without_audio_clips(track));
    }
    result
}

} // verus!
