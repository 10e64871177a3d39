//! What an evaluation of the timeline picks: the clips the audio mix plays,
//! the clips a track shows at a time, and the portrait a dialogue shows.

use crate::characters::{character_index_from, lemma_character_index_bounds, pair_views, Character};
use crate::text::str_eq;
use crate::time::{Time, TimeError};
use crate::timeline::{is_active, spec_is_active};
use crate::tracks::{ContentKind, Track, TrackItem};
use vstd::prelude::*;

verus! {

/// Whether a clip has sound: video and audio clips, and dialogue clips with
/// a voice.
pub open spec fn spec_item_has_audio<C>(item: TrackItem<C>) -> bool {
    ||| item.content == ContentKind::Video
    ||| item.content == ContentKind::Audio
    ||| item.content == ContentKind::Dialogue && item.asset is Some
}

pub fn item_has_audio<C>(item: &TrackItem<C>) -> (r: bool)
    ensures
        r == spec_item_has_audio(*item),
{
    match item.content {
        ContentKind::Video | ContentKind::Audio => true,
        ContentKind::Dialogue => item.asset.is_some(),
        _ => false,
    }
}

/// Whether some clip of `items` has sound.
pub open spec fn any_audio<C>(items: Seq<TrackItem<C>>) -> bool {
    exists|k: int| 0 <= k < items.len() && spec_item_has_audio(#[trigger] items[k])
}

/// A soloed track that takes part in the mix: enabled, soloed, and holding
/// a clip with sound.
pub open spec fn is_audible_solo<C>(track: Track<C>) -> bool {
    &&& track.enabled != Some(false)
    &&& track.solo == Some(true)
    &&& any_audio(track.items@)
}

/// Whether any track is an audible solo, which silences every track that
/// is not soloed.
pub open spec fn spec_has_solo<C>(tracks: Seq<Track<C>>) -> bool {
    exists|j: int| 0 <= j < tracks.len() && is_audible_solo(#[trigger] tracks[j])
}

/// Whether the mix takes clips from `track`: it is enabled and not muted,
/// and soloed when some track is an audible solo.
pub open spec fn track_is_heard<C>(track: Track<C>, has_solo: bool) -> bool {
    &&& track.enabled != Some(false)
    &&& track.muted != Some(true)
    &&& (has_solo ==> track.solo == Some(true))
}

/// Whether the mix plays a clip of a heard track: it is enabled and has
/// sound.
pub open spec fn item_is_heard<C>(item: TrackItem<C>) -> bool {
    item.enabled != Some(false) && spec_item_has_audio(item)
}

/// `(track, clip)` positions of the heard clips of `items`, the clips of
/// track `j`, in order.
pub open spec fn heard_in_track<C>(j: int, items: Seq<TrackItem<C>>) -> Seq<(int, int)>
    decreases items.len(),
{
    if items.len() == 0 {
        Seq::empty()
    } else {
        let rest = heard_in_track(j, items.drop_last());
        if item_is_heard(items.last()) {
            rest.push((j, items.len() - 1))
        } else {
            rest
        }
    }
}

/// `(track, clip)` positions of every clip the mix plays, track by track and
/// clip by clip.
pub open spec fn heard_clips<C>(tracks: Seq<Track<C>>, has_solo: bool) -> Seq<(int, int)>
    decreases tracks.len(),
{
    if tracks.len() == 0 {
        Seq::empty()
    } else {
        let rest = heard_clips(tracks.drop_last(), has_solo);
        if track_is_heard(tracks.last(), has_solo) {
            rest + heard_in_track(tracks.len() - 1, tracks.last().items@)
        } else {
            rest
        }
    }
}

/// Positions as mathematical integers.
pub open spec fn positions(pairs: Seq<(usize, usize)>) -> Seq<(int, int)> {
    pairs.map_values(|p: (usize, usize)| (p.0 as int, p.1 as int))
}

/// Whether some clip of `items` has sound.
fn has_audio_clip<C>(items: &Vec<TrackItem<C>>) -> (r: bool)
    ensures
        r == any_audio(items@),
{
    let mut k: usize = 0;
    while k < items.len()
        invariant
            k <= items@.len(),
            forall|m: int| 0 <= m < k ==> !spec_item_has_audio(#[trigger] items@[m]),
        decreases items.len() - k,
    {
        if item_has_audio(&items[k]) {
            return true;
        }
        k = k + 1;
    }
    false
}

/// Whether any track is an audible solo (see [`spec_has_solo`]).
pub fn has_solo<C>(tracks: &Vec<Track<C>>) -> (r: bool)
    ensures
        r == spec_has_solo(tracks@),
{
    let mut j: usize = 0;
    while j < tracks.len()
        invariant
            j <= tracks@.len(),
            forall|m: int| 0 <= m < j ==> !is_audible_solo(#[trigger] tracks@[m]),
        decreases tracks.len() - j,
    {
        let track = &tracks[j];
        if !matches!(track.enabled, Some(false)) && matches!(track.solo, Some(true))
            && has_audio_clip(&track.items) {
            assert(is_audible_solo(tracks@[j as int]));
            return true;
        }
        j = j + 1;
    }
    false
}

/// The `(track, clip)` positions of the clips the audio mix plays, in track
/// order and clip order (see [`heard_clips`]).
pub fn heard_clip_positions<C>(tracks: &Vec<Track<C>>) -> (r: Vec<(usize, usize)>)
    ensures
        positions(r@) == heard_clips(tracks@, spec_has_solo(tracks@)),
{
    let solo = has_solo(tracks);
    let mut result: Vec<(usize, usize)> = Vec::new();
    let mut j: usize = 0;
    while j < tracks.len()
        invariant
            j <= tracks@.len(),
            solo == spec_has_solo(tracks@),
            positions(result@) == heard_clips(tracks@.take(j as int), solo),
        decreases tracks.len() - j,
    {
        let track = &tracks[j];
        assert(tracks@.take(j + 1).drop_last() =~= tracks@.take(j as int));
        assert(tracks@.take(j + 1).last() == *track);
        if !matches!(track.enabled, Some(false)) && !matches!(track.muted, Some(true)) && (!solo
            || matches!(track.solo, Some(true))) {
            let ghost before = positions(result@);
            let mut k: usize = 0;
            while k < track.items.len()
                invariant
                    k <= track.items@.len(),
                    j < tracks@.len(),
                    positions(result@) == before + heard_in_track(
                        j as int,
                        track.items@.take(k as int),
                    ),
                decreases track.items.len() - k,
            {
                let item = &track.items[k];
                assert(track.items@.take(k + 1).drop_last() =~= track.items@.take(k as int));
                assert(track.items@.take(k + 1).last() == *item);
                if !matches!(item.enabled, Some(false)) && item_has_audio(item) {
                    let ghost earlier = result@;
                    result.push((j, k));
                    assert(positions(result@) =~= positions(earlier).push((j as int, k as int)));
                    assert(heard_in_track(j as int, track.items@.take(k + 1)) == heard_in_track(
                        j as int,
                        track.items@.take(k as int),
                    ).push((j as int, k as int)));
                    assert(positions(result@) =~= before + heard_in_track(
                        j as int,
                        track.items@.take(k + 1),
                    ));
                } else {
                    assert(heard_in_track(j as int, track.items@.take(k + 1)) == heard_in_track(
                        j as int,
                        track.items@.take(k as int),
                    ));
                }
                k = k + 1;
            }
            assert(track.items@.take(k as int) =~= track.items@);
        }
        j = j + 1;
    }
    assert(tracks@.take(j as int) =~= tracks@);
    result
}

/// Whether a time can be evaluated: a valid time that is not negative.
pub open spec fn spec_is_evaluation_time(time: Time) -> bool {
    time.spec_is_valid() && time.value >= 0
}

pub fn is_evaluation_time(time: Time) -> (r: bool)
    ensures
        r == spec_is_evaluation_time(time),
{
    time.is_valid() && time.value >= 0
}

/// The first track with id `id`, unless there is none or it is switched
/// off: the track whose clips a single-track evaluation shows.
pub open spec fn spec_track_for_layers<C>(tracks: Seq<Track<C>>, id: Seq<char>) -> Option<int> {
    let i = crate::tracks::track_index(tracks, id);
    if i < tracks.len() && tracks[i].enabled != Some(false) {
        Some(i)
    } else {
        None
    }
}

pub fn track_for_layers<C>(tracks: &Vec<Track<C>>, id: &str) -> (r: Option<usize>)
    ensures
        r matches Some(i) ==> spec_track_for_layers(tracks@, id@) == Some(i as int),
        r is None ==> spec_track_for_layers(tracks@, id@) is None,
{
    let i = crate::tracks::find_track(tracks, id);
    if i < tracks.len() && !matches!(tracks[i].enabled, Some(false)) {
        Some(i)
    } else {
        None
    }
}

/// Whether a clip is shown at `time`: it is enabled and `time` falls in its
/// range (an enabled clip whose range cannot be compared with `time` is an
/// error).
pub open spec fn spec_item_is_shown<C>(item: TrackItem<C>, time: Time) -> Result<bool, TimeError> {
    if item.enabled == Some(false) {
        Ok(false)
    } else {
        spec_is_active(item.range, time)
    }
}

pub fn item_is_shown<C>(item: &TrackItem<C>, time: Time) -> (r: Result<bool, TimeError>)
    ensures
        r == spec_item_is_shown(*item, time),
{
    if matches!(item.enabled, Some(false)) {
        Ok(false)
    } else {
        is_active(item.range, time)
    }
}

/// Why a dialogue's portrait cannot be drawn.
#[derive(Clone, Debug, PartialEq, Eq)]
pub enum DialogueError {
    MissingCharacter(String),
    MissingExpression { character: String, expression: String },
}

/// The first expression named `name` at or after `k`, or the number of
/// expressions.
pub open spec fn expression_index_from(expressions: Seq<(Seq<char>, Seq<char>)>, name: Seq<char>, k: int) -> int
    decreases expressions.len() - k,
{
    if k < 0 || k >= expressions.len() {
        expressions.len() as int
    } else if expressions[k].0 == name {
        k
    } else {
        expression_index_from(expressions, name, k + 1)
    }
}

proof fn lemma_expression_index_bounds(expressions: Seq<(Seq<char>, Seq<char>)>, name: Seq<char>, k: int)
    requires
        0 <= k <= expressions.len(),
    ensures
        k <= expression_index_from(expressions, name, k) <= expressions.len(),
    decreases expressions.len() - k,
{
    if k < expressions.len() && expressions[k].0 != name {
        lemma_expression_index_bounds(expressions, name, k + 1);
    }
}

/// The portrait asset a dialogue line of `character` shows with
/// `expression` (the portrait's default expression when `None`): none for a
/// character without a portrait, an error for an unknown character or an
/// expression the portrait lacks.
pub fn portrait_asset<'a>(characters: &'a Vec<Character>, character: &str, expression: Option<&str>) -> (r:
    Result<Option<&'a String>, DialogueError>)
    ensures
        ({
            let i = character_index_from(characters@, character@, 0);
            if i >= characters@.len() {
                r matches Err(DialogueError::MissingCharacter(c)) && c@ == character@
            } else {
                match characters@[i].portrait {
                    None => r == Ok::<Option<&'a String>, DialogueError>(None),
                    Some(portrait) => {
                        let name = match expression {
                            Some(e) => e@,
                            None => portrait.default_expression@,
                        };
                        let pairs = pair_views(portrait.expressions@);
                        let k = expression_index_from(pairs, name, 0);
                        if k >= pairs.len() {
                            r matches Err(DialogueError::MissingExpression { character: c, expression: e })
                                && c@ == character@ && e@ == name
                        } else {
                            r matches Ok(Some(asset)) && asset@ == pairs[k].1
                        }
                    },
                }
            }
        }),
{
    proof {
        lemma_character_index_bounds(characters@, character@, 0);
    }
    let mut i: usize = 0;
    while i < characters.len()
        invariant
            i <= characters@.len(),
            character_index_from(characters@, character@, i as int) == character_index_from(
                characters@,
                character@,
                0,
            ),
        ensures
            i <= characters@.len(),
            character_index_from(characters@, character@, i as int) == character_index_from(
                characters@,
                character@,
                0,
            ),
            i < characters@.len() ==> characters@[i as int].id@ == character@,
        decreases characters.len() - i,
    {
        if str_eq(characters[i].id.as_str(), character) {
            break;
        }
        i = i + 1;
    }
    if i == characters.len() {
        return Err(DialogueError::MissingCharacter(character.to_owned()));
    }
    assert(character_index_from(characters@, character@, i as int) == i);
    let portrait = match &characters[i].portrait {
        None => return Ok(None),
        Some(portrait) => portrait,
    };
    assert(characters@[i as int].portrait == Some(*portrait));
    let name: &str = match expression {
        Some(e) => e,
        None => portrait.default_expression.as_str(),
    };
    let ghost pairs = pair_views(portrait.expressions@);
    proof {
        lemma_expression_index_bounds(pairs, name@, 0);
    }
    let mut k: usize = 0;
    while k < portrait.expressions.len()
        invariant
            k <= portrait.expressions@.len(),
            pairs == pair_views(portrait.expressions@),
            expression_index_from(pairs, name@, k as int) == expression_index_from(pairs, name@, 0),
            i < characters@.len(),
            characters@[i as int].portrait == Some(*portrait),
            character_index_from(characters@, character@, 0) == i,
            name@ == match expression {
                Some(e) => e@,
                None => portrait.default_expression@,
            },
        decreases portrait.expressions.len() - k,
    {
        assert(pairs[k as int] == (portrait.expressions@[k as int].0@, portrait.expressions@[k as int].1@));
        if str_eq(portrait.expressions[k].0.as_str(), name) {
            assert(expression_index_from(pairs, name@, k as int) == k);
            return Ok(Some(&portrait.expressions[k].1));
        }
        k = k + 1;
    }
    Err(
        DialogueError::MissingExpression {
            character: character.to_owned(),
            expression: name.to_owned(),
        },
    )
}

} // verus!
