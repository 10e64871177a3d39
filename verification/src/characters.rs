//! Character portraits and the dialogue clips that show them: which
//! expressions use an asset, what a portrait keeps once an asset is removed,
//! and clearing dialogue expressions that no longer exist.

use crate::text::str_eq;
use crate::naming::names_of;
use crate::tracks::{asset_references, clip_asset_references, same_settings, Speaker, Track, TrackItem};
use vstd::prelude::*;

verus! {

/// A character's portrait: the expression shown by default and the asset of
/// each expression, as `(expression, asset id)` in the project's order
/// (by expression name).
#[derive(Clone, Debug)]
pub struct Portrait {
    pub default_expression: String,
    pub expressions: Vec<(String, String)>,
}

/// A character that dialogue clips can show.
#[derive(Clone, Debug)]
pub struct Character {
    pub id: String,
    pub portrait: Option<Portrait>,
}

/// `(expression, asset id)` pairs as character sequences.
pub open spec fn pair_views(pairs: Seq<(String, String)>) -> Seq<(Seq<char>, Seq<char>)> {
    pairs.map_values(|p: (String, String)| (p.0@, p.1@))
}

/// The expressions whose asset is not `asset`, in order.
pub open spec fn expressions_without(expressions: Seq<(Seq<char>, Seq<char>)>, asset: Seq<char>) -> Seq<
    (Seq<char>, Seq<char>),
>
    decreases expressions.len(),
{
    if expressions.len() == 0 {
        Seq::empty()
    } else {
        let rest = expressions_without(expressions.drop_last(), asset);
        if expressions.last().1 == asset {
            rest
        } else {
            rest.push(expressions.last())
        }
    }
}

/// Whether a portrait has an expression named `name`.
pub open spec fn has_expression(expressions: Seq<(Seq<char>, Seq<char>)>, name: Seq<char>) -> bool {
    exists|k: int| 0 <= k < expressions.len() && (#[trigger] expressions[k]).0 == name
}

/// `(character id, expression)` of each expression among `expressions`
/// that shows `asset`.
pub open spec fn portrait_references(
    id: Seq<char>,
    expressions: Seq<(Seq<char>, Seq<char>)>,
    asset: Seq<char>,
) -> Seq<(Seq<char>, Seq<char>)>
    decreases expressions.len(),
{
    if expressions.len() == 0 {
        Seq::empty()
    } else {
        let rest = portrait_references(id, expressions.drop_last(), asset);
        if expressions.last().1 == asset {
            rest.push((id, expressions.last().0))
        } else {
            rest
        }
    }
}

/// `(character id, expression)` of each portrait expression showing `asset`,
/// character by character.
pub open spec fn expression_references(characters: Seq<Character>, asset: Seq<char>) -> Seq<
    (Seq<char>, Seq<char>),
>
    decreases characters.len(),
{
    if characters.len() == 0 {
        Seq::empty()
    } else {
        let c = characters.last();
        expression_references(characters.drop_last(), asset) + match c.portrait {
            None => Seq::empty(),
            Some(p) => portrait_references(c.id@, pair_views(p.expressions@), asset),
        }
    }
}

/// The portrait expressions that show the asset `asset`, as
/// `(character id, expression)`, character by character.
pub fn character_asset_references(characters: &Vec<Character>, asset: &str) -> (r: Vec<
    (String, String),
>)
    ensures
        pair_views(r@) == expression_references(characters@, asset@),
{
    let mut found: Vec<(String, String)> = Vec::new();
    let mut i: usize = 0;
    assert(characters@.take(0) =~= Seq::<Character>::empty());
    while i < characters.len()
        invariant
            i <= characters@.len(),
            pair_views(found@) == expression_references(characters@.take(i as int), asset@),
        decreases characters.len() - i,
    {
        let character = &characters[i];
        proof {
            assert(characters@.take(i + 1).drop_last() =~= characters@.take(i as int));
            assert(characters@.take(i + 1).last() == characters@[i as int]);
        }
        match &character.portrait {
            None => {
                assert(pair_views(found@) =~= expression_references(characters@.take(i + 1), asset@));
            },
            Some(portrait) => {
                let expressions = &portrait.expressions;
                let ghost start = pair_views(found@);
                let mut k: usize = 0;
                assert(pair_views(expressions@.take(0)) =~= Seq::<(Seq<char>, Seq<char>)>::empty());
                while k < expressions.len()
                    invariant
                        k <= expressions@.len(),
                        pair_views(found@) == start + portrait_references(
                            character.id@,
                            pair_views(expressions@.take(k as int)),
                            asset@,
                        ),
                    decreases expressions.len() - k,
                {
                    let ghost views = pair_views(expressions@.take(k + 1));
                    assert(views.drop_last() =~= pair_views(expressions@.take(k as int)));
                    assert(views.last() == (expressions@[k as int].0@, expressions@[k as int].1@));
                    if str_eq(expressions[k].1.as_str(), asset) {
                        let ghost before = pair_views(found@);
                        found.push((character.id.clone(), expressions[k].0.clone()));
                        assert(pair_views(found@) =~= before.push(
                            (character.id@, expressions@[k as int].0@),
                        ));
                    }
                    k = k + 1;
                }
                assert(expressions@.take(k as int) =~= expressions@);
            },
        }
        i = i + 1;
    }
    assert(characters@.take(i as int) =~= characters@);
    found
}

/// The expressions of a portrait whose asset is not `asset`.
fn drop_expressions(expressions: Vec<(String, String)>, asset: &str) -> (r: Vec<(String, String)>)
    ensures
        pair_views(r@) == expressions_without(pair_views(expressions@), asset@),
{
    let ghost initial = expressions@;
    let mut rest = expressions;
    let count = rest.len();
    let mut kept: Vec<(String, String)> = Vec::new();
    let mut taken: usize = 0;
    assert(pair_views(initial.take(0)) =~= Seq::<(Seq<char>, Seq<char>)>::empty());
    while rest.len() > 0
        invariant
            taken <= initial.len() == count,
            rest@ == initial.skip(taken as int),
            pair_views(kept@) == expressions_without(pair_views(initial.take(taken as int)), asset@),
        decreases rest@.len(),
    {
        let pair = rest.remove(0);
        let ghost views = pair_views(initial.take(taken + 1));
        assert(views.drop_last() =~= pair_views(initial.take(taken as int)));
        assert(initial.take(taken + 1).last() == pair);
        assert(views.last() == (pair.0@, pair.1@));
        assert(rest@ =~= initial.skip(taken + 1));
        if !str_eq(pair.1.as_str(), asset) {
            let ghost before = kept@;
            kept.push(pair);
            assert(pair_views(kept@) =~= pair_views(before).push((pair.0@, pair.1@)));
        }
        taken = taken + 1;
    }
    assert(taken == initial.len());
    assert(initial.take(taken as int) =~= initial);
    kept
}

/// Whether the characters of `name` spell an expression of `expressions`.
fn find_expression(expressions: &Vec<(String, String)>, name: &str) -> (b: bool)
    ensures
        b == has_expression(pair_views(expressions@), name@),
{
    let mut k: usize = 0;
    while k < expressions.len()
        invariant
            k <= expressions@.len(),
            forall|j: int| 0 <= j < k ==> (#[trigger] expressions@[j]).0@ != name@,
        decreases expressions.len() - k,
    {
        if str_eq(expressions[k].0.as_str(), name) {
            assert(pair_views(expressions@)[k as int].0 == name@);
            return true;
        }
        k = k + 1;
    }
    assert forall|j: int| 0 <= j < pair_views(expressions@).len() implies (
    #[trigger] pair_views(expressions@)[j]).0 != name@ by {
        assert(pair_views(expressions@)[j].0 == expressions@[j].0@);
    }
    false
}

/// The portrait once the asset `asset` is gone: its expressions showing the
/// asset are dropped; with none left the portrait goes, and a default
/// expression that went is replaced by the first one left.
pub fn portrait_without_asset(portrait: Portrait, asset: &str) -> (r: Option<Portrait>)
    ensures
        ({
            let kept = expressions_without(pair_views(portrait.expressions@), asset@);
            if kept.len() == 0 {
                r is None
            } else {
                r matches Some(p) && pair_views(p.expressions@) == kept && p.default_expression@
                    == (if has_expression(kept, portrait.default_expression@) {
                    portrait.default_expression@
                } else {
                    kept[0].0
                })
            }
        }),
{
    let expressions = drop_expressions(portrait.expressions, asset);
    if expressions.len() == 0 {
        return None;
    }
    let keeps_default = find_expression(&expressions, portrait.default_expression.as_str());
    let default_expression = if keeps_default {
        portrait.default_expression
    } else {
        let first = expressions[0].0.clone();
        assert(pair_views(expressions@)[0].0 == expressions@[0].0@);
        first
    };
    Some(Portrait { default_expression, expressions })
}

/// Removes the asset `asset` from every character's portrait (see
/// [`portrait_without_asset`]).
pub fn remove_portrait_asset(characters: &mut Vec<Character>, asset: &str)
    ensures
        final(characters)@.len() == old(characters)@.len(),
        forall|j: int|
            0 <= j < old(characters)@.len() ==> {
                let before = old(characters)@[j];
                let after = #[trigger] final(characters)@[j];
                &&& after.id == before.id
                &&& match before.portrait {
                    None => after.portrait is None,
                    Some(p) => {
                        let kept = expressions_without(pair_views(p.expressions@), asset@);
                        if kept.len() == 0 {
                            after.portrait is None
                        } else {
                            after.portrait matches Some(q) && pair_views(q.expressions@) == kept
                                && q.default_expression@ == (if has_expression(
                                kept,
                                p.default_expression@,
                            ) {
                                p.default_expression@
                            } else {
                                kept[0].0
                            })
                        }
                    },
                }
            },
{
    let ghost before = characters@;
    let mut i: usize = 0;
    while i < characters.len()
        invariant
            i <= characters@.len() == before.len(),
            forall|j: int| i <= j < before.len() ==> #[trigger] characters@[j] == before[j],
            forall|j: int|
                0 <= j < i ==> {
                    let b = before[j];
                    let a = #[trigger] characters@[j];
                    &&& a.id == b.id
                    &&& match b.portrait {
                        None => a.portrait is None,
                        Some(p) => {
                            let kept = expressions_without(pair_views(p.expressions@), asset@);
                            if kept.len() == 0 {
                                a.portrait is None
                            } else {
                                a.portrait matches Some(q) && pair_views(q.expressions@) == kept
                                    && q.default_expression@ == (if has_expression(
                                    kept,
                                    p.default_expression@,
                                ) {
                                    p.default_expression@
                                } else {
                                    kept[0].0
                                })
                            }
                        },
                    }
                },
        decreases characters.len() - i,
    {
        let ghost current = characters@;
        let mut character = characters.remove(i);
        let portrait = character.portrait;
        character.portrait = match portrait {
            None => None,
            Some(p) => portrait_without_asset(p, asset),
        };
        characters.insert(i, character);
        assert(characters@ =~= current.update(i as int, character));
        i = i + 1;
    }
}

/// The first character with id `id` at or after `i`, or the number of
/// characters.
pub open spec fn character_index_from(characters: Seq<Character>, id: Seq<char>, i: int) -> int
    decreases characters.len() - i,
{
    if i < 0 || i >= characters.len() {
        characters.len() as int
    } else if characters[i].id@ == id {
        i
    } else {
        character_index_from(characters, id, i + 1)
    }
}

/// Whether the character `character` has a portrait with the expression
/// `expression`.
pub open spec fn expression_exists(characters: Seq<Character>, character: Seq<char>, expression: Seq<
    char,
>) -> bool {
    let i = character_index_from(characters, character, 0);
    &&& i < characters.len()
    &&& characters[i].portrait matches Some(p) && has_expression(
        pair_views(p.expressions@),
        expression,
    )
}

/// A dialogue's speaker with an expression the character no longer has
/// cleared.
pub open spec fn checked_speaker(speaker: Option<Speaker>, characters: Seq<Character>) -> Option<
    Speaker,
> {
    match speaker {
        Some(s) => if s.expression matches Some(e) && !expression_exists(
            characters,
            s.character@,
            e@,
        ) {
            Some(Speaker { expression: None, ..s })
        } else {
            Some(s)
        },
        None => None,
    }
}

pub(crate) proof fn lemma_character_index_bounds(characters: Seq<Character>, id: Seq<char>, i: int)
    requires
        0 <= i <= characters.len(),
    ensures
        i <= character_index_from(characters, id, i) <= characters.len(),
    decreases characters.len() - i,
{
    if i < characters.len() && characters[i].id@ != id {
        lemma_character_index_bounds(characters, id, i + 1);
    }
}

/// Whether `expression` exists for `character` (see [`expression_exists`]).
fn has_character_expression(characters: &Vec<Character>, character: &str, expression: &str) -> (b:
    bool)
    ensures
        b == expression_exists(characters@, character@, expression@),
{
    proof {
        lemma_character_index_bounds(characters@, character@, 0);
    }
    let mut i: usize = 0;
    while i < characters.len()
        invariant
            i <= characters@.len(),
            character_index_from(characters@, character@, i as int) == character_index_from(
                characters@,
                character@,
                0,
            ),
        decreases characters.len() - i,
    {
        if str_eq(characters[i].id.as_str(), character) {
            return match &characters[i].portrait {
                None => false,
                Some(portrait) => find_expression(&portrait.expressions, expression),
            };
        }
        i = i + 1;
    }
    false
}

/// Clears, on every dialogue clip, an expression its character no longer
/// has (see [`checked_speaker`]); everything else stays.
pub fn clear_missing_expressions<C>(tracks: &mut Vec<Track<C>>, characters: &Vec<Character>)
    ensures
        final(tracks)@.len() == old(tracks)@.len(),
        forall|j: int|
            0 <= j < old(tracks)@.len() ==> {
                let before = old(tracks)@[j];
                let after = #[trigger] final(tracks)@[j];
                &&& same_settings(after, before)
                &&& after.name == before.name
                &&& after.items@.len() == before.items@.len()
                &&& forall|k: int|
                    0 <= k < before.items@.len() ==> #[trigger] after.items@[k] == (TrackItem {
                        speaker: checked_speaker(before.items@[k].speaker, characters@),
                        ..before.items@[k]
                    })
            },
{
    let ghost before = tracks@;
    let mut i: usize = 0;
    while i < tracks.len()
        invariant
            i <= tracks@.len() == before.len(),
            forall|j: int| i <= j < before.len() ==> #[trigger] tracks@[j] == before[j],
            forall|j: int|
                0 <= j < i ==> {
                    let b = before[j];
                    let a = #[trigger] tracks@[j];
                    &&& same_settings(a, b)
                    &&& a.name == b.name
                    &&& a.items@.len() == b.items@.len()
                    &&& forall|k: int|
                        0 <= k < b.items@.len() ==> #[trigger] a.items@[k] == (TrackItem {
                            speaker: checked_speaker(b.items@[k].speaker, characters@),
                            ..b.items@[k]
                        })
                },
        decreases tracks.len() - i,
    {
        let ghost current = tracks@;
        let mut track = tracks.remove(i);
        let ghost initial = track.items@;
        let mut k: usize = 0;
        while k < track.items.len()
            invariant
                k <= track.items@.len() == initial.len(),
                same_settings(track, before[i as int]),
                track.name == before[i as int].name,
                initial == before[i as int].items@,
                forall|m: int| k <= m < initial.len() ==> #[trigger] track.items@[m] == initial[m],
                forall|m: int|
                    0 <= m < k ==> #[trigger] track.items@[m] == (TrackItem {
                        speaker: checked_speaker(initial[m].speaker, characters@),
                        ..initial[m]
                    }),
            decreases initial.len() - k,
        {
            let missing = match &track.items[k].speaker {
                Some(speaker) => match &speaker.expression {
                    Some(expression) => !has_character_expression(
                        characters,
                        speaker.character.as_str(),
                        expression.as_str(),
                    ),
                    None => false,
                },
                None => false,
            };
            if missing {
                let ghost items = track.items@;
                let mut item = track.items.remove(k);
                let speaker = match item.speaker {
                    Some(speaker) => Some(Speaker { expression: None, ..speaker }),
                    None => None,
                };
                item.speaker = speaker;
                track.items.insert(k, item);
                assert(track.items@ =~= items.update(k as int, item));
            }
            k = k + 1;
        }
        tracks.insert(i, track);
        assert(tracks@ =~= current.update(i as int, track));
        i = i + 1;
    }
}


/// Why an asset cannot be removed.
#[derive(Clone, Debug, PartialEq, Eq)]
pub enum AssetRemovalError {
    /// The project has no asset with this id.
    MissingAsset(String),
    /// Clips, as `(track id, clip id)`, and portrait expressions, as
    /// `(character id, expression)`, still use the asset.
    AssetInUse { asset: String, clips: Vec<(String, String)>, expressions: Vec<(String, String)> },
}

/// Whether the asset `asset` may be removed from a project whose assets are
/// `asset_ids`: it must exist, and unless its references are to be removed
/// with it, no clip or portrait expression may use it.
pub fn check_asset_removal<C>(
    asset_ids: &[&str],
    tracks: &Vec<Track<C>>,
    characters: &Vec<Character>,
    asset: &str,
    remove_references: bool,
) -> (r: Result<(), AssetRemovalError>)
    ensures
        !names_of(asset_ids@).contains(asset@) ==> (r matches Err(
            AssetRemovalError::MissingAsset(missing),
        ) && missing@ == asset@),
        names_of(asset_ids@).contains(asset@) ==> ({
            let clips = asset_references(tracks@, asset@);
            let expressions = expression_references(characters@, asset@);
            if !remove_references && clips.len() + expressions.len() > 0 {
                r matches Err(AssetRemovalError::AssetInUse { asset: a, clips: c, expressions: e })
                    && a@ == asset@ && crate::tracks::pair_views(c@) == clips && pair_views(e@)
                    == expressions
            } else {
                r is Ok
            }
        }),
{
    let mut i: usize = 0;
    while i < asset_ids.len()
        invariant
            i <= asset_ids@.len(),
            forall|k: int| 0 <= k < i ==> (#[trigger] asset_ids@[k])@ != asset@,
        ensures
            i <= asset_ids@.len(),
            forall|k: int| 0 <= k < i ==> (#[trigger] asset_ids@[k])@ != asset@,
            i < asset_ids@.len() ==> asset_ids@[i as int]@ == asset@,
        decreases asset_ids.len() - i,
    {
        if str_eq(asset_ids[i], asset) {
            break;
        }
        i = i + 1;
    }
    if i == asset_ids.len() {
        assert(!names_of(asset_ids@).contains(asset@)) by {
            if names_of(asset_ids@).contains(asset@) {
                let k = choose|k: int| 0 <= k < names_of(asset_ids@).len() && names_of(asset_ids@)[k] == asset@;
                assert(asset_ids@[k]@ == asset@);
            }
        }
        return Err(AssetRemovalError::MissingAsset(asset.to_owned()));
    }
    assert(names_of(asset_ids@)[i as int] == asset@);
    let clips = clip_asset_references(tracks, asset);
    let expressions = character_asset_references(characters, asset);
    if !remove_references && (clips.len() > 0 || expressions.len() > 0) {
        return Err(AssetRemovalError::AssetInUse { asset: asset.to_owned(), clips, expressions });
    }
    Ok(())
}

} // verus!
