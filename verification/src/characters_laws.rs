//! Laws of removing assets from portraits and keeping dialogue valid.

use crate::characters::{
    checked_speaker, expression_exists, expression_references, expressions_without, pair_views,
    portrait_references, Character,
};
use crate::tracks::{Track, TrackItem};
use vstd::prelude::*;

verus! {

proof fn lemma_no_portrait_references(
    id: Seq<char>,
    expressions: Seq<(Seq<char>, Seq<char>)>,
    asset: Seq<char>,
)
    ensures
        portrait_references(id, expressions_without(expressions, asset), asset).len() == 0,
    decreases expressions.len(),
{
    if expressions.len() > 0 {
        lemma_no_portrait_references(id, expressions.drop_last(), asset);
        let rest = expressions_without(expressions.drop_last(), asset);
        let kept = expressions_without(expressions, asset);
        if kept.len() > rest.len() {
            assert(kept.drop_last() =~= rest);
        } else {
            assert(kept =~= rest);
        }
    }
}

/// Once an asset is removed from the portraits, no expression shows it.
pub proof fn law_removed_asset_leaves_no_expression(
    before: Seq<Character>,
    after: Seq<Character>,
    asset: Seq<char>,
)
    requires
        after.len() == before.len(),
        forall|j: int|
            0 <= j < before.len() ==> {
                let b = before[j];
                let a = #[trigger] after[j];
                &&& a.id == b.id
                &&& match b.portrait {
                    None => a.portrait is None,
                    Some(p) => {
                        let kept = expressions_without(pair_views(p.expressions@), asset);
                        if kept.len() == 0 {
                            a.portrait is None
                        } else {
                            a.portrait matches Some(q) && pair_views(q.expressions@) == kept
                        }
                    },
                }
            },
    ensures
        expression_references(after, asset).len() == 0,
    decreases after.len(),
{
    if after.len() > 0 {
        let n = after.len() - 1;
        assert forall|j: int| 0 <= j < before.drop_last().len() implies {
            let b = before.drop_last()[j];
            let a = #[trigger] after.drop_last()[j];
            &&& a.id == b.id
            &&& match b.portrait {
                None => a.portrait is None,
                Some(p) => {
                    let kept = expressions_without(pair_views(p.expressions@), asset);
                    if kept.len() == 0 {
                        a.portrait is None
                    } else {
                        a.portrait matches Some(q) && pair_views(q.expressions@) == kept
                    }
                },
            }
        } by {
            assert(before.drop_last()[j] == before[j]);
            assert(after.drop_last()[j] == after[j]);
        }
        law_removed_asset_leaves_no_expression(before.drop_last(), after.drop_last(), asset);
        let b = before[n];
        let a = after[n];
        match b.portrait {
            None => {},
            Some(p) => {
                lemma_no_portrait_references(a.id@, pair_views(p.expressions@), asset);
            },
        }
    }
}

/// Once missing expressions are cleared, every dialogue's expression is one
/// its character's portrait has.
pub proof fn law_dialogue_expressions_exist<C>(
    before: Seq<Track<C>>,
    after: Seq<Track<C>>,
    characters: Seq<Character>,
)
    requires
        after.len() == before.len(),
        forall|j: int|
            0 <= j < before.len() ==> {
                let b = before[j];
                let a = #[trigger] after[j];
                &&& a.items@.len() == b.items@.len()
                &&& forall|k: int|
                    0 <= k < b.items@.len() ==> #[trigger] a.items@[k] == (TrackItem {
                        speaker: checked_speaker(b.items@[k].speaker, characters),
                        ..b.items@[k]
                    })
            },
    ensures
        forall|j: int, k: int|
            0 <= j < after.len() && 0 <= k < after[j].items@.len() && (
            #[trigger] after[j].items@[k]).speaker is Some && after[j].items@[k].speaker->Some_0.expression is Some
                ==> expression_exists(
                characters,
                after[j].items@[k].speaker->Some_0.character@,
                after[j].items@[k].speaker->Some_0.expression->Some_0@,
            ),
{
    assert forall|j: int, k: int|
        0 <= j < after.len() && 0 <= k < after[j].items@.len() && (
        #[trigger] after[j].items@[k]).speaker is Some && after[j].items@[k].speaker->Some_0.expression is Some
            implies expression_exists(
            characters,
            after[j].items@[k].speaker->Some_0.character@,
            after[j].items@[k].speaker->Some_0.expression->Some_0@,
        ) by {
        let b = before[j];
        assert(after[j].items@[k] == (TrackItem {
            speaker: checked_speaker(b.items@[k].speaker, characters),
            ..b.items@[k]
        }));
    }
}

} // verus!
