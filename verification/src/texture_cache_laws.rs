//! Laws of the texture cache across frames.

use crate::texture_cache::{
    has_key, is_text_key, key_index, key_index_from, keys_unique, used_by, without_text,
    CachedEntry,
};
use vstd::prelude::*;

verus! {

/// Whether `entry` is one of `entries`.
pub open spec fn is_entry_of<T>(entry: CachedEntry<T>, entries: Seq<CachedEntry<T>>) -> bool {
    exists|i: int| #![trigger entries[i]] 0 <= i < entries.len() && entries[i] == entry
}

/// The entries a frame keeps are entries of the cache used by the frame,
/// and every entry the frame used is kept.
proof fn lemma_used_by_members<T>(entries: Seq<CachedEntry<T>>, generation: u64)
    ensures
        forall|m: int|
            0 <= m < used_by(entries, generation).len() ==> is_entry_of(
                #[trigger] used_by(entries, generation)[m],
                entries,
            ) && used_by(entries, generation)[m].last_used == generation,
        forall|i: int|
            0 <= i < entries.len() && (#[trigger] entries[i]).last_used == generation ==> is_entry_of(
                entries[i],
                used_by(entries, generation),
            ),
    decreases entries.len(),
{
    if entries.len() > 0 {
        let rest = entries.drop_last();
        lemma_used_by_members(rest, generation);
        let kept = used_by(entries, generation);
        let part = used_by(rest, generation);
        let last = entries.len() - 1;
        assert forall|m: int| 0 <= m < kept.len() implies is_entry_of(#[trigger] kept[m], entries)
            && kept[m].last_used == generation by {
            if m < part.len() {
                assert(kept[m] == part[m]);
                assert(is_entry_of(part[m], rest));
                let i = choose|i: int| #![trigger rest[i]] 0 <= i < rest.len() && rest[i] == part[m];
                assert(entries[i] == rest[i]);
            } else {
                assert(entries[last].last_used == generation);
                assert(kept[m] == entries[last]);
            }
        }
        assert forall|i: int|
            0 <= i < entries.len() && (#[trigger] entries[i]).last_used == generation implies is_entry_of(
                entries[i],
                kept,
            ) by {
            if i < rest.len() {
                assert(rest[i] == entries[i]);
                assert(is_entry_of(rest[i], part));
                let m = choose|m: int| #![trigger part[m]] 0 <= m < part.len() && part[m] == rest[i];
                assert(kept[m] == part[m]);
            } else {
                assert(kept[part.len() as int] == entries[i]);
            }
        }
    }
}

/// The entries a change of fonts keeps are the cache's entries that are
/// not text textures, all of them.
proof fn lemma_without_text_members<T>(entries: Seq<CachedEntry<T>>)
    ensures
        forall|m: int|
            0 <= m < without_text(entries).len() ==> is_entry_of(
                #[trigger] without_text(entries)[m],
                entries,
            ) && !is_text_key(without_text(entries)[m].key@),
        forall|i: int|
            0 <= i < entries.len() && !is_text_key((#[trigger] entries[i]).key@) ==> is_entry_of(
                entries[i],
                without_text(entries),
            ),
    decreases entries.len(),
{
    if entries.len() > 0 {
        let rest = entries.drop_last();
        lemma_without_text_members(rest);
        let kept = without_text(entries);
        let part = without_text(rest);
        let last = entries.len() - 1;
        assert forall|m: int| 0 <= m < kept.len() implies is_entry_of(#[trigger] kept[m], entries)
            && !is_text_key(kept[m].key@) by {
            if m < part.len() {
                assert(kept[m] == part[m]);
                assert(is_entry_of(part[m], rest));
                let i = choose|i: int| #![trigger rest[i]] 0 <= i < rest.len() && rest[i] == part[m];
                assert(entries[i] == rest[i]);
            } else {
                assert(!is_text_key(entries[last].key@));
                assert(kept[m] == entries[last]);
            }
        }
        assert forall|i: int|
            0 <= i < entries.len() && !is_text_key((#[trigger] entries[i]).key@) implies is_entry_of(
                entries[i],
                kept,
            ) by {
            if i < rest.len() {
                assert(rest[i] == entries[i]);
                assert(is_entry_of(rest[i], part));
                let m = choose|m: int| #![trigger part[m]] 0 <= m < part.len() && part[m] == rest[i];
                assert(kept[m] == part[m]);
            } else {
                assert(kept[part.len() as int] == entries[i]);
            }
        }
    }
}

proof fn lemma_key_index_of<T>(entries: Seq<CachedEntry<T>>, i: int)
    requires
        keys_unique(entries),
        0 <= i < entries.len(),
    ensures
        key_index(entries, entries[i].key@) == i,
{
    let key = entries[i].key@;
    assert forall|k: int| 0 <= k <= i implies key_index_from(entries, key, k) == i by {
        lemma_index_from_below(entries, key, i, k);
    }
}

proof fn lemma_index_from_below<T>(entries: Seq<CachedEntry<T>>, key: Seq<char>, i: int, k: int)
    requires
        keys_unique(entries),
        0 <= i < entries.len(),
        entries[i].key@ == key,
        0 <= k <= i,
    ensures
        key_index_from(entries, key, k) == i,
    decreases i - k,
{
    if k < i {
        assert(entries[k].key@ != entries[i].key@);
        lemma_index_from_below(entries, key, i, k + 1);
    }
}

/// Ending a frame keeps exactly the textures the frame used: a key stays
/// cached, with the same texture, if and only if the frame marked it or
/// cached it.
pub proof fn law_frame_keeps_what_it_used<T>(entries: Seq<CachedEntry<T>>, generation: u64, key: Seq<char>)
    requires
        keys_unique(entries),
    ensures
        has_key(used_by(entries, generation), key) <==> (has_key(entries, key)
            && entries[key_index(entries, key)].last_used == generation),
        has_key(used_by(entries, generation), key) ==> used_by(entries, generation)[key_index(
            used_by(entries, generation),
            key,
        )].value == entries[key_index(entries, key)].value,
{
    lemma_used_by_members(entries, generation);
    let kept = used_by(entries, generation);
    if has_key(kept, key) {
        let m = choose|m: int| 0 <= m < kept.len() && (#[trigger] kept[m]).key@ == key;
        assert(is_entry_of(kept[m], entries) && kept[m].last_used == generation);
        let i = choose|i: int| #![trigger entries[i]] 0 <= i < entries.len() && entries[i] == kept[m];
        lemma_key_index_of(entries, i);
        assert(has_key(entries, key));
        lemma_kept_unique(entries, generation);
        lemma_key_index_of(kept, m);
    }
    if has_key(entries, key) && entries[key_index(entries, key)].last_used == generation {
        let i = choose|i: int| 0 <= i < entries.len() && (#[trigger] entries[i]).key@ == key;
        lemma_key_index_of(entries, i);
        assert(is_entry_of(entries[i], kept));
        let m = choose|m: int| #![trigger kept[m]] 0 <= m < kept.len() && kept[m] == entries[i];
        assert(kept[m].key@ == key);
    }
}

/// The entries a frame keeps have distinct keys.
proof fn lemma_kept_unique<T>(entries: Seq<CachedEntry<T>>, generation: u64)
    requires
        keys_unique(entries),
    ensures
        keys_unique(used_by(entries, generation)),
    decreases entries.len(),
{
    if entries.len() > 0 {
        let rest = entries.drop_last();
        assert(keys_unique(rest)) by {
            assert forall|i: int, j: int| 0 <= i < j < rest.len() implies (#[trigger] rest[i]).key@
                != (#[trigger] rest[j]).key@ by {
                assert(rest[i] == entries[i] && rest[j] == entries[j]);
            }
        }
        lemma_kept_unique(rest, generation);
        lemma_used_by_members(rest, generation);
        let part = used_by(rest, generation);
        let last = entries[entries.len() - 1];
        if last.last_used == generation {
            let kept = used_by(entries, generation);
            assert forall|a: int, b: int| 0 <= a < b < kept.len() implies (#[trigger] kept[a]).key@
                != (#[trigger] kept[b]).key@ by {
                if b == part.len() {
                    assert(is_entry_of(part[a], rest));
                    let i = choose|i: int| #![trigger rest[i]] 0 <= i < rest.len() && rest[i] == part[a];
                    assert(kept[a] == entries[i]);
                    assert(kept[b] == entries[entries.len() - 1]);
                } else {
                    assert(kept[a] == part[a] && kept[b] == part[b]);
                }
            }
        }
    }
}

/// A texture a frame uses again is not uploaded again: a texture cached
/// before the frame, and marked used by it, is still cached after the frame
/// with the same value (when the fonts did not change).
pub proof fn law_reused_texture_survives<T>(entries: Seq<CachedEntry<T>>, generation: u64, key: Seq<char>)
    requires
        keys_unique(entries),
        has_key(entries, key),
        generation < u64::MAX,
    ensures
        ({
            let next = (generation + 1) as u64;
            let i = key_index(entries, key);
            let marked = entries.update(i, CachedEntry { last_used: next, ..entries[i] });
            let kept = used_by(marked, next);
            &&& has_key(kept, key)
            &&& kept[key_index(kept, key)].value == entries[i].value
        }),
{
    let next = (generation + 1) as u64;
    let i = key_index(entries, key);
    let found = choose|k: int| 0 <= k < entries.len() && (#[trigger] entries[k]).key@ == key;
    lemma_key_index_of(entries, found);
    let marked = entries.update(i, CachedEntry { last_used: next, ..entries[i] });
    assert(keys_unique(marked)) by {
        assert forall|a: int, b: int| 0 <= a < b < marked.len() implies (#[trigger] marked[a]).key@
            != (#[trigger] marked[b]).key@ by {
            assert(marked[a].key == entries[a].key && marked[b].key == entries[b].key);
        }
    }
    assert(marked[i].key@ == key);
    lemma_key_index_of(marked, i);
    assert(has_key(marked, key));
    law_frame_keeps_what_it_used(marked, next, key);
}

/// A change of fonts drops every text texture and keeps every other one.
pub proof fn law_font_change_drops_text_textures<T>(entries: Seq<CachedEntry<T>>, key: Seq<char>)
    ensures
        has_key(without_text(entries), key) <==> (has_key(entries, key) && !is_text_key(key)),
{
    lemma_without_text_members(entries);
    let kept = without_text(entries);
    if has_key(kept, key) {
        let m = choose|m: int| 0 <= m < kept.len() && (#[trigger] kept[m]).key@ == key;
        assert(is_entry_of(kept[m], entries) && !is_text_key(kept[m].key@));
    }
    if has_key(entries, key) && !is_text_key(key) {
        let i = choose|i: int| 0 <= i < entries.len() && (#[trigger] entries[i]).key@ == key;
        assert(is_entry_of(entries[i], kept));
        let m = choose|m: int| #![trigger kept[m]] 0 <= m < kept.len() && kept[m] == entries[i];
        assert(kept[m].key@ == key);
    }
}

} // verus!
