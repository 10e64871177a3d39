//! The renderer's texture cache: the textures of one frame's layers, kept
//! for the next frame when it uses them again and dropped when it does not.
//! Every frame has a generation; a texture is marked with the last
//! generation that used it.

use crate::text::str_eq;
use vstd::prelude::*;

verus! {

/// The key prefix of the textures rasterized from text, which depend on the
/// loaded fonts.
pub open spec fn text_prefix() -> Seq<char> {
    seq!['t', 'e', 'x', 't', '\0']
}

/// Whether a key names a texture rasterized from text.
pub open spec fn is_text_key(key: Seq<char>) -> bool {
    key.len() >= 5 && key.subrange(0, 5) == text_prefix()
}

/// A cached texture.
pub struct CachedEntry<T> {
    pub key: String,
    pub value: T,
    /// The generation of the last frame that used the texture.
    pub last_used: u64,
}

/// The cache's contents: its entries in order, the current frame's
/// generation, and the number of fonts the text textures were drawn with.
pub struct CacheModel<T> {
    pub entries: Seq<CachedEntry<T>>,
    pub generation: u64,
    pub font_count: usize,
}

/// No key is cached twice.
pub open spec fn keys_unique<T>(entries: Seq<CachedEntry<T>>) -> bool {
    forall|i: int, j: int|
        0 <= i < j < entries.len() ==> (#[trigger] entries[i]).key@ != (#[trigger] entries[j]).key@
}

/// The first entry with key `key` at or after `i`, or the number of entries.
pub open spec fn key_index_from<T>(entries: Seq<CachedEntry<T>>, key: Seq<char>, i: int) -> int
    decreases entries.len() - i,
{
    if i < 0 || i >= entries.len() {
        entries.len() as int
    } else if entries[i].key@ == key {
        i
    } else {
        key_index_from(entries, key, i + 1)
    }
}

pub open spec fn key_index<T>(entries: Seq<CachedEntry<T>>, key: Seq<char>) -> int {
    key_index_from(entries, key, 0)
}

/// Whether a texture is cached under `key`.
pub open spec fn has_key<T>(entries: Seq<CachedEntry<T>>, key: Seq<char>) -> bool {
    exists|i: int| 0 <= i < entries.len() && (#[trigger] entries[i]).key@ == key
}

/// The entries that are not text textures, in order.
pub open spec fn without_text<T>(entries: Seq<CachedEntry<T>>) -> Seq<CachedEntry<T>>
    decreases entries.len(),
{
    if entries.len() == 0 {
        Seq::empty()
    } else {
        let rest = without_text(entries.drop_last());
        if is_text_key(entries.last().key@) {
            rest
        } else {
            rest.push(entries.last())
        }
    }
}

/// The entries last used by the frame of `generation`, in order.
pub open spec fn used_by<T>(entries: Seq<CachedEntry<T>>, generation: u64) -> Seq<CachedEntry<T>>
    decreases entries.len(),
{
    if entries.len() == 0 {
        Seq::empty()
    } else {
        let rest = used_by(entries.drop_last(), generation);
        if entries.last().last_used == generation {
            rest.push(entries.last())
        } else {
            rest
        }
    }
}

pub struct TextureCache<T> {
    entries: Vec<CachedEntry<T>>,
    generation: u64,
    font_count: usize,
}

impl<T> View for TextureCache<T> {
    type V = CacheModel<T>;

    closed spec fn view(&self) -> CacheModel<T> {
        CacheModel { entries: self.entries@, generation: self.generation, font_count: self.font_count }
    }
}

proof fn lemma_key_index<T>(entries: Seq<CachedEntry<T>>, key: Seq<char>, i: int)
    requires
        0 <= i <= entries.len(),
    ensures
        i <= key_index_from(entries, key, i) <= entries.len(),
        key_index_from(entries, key, i) < entries.len() ==> entries[key_index_from(entries, key, i)].key@
            == key,
        forall|m: int| i <= m < key_index_from(entries, key, i) ==> (#[trigger] entries[m]).key@ != key,
    decreases entries.len() - i,
{
    if i < entries.len() && entries[i].key@ != key {
        lemma_key_index(entries, key, i + 1);
    }
}

/// Where `key` is cached, if anywhere: its index is the first with that key,
/// and there is one exactly when the key is cached.
proof fn lemma_key_found<T>(entries: Seq<CachedEntry<T>>, key: Seq<char>)
    ensures
        0 <= key_index(entries, key) <= entries.len(),
        has_key(entries, key) <==> key_index(entries, key) < entries.len(),
        key_index(entries, key) < entries.len() ==> entries[key_index(entries, key)].key@ == key,
{
    lemma_key_index(entries, key, 0);
    if has_key(entries, key) {
        let m = choose|m: int| 0 <= m < entries.len() && (#[trigger] entries[m]).key@ == key;
        assert(m >= key_index(entries, key));
    }
    if key_index(entries, key) < entries.len() {
        assert(entries[key_index(entries, key)].key@ == key);
    }
}

/// Whether `key` starts with the text prefix.
fn starts_with_text_prefix(key: &str) -> (r: bool)
    ensures
        r == is_text_key(key@),
{
    let n = key.unicode_len();
    if n < 5 {
        return false;
    }
    let r = key.get_char(0) == 't' && key.get_char(1) == 'e' && key.get_char(2) == 'x'
        && key.get_char(3) == 't' && key.get_char(4) == '\0';
    assert(r == (key@.subrange(0, 5) =~= text_prefix()));
    r
}

impl<T> TextureCache<T> {
    /// No key is cached twice.
    pub closed spec fn wf(&self) -> bool {
        keys_unique(self.entries@)
    }

    /// An empty cache before the first frame.
    pub fn new() -> (r: Self)
        ensures
            r.wf(),
            r@.entries == Seq::<CachedEntry<T>>::empty(),
            r@.generation == 0,
            r@.font_count == 0,
    {
        TextureCache { entries: Vec::new(), generation: 0, font_count: 0 }
    }

    /// The number of cached textures.
    pub fn len(&self) -> (r: usize)
        ensures
            r == self@.entries.len(),
    {
        self.entries.len()
    }

    /// Starts a frame drawn with `font_count` loaded fonts: when the fonts
    /// changed, the text textures go; the frame gets the next generation.
    pub fn begin_frame(&mut self, font_count: usize)
        requires
            old(self).wf(),
            old(self)@.generation < u64::MAX,
        ensures
            final(self).wf(),
            final(self)@.generation == old(self)@.generation + 1,
            final(self)@.font_count == font_count,
            final(self)@.entries == (if font_count != old(self)@.font_count {
                without_text(old(self)@.entries)
            } else {
                old(self)@.entries
            }),
    {
        if font_count != self.font_count {
            let ghost initial = self.entries@;
            let mut kept: Vec<CachedEntry<T>> = Vec::new();
            let mut taken: usize = 0;
            let count = self.entries.len();
            assert(initial.take(0) =~= Seq::<CachedEntry<T>>::empty());
            while self.entries.len() > 0
                invariant
                    taken <= initial.len() == count,
                    self.entries@ == initial.skip(taken as int),
                    kept@ == without_text(initial.take(taken as int)),
                    keys_unique(initial),
                    forall|m: int|
                        0 <= m < kept@.len() ==> exists|i: int|
                            0 <= i < taken && #[trigger] kept@[m] == initial[i],
                    forall|a: int, b: int|
                        0 <= a < b < kept@.len() ==> exists|i: int, j: int|
                            0 <= i < j < taken && #[trigger] kept@[a] == initial[i]
                                && #[trigger] kept@[b] == initial[j],
                    self.generation == old(self).generation,
                decreases self.entries@.len(),
            {
                let entry = self.entries.remove(0);
                assert(initial.take(taken + 1).drop_last() =~= initial.take(taken as int));
                assert(initial.take(taken + 1).last() == entry);
                assert(self.entries@ =~= initial.skip(taken + 1));
                assert(entry == initial[taken as int]);
                if !starts_with_text_prefix(entry.key.as_str()) {
                    let ghost before = kept@;
                    kept.push(entry);
                    assert forall|a: int, b: int| 0 <= a < b < kept@.len() implies exists|
                        i: int,
                        j: int,
                    | 0 <= i < j < taken + 1 && #[trigger] kept@[a] == initial[i]
                        && #[trigger] kept@[b] == initial[j] by {
                        if b == before.len() {
                            assert(exists|i: int| 0 <= i < taken && #[trigger] before[a] == initial[i]);
                            let i = choose|i: int| 0 <= i < taken && #[trigger] before[a] == initial[i];
                            assert(kept@[a] == initial[i] && kept@[b] == initial[taken as int]);
                        } else {
                            assert(kept@[a] == before[a] && kept@[b] == before[b]);
                        }
                    }
                    assert forall|m: int| 0 <= m < kept@.len() implies exists|i: int|
                        0 <= i < taken + 1 && #[trigger] kept@[m] == initial[i] by {
                        if m == before.len() {
                            assert(kept@[m] == initial[taken as int]);
                        } else {
                            assert(kept@[m] == before[m]);
                        }
                    }
                }
                taken = taken + 1;
            }
            assert(initial.take(taken as int) =~= initial);
            assert forall|a: int, b: int| 0 <= a < b < kept@.len() implies (#[trigger] kept@[a]).key@
                != (#[trigger] kept@[b]).key@ by {
                let (i, j) = choose|i: int, j: int|
                    0 <= i < j < taken && #[trigger] kept@[a] == initial[i]
                        && #[trigger] kept@[b] == initial[j];
                assert(initial[i].key@ != initial[j].key@);
            }
            self.entries = kept;
        }
        self.font_count = font_count;
        self.generation = self.generation + 1;
    }

    /// Marks the texture cached under `key` as used by the current frame;
    /// returns whether there is one.
    pub fn mark_used(&mut self, key: &str) -> (r: bool)
        requires
            old(self).wf(),
        ensures
            final(self).wf(),
            r == has_key(old(self)@.entries, key@),
            final(self)@.generation == old(self)@.generation,
            final(self)@.font_count == old(self)@.font_count,
            final(self)@.entries == (if r {
                let i = key_index(old(self)@.entries, key@);
                old(self)@.entries.update(
                    i,
                    CachedEntry { last_used: old(self)@.generation, ..old(self)@.entries[i] },
                )
            } else {
                old(self)@.entries
            }),
    {
        proof {
            lemma_key_found(self.entries@, key@);
        }
        let ghost before = self.entries@;
        let mut i: usize = 0;
        while i < self.entries.len()
            invariant
                i <= self.entries@.len(),
                self.entries@ == before,
                before == old(self)@.entries,
                key_index_from(before, key@, i as int) == key_index(before, key@),
                keys_unique(before),
                self.generation == old(self).generation,
                self.font_count == old(self).font_count,
            decreases self.entries.len() - i,
        {
            if str_eq(self.entries[i].key.as_str(), key) {
                proof {
                    lemma_key_found(before, key@);
                    assert(before[i as int].key@ == key@);
                    assert(key_index_from(before, key@, i as int) == i as int);
                    assert(key_index(before, key@) == i as int);
                    assert(has_key(before, key@));
                }
                let generation = self.generation;
                let mut entry = self.entries.remove(i);
                entry.last_used = generation;
                self.entries.insert(i, entry);
                assert(self.entries@ =~= before.update(
                    i as int,
                    CachedEntry { last_used: generation, ..before[i as int] },
                ));
                assert forall|a: int, b: int| 0 <= a < b < self.entries@.len() implies (
                #[trigger] self.entries@[a]).key@ != (#[trigger] self.entries@[b]).key@ by {
                    assert(self.entries@[a].key == before[a].key);
                    assert(self.entries@[b].key == before[b].key);
                }
                return true;
            }
            i = i + 1;
        }
        proof {
            lemma_key_found(before, key@);
        }
        false
    }

    /// The texture cached under `key`, if any.
    pub fn get(&self, key: &str) -> (r: Option<&T>)
        requires
            self.wf(),
        ensures
            r == (if has_key(self@.entries, key@) {
                Some(&self@.entries[key_index(self@.entries, key@)].value)
            } else {
                None
            }),
    {
        proof {
            lemma_key_found(self.entries@, key@);
        }
        let mut i: usize = 0;
        while i < self.entries.len()
            invariant
                i <= self.entries@.len(),
                key_index_from(self.entries@, key@, i as int) == key_index(self.entries@, key@),
            decreases self.entries.len() - i,
        {
            if str_eq(self.entries[i].key.as_str(), key) {
                return Some(&self.entries[i].value);
            }
            i = i + 1;
        }
        None
    }

    /// Caches a texture the current frame produced under a key not cached
    /// yet.
    pub fn insert(&mut self, key: String, value: T)
        requires
            old(self).wf(),
            !has_key(old(self)@.entries, key@),
        ensures
            final(self).wf(),
            final(self)@.generation == old(self)@.generation,
            final(self)@.font_count == old(self)@.font_count,
            final(self)@.entries == old(self)@.entries.push(
                CachedEntry { key, value, last_used: old(self)@.generation },
            ),
    {
        let generation = self.generation;
        let ghost before = self.entries@;
        self.entries.push(CachedEntry { key, value, last_used: generation });
        assert forall|a: int, b: int| 0 <= a < b < self.entries@.len() implies (
        #[trigger] self.entries@[a]).key@ != (#[trigger] self.entries@[b]).key@ by {
            if b == before.len() {
                assert(before[a] == self.entries@[a]);
            } else {
                assert(before[a] == self.entries@[a] && before[b] == self.entries@[b]);
            }
        }
    }

    /// Ends the current frame: the textures it did not use are dropped.
    pub fn end_frame(&mut self)
        requires
            old(self).wf(),
        ensures
            final(self).wf(),
            final(self)@.generation == old(self)@.generation,
            final(self)@.font_count == old(self)@.font_count,
            final(self)@.entries == used_by(old(self)@.entries, old(self)@.generation),
    {
        let generation = self.generation;
        let ghost initial = self.entries@;
        let mut kept: Vec<CachedEntry<T>> = Vec::new();
        let mut taken: usize = 0;
        let count = self.entries.len();
        assert(initial.take(0) =~= Seq::<CachedEntry<T>>::empty());
        while self.entries.len() > 0
            invariant
                taken <= initial.len() == count,
                self.entries@ == initial.skip(taken as int),
                kept@ == used_by(initial.take(taken as int), generation),
                keys_unique(initial),
                forall|a: int, b: int|
                    0 <= a < b < kept@.len() ==> exists|i: int, j: int|
                        0 <= i < j < taken && #[trigger] kept@[a] == initial[i]
                            && #[trigger] kept@[b] == initial[j],
                forall|m: int|
                    0 <= m < kept@.len() ==> exists|i: int|
                        0 <= i < taken && #[trigger] kept@[m] == initial[i],
                self.generation == generation,
                self.font_count == old(self).font_count,
            decreases self.entries@.len(),
        {
            let entry = self.entries.remove(0);
            assert(initial.take(taken + 1).drop_last() =~= initial.take(taken as int));
            assert(initial.take(taken + 1).last() == entry);
            assert(self.entries@ =~= initial.skip(taken + 1));
            assert(entry == initial[taken as int]);
            if entry.last_used == generation {
                let ghost before = kept@;
                kept.push(entry);
                assert forall|a: int, b: int| 0 <= a < b < kept@.len() implies exists|
                    i: int,
                    j: int,
                | 0 <= i < j < taken + 1 && #[trigger] kept@[a] == initial[i]
                    && #[trigger] kept@[b] == initial[j] by {
                    if b == before.len() {
                        assert(exists|i: int| 0 <= i < taken && #[trigger] before[a] == initial[i]);
                        let i = choose|i: int| 0 <= i < taken && #[trigger] before[a] == initial[i];
                        assert(kept@[a] == initial[i] && kept@[b] == initial[taken as int]);
                    } else {
                        assert(kept@[a] == before[a] && kept@[b] == before[b]);
                    }
                }
                assert forall|m: int| 0 <= m < kept@.len() implies exists|i: int|
                    0 <= i < taken + 1 && #[trigger] kept@[m] == initial[i] by {
                    if m == before.len() {
                        assert(kept@[m] == initial[taken as int]);
                    } else {
                        assert(kept@[m] == before[m]);
                    }
                }
            }
            taken = taken + 1;
        }
        assert(initial.take(taken as int) =~= initial);
        assert forall|a: int, b: int| 0 <= a < b < kept@.len() implies (#[trigger] kept@[a]).key@
            != (#[trigger] kept@[b]).key@ by {
            let (i, j) = choose|i: int, j: int|
                0 <= i < j < taken && #[trigger] kept@[a] == initial[i]
                    && #[trigger] kept@[b] == initial[j];
            assert(initial[i].key@ != initial[j].key@);
        }
        self.entries = kept;
    }
}

} // verus!
