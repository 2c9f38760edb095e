//! The asset resolution cache: at most one stored path per asset key.

use vstd::prelude::*;
use crate::assets::{AssetKey, AssetKeyView};

verus! {

/// An asset that was resolved: its key, and the path of its file relative
/// to the root of the archive.
#[derive(Debug, Clone)]
pub struct ResolvedAsset {
    pub key: AssetKey,
    pub path: String,
}

/// The assets resolved so far in one run, in the order in which they were
/// resolved. No key occurs twice.
#[derive(Debug)]
pub struct AssetCache {
    pub entries: Vec<ResolvedAsset>,
}

/// The mapping after "insert if absent": a key that is present keeps its
/// path, an absent one gets `path`.
pub open spec fn remembered(
    known: Map<AssetKeyView, Seq<char>>,
    key: AssetKeyView,
    path: Seq<char>,
) -> Map<AssetKeyView, Seq<char>> {
    if known.contains_key(key) {
        known
    } else {
        known.insert(key, path)
    }
}

/// Whether an entry with `key` stands among `entries`, at position `i`.
pub open spec fn holds_at(entries: Seq<ResolvedAsset>, key: AssetKeyView, i: int) -> bool {
    0 <= i < entries.len() && entries[i].key@ == key
}

impl View for AssetCache {
    type V = Map<AssetKeyView, Seq<char>>;

    /// The cache as a mapping from keys to paths.
    open spec fn view(&self) -> Map<AssetKeyView, Seq<char>> {
        Map::new(
            |key: AssetKeyView| exists|i: int| holds_at(self.entries@, key, i),
            |key: AssetKeyView| self.entries@[choose|i: int| holds_at(self.entries@, key, i)].path@,
        )
    }
}

impl AssetCache {
    /// No key occurs twice.
    pub open spec fn wf(&self) -> bool {
        forall|i: int, j: int|
            0 <= i < j < self.entries@.len() ==> self.entries@[i].key@ != self.entries@[j].key@
    }

    /// A cache that holds nothing: it has no entry, so no key has a path.
    pub fn new() -> (cache: Self)
        ensures
            cache.wf(),
            cache.entries@.len() == 0,
            cache@ == Map::<AssetKeyView, Seq<char>>::empty(),
    {
        let cache = AssetCache { entries: Vec::new() };
        assert(cache@ =~= Map::<AssetKeyView, Seq<char>>::empty());
        cache
    }

    /// The number of assets resolved so far.
    pub fn len(&self) -> (count: usize)
        ensures
            count == self.entries@.len(),
    {
        self.entries.len()
    }

    /// The position of the entry with `key`, if there is one.
    fn position(&self, key: &AssetKey) -> (found: Option<usize>)
        ensures
            match found {
                Some(i) => holds_at(self.entries@, key@, i as int),
                None => forall|i: int| !holds_at(self.entries@, key@, i),
            },
    {
        let mut i: usize = 0;
        while i < self.entries.len()
            invariant
                i <= self.entries@.len(),
                forall|j: int| 0 <= j < i ==> self.entries@[j].key@ != key@,
            decreases self.entries@.len() - i,
        {
            if self.entries[i].key.same(key) {
                return Some(i);
            }
            i = i + 1;
        }
        None
    }

    /// The path stored for `key`, if the asset was resolved before.
    pub fn get(&self, key: &AssetKey) -> (path: Option<String>)
        requires
            self.wf(),
        ensures
            match path {
                Some(path) => self@.contains_key(key@) && self@[key@] == path@,
                None => !self@.contains_key(key@),
            },
    {
        match self.position(key) {
            Some(i) => {
                proof {
                    self.lemma_entry(i as int);
                }
                Some(self.entries[i].path.clone())
            },
            None => None,
        }
    }

    /// The entry at position `i` is what the mapping holds for its key.
    pub proof fn lemma_entry(&self, i: int)
        requires
            self.wf(),
            0 <= i < self.entries@.len(),
        ensures
            self@.contains_key(self.entries@[i].key@),
            self@[self.entries@[i].key@] == self.entries@[i].path@,
    {
        let key = self.entries@[i].key@;
        assert(holds_at(self.entries@, key, i));
        let chosen = choose|j: int| holds_at(self.entries@, key, j);
        assert(chosen == i);
    }

    /// Insert if absent, then return: stores `path` for `key` unless the key
    /// has a path already, and hands back the path that the cache now holds
    /// for the key.
    pub fn insert(&mut self, key: AssetKey, path: String) -> (stored: String)
        requires
            old(self).wf(),
        ensures
            final(self).wf(),
            final(self)@ == remembered(old(self)@, key@, path@),
            final(self)@.contains_key(key@),
            stored@ == final(self)@[key@],
    {
        match self.position(&key) {
            Some(i) => {
                proof {
                    self.lemma_entry(i as int);
                }
                self.entries[i].path.clone()
            },
            None => {
                let stored = path.clone();
                let ghost before = *self;
                self.entries.push(ResolvedAsset { key, path });
                proof {
                    let last = self.entries@.len() - 1;
                    assert(forall|i: int| 0 <= i < last ==> self.entries@[i] == before.entries@[i]);
                    assert forall|i: int, j: int| 0 <= i < j < self.entries@.len() implies self.entries@[i].key@
                        != self.entries@[j].key@ by {
                        if j == last {
                            assert(!holds_at(before.entries@, key@, i));
                        }
                    }
                    self.lemma_entry(last);
                    assert forall|k: AssetKeyView|
                        self@.contains_key(k) <==> #[trigger] before@.insert(
                            key@,
                            path@,
                        ).contains_key(k) by {
                        if self@.contains_key(k) {
                            let i = choose|i: int| holds_at(self.entries@, k, i);
                            if i < last {
                                assert(holds_at(before.entries@, k, i));
                            }
                        }
                        if before@.contains_key(k) {
                            let i = choose|i: int| holds_at(before.entries@, k, i);
                            assert(holds_at(self.entries@, k, i));
                        }
                        if k == key@ {
                            assert(holds_at(self.entries@, k, last));
                        }
                    }
                    assert forall|k: AssetKeyView| self@.contains_key(k) implies self@[k]
                        == before@.insert(key@, path@)[k] by {
                        let i = choose|i: int| holds_at(self.entries@, k, i);
                        self.lemma_entry(i);
                        if i < last {
                            assert(holds_at(before.entries@, k, i));
                            before.lemma_entry(i);
                        }
                    }
                    assert(self@ =~= before@.insert(key@, path@));
                }
                stored
            },
        }
    }

    /// Resolves `key`: on a hit the stored path comes back and `resolver`
    /// is not run; on a miss `resolver` runs once, and the path that it
    /// gives is stored before it is handed back. Where `resolver` fails,
    /// its error comes back and the cache stays as it was.
    pub fn resolve<Resolver: FnOnce() -> Result<String, Failure>, Failure>(
        &mut self,
        key: AssetKey,
        resolver: Resolver,
    ) -> (path: Result<String, Failure>)
        requires
            old(self).wf(),
            call_requires(resolver, ()),
        ensures
            final(self).wf(),
            old(self)@.contains_key(key@) ==> final(self)@ == old(self)@ && (path matches Ok(
                stored,
            ) && stored@ == old(self)@[key@]),
            !old(self)@.contains_key(key@) ==> match path {
                Ok(stored) => final(self)@ == old(self)@.insert(key@, stored@) && (exists|
                    made: String,
                |
                    call_ensures(resolver, (), Ok::<String, Failure>(made)) && made@ == stored@),
                Err(error) => final(self)@ == old(self)@ && call_ensures(
                    resolver,
                    (),
                    Err::<String, Failure>(error),
                ),
            },
    {
        match self.get(&key) {
            Some(stored) => Ok(stored),
            None => match resolver() {
                Ok(made) => {
                    let stored = self.insert(key, made);
                    Ok(stored)
                },
                Err(error) => Err(error),
            },
        }
    }
}

/// An asset that was resolved once stays resolved, under the same path,
/// whatever is resolved after it; resolving its key again changes nothing.
pub proof fn lemma_resolved_once(
    known: Map<AssetKeyView, Seq<char>>,
    key: AssetKeyView,
    path: Seq<char>,
    later_key: AssetKeyView,
    later_path: Seq<char>,
)
    ensures
        remembered(known, key, path).contains_key(key),
        remembered(remembered(known, key, path), later_key, later_path).contains_key(key),
        remembered(remembered(known, key, path), later_key, later_path)[key] == remembered(
            known,
            key,
            path,
        )[key],
        remembered(remembered(known, key, path), key, later_path) == remembered(known, key, path),
{
}

} // verus!
