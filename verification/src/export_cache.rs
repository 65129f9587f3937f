//! Per-page structural-hash table.
//!
//! Every successful compile re-renders the full page list. To spare the front
//! end a re-encode and re-transfer of pages whose content did not change, the
//! engine keeps one structural hash per page index ever observed and compares
//! the fresh hash of each page against the stored one.

use vstd::prelude::*;

verus! {

/// One structural hash per page index observed for the current environment.
///
/// The table grows monotonically as new page indices appear and is cleared
/// only when the environment is discarded or reset.
pub struct ExportCache {
    hashes: Vec<u64>,
}

impl View for ExportCache {
    type V = Seq<u64>;

    closed spec fn view(&self) -> Seq<u64> {
        self.hashes@
    }
}

impl ExportCache {
    /// Whether a lookup of `hash` at `index` against table `cache` hits:
    /// the index has been seen before and its stored hash is unchanged.
    pub open spec fn spec_hit(cache: Seq<u64>, index: int, hash: u64) -> bool {
        0 <= index < cache.len() && cache[index] == hash
    }

    /// The table after a lookup of `hash` at `index`: a seen index keeps or
    /// overwrites its slot, an unseen index appends.
    pub open spec fn spec_after(cache: Seq<u64>, index: int, hash: u64) -> Seq<u64> {
        if 0 <= index < cache.len() {
            cache.update(index, hash)
        } else {
            cache.push(hash)
        }
    }

    pub fn new() -> (cache: ExportCache)
        ensures
            cache@ =~= Seq::<u64>::empty(),
    {
        ExportCache { hashes: Vec::new() }
    }

    /// Number of page indices observed so far.
    pub fn len(&self) -> (n: usize)
        ensures
            n == self@.len(),
    {
        self.hashes.len()
    }

    /// Records the structural hash of the page at `index` and reports whether
    /// the page is unchanged since the last compile.
    ///
    /// A first sighting of an index appends the hash and reports `false`; a
    /// seen index reports `true` exactly when the stored hash equals the new
    /// one, and otherwise overwrites the slot.
    pub fn is_cached(&mut self, index: usize, hash: u64) -> (hit: bool)
        ensures
            hit == Self::spec_hit(old(self)@, index as int, hash),
            final(self)@ =~= Self::spec_after(old(self)@, index as int, hash),
    {
        if index < self.hashes.len() {
            if self.hashes[index] == hash {
                true
            } else {
                self.hashes.set(index, hash);
                false
            }
        } else {
            self.hashes.push(hash);
            false
        }
    }

    /// Empties the table; every subsequent page is treated as changed.
    pub fn clear(&mut self)
        ensures
            final(self)@ =~= Seq::<u64>::empty(),
    {
        self.hashes.clear();
    }

    /// Against an empty table — as a fresh or just-reset environment holds
    /// it — every lookup misses: each page counts as changed.
    pub proof fn lemma_empty_cache_misses(index: int, hash: u64)
        ensures
            !Self::spec_hit(Seq::<u64>::empty(), index, hash),
    {
    }

    /// A page index never observed before is never reported as cached.
    pub proof fn lemma_first_sighting_misses(cache: Seq<u64>, index: int, hash: u64)
        requires
            index >= cache.len(),
        ensures
            !Self::spec_hit(cache, index, hash),
    {
    }

    /// A repeated lookup with an unchanged hash at an index that the previous
    /// lookup placed in the table hits, and leaves the table unchanged again.
    pub proof fn lemma_repeat_unchanged_hits(cache: Seq<u64>, index: int, hash: u64)
        requires
            0 <= index <= cache.len(),
        ensures
            Self::spec_hit(Self::spec_after(cache, index, hash), index, hash),
            Self::spec_after(Self::spec_after(cache, index, hash), index, hash)
                =~= Self::spec_after(cache, index, hash),
    {
    }

    /// A lookup with a different hash at a previously seen index misses and
    /// overwrites the stored hash with the new one.
    pub proof fn lemma_changed_hash_misses(cache: Seq<u64>, index: int, h1: u64, h2: u64)
        requires
            0 <= index < cache.len(),
            cache[index] == h1,
            h1 != h2,
        ensures
            !Self::spec_hit(cache, index, h2),
            Self::spec_after(cache, index, h2)[index] == h2,
            Self::spec_hit(Self::spec_after(cache, index, h2), index, h2),
    {
    }
}

} // verus!
