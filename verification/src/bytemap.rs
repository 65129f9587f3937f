//! A small association map from byte-string keys to byte-string values.
//!
//! The environment's overlay, source cache and resource cache are all maps
//! from an identifier's path bytes to content bytes. The map is kept as a
//! vector of entries with pairwise distinct keys and viewed as a
//! mathematical `Map<Seq<u8>, Seq<u8>>`.

use vstd::prelude::*;

verus! {

pub struct MapEntry {
    pub key: Vec<u8>,
    pub val: Vec<u8>,
}

/// The mathematical map described by a sequence of entries; a later entry
/// for the same key wins.
pub open spec fn entries_map(s: Seq<MapEntry>) -> Map<Seq<u8>, Seq<u8>>
    decreases s.len(),
{
    if s.len() == 0 {
        Map::empty()
    } else {
        entries_map(s.drop_last()).insert(s.last().key@, s.last().val@)
    }
}

/// Pairwise distinct keys.
pub open spec fn distinct_keys(s: Seq<MapEntry>) -> bool {
    forall|i: int, j: int| 0 <= i < j < s.len() ==> s[i].key@ != s[j].key@
}

/// The map of a sequence of entries contains exactly the keys of the entries,
/// and, when the keys are distinct, maps each to that entry's value.
pub proof fn lemma_entries_map_index(s: Seq<MapEntry>, i: int)
    requires
        distinct_keys(s),
        0 <= i < s.len(),
    ensures
        entries_map(s).contains_key(s[i].key@),
        entries_map(s)[s[i].key@] == s[i].val@,
    decreases s.len(),
{
    if i < s.len() - 1 {
        lemma_entries_map_index(s.drop_last(), i);
    }
}

/// A key held by no entry is not in the map.
pub proof fn lemma_entries_map_absent(s: Seq<MapEntry>, k: Seq<u8>)
    requires
        forall|i: int| 0 <= i < s.len() ==> s[i].key@ != k,
    ensures
        !entries_map(s).contains_key(k),
    decreases s.len(),
{
    if s.len() > 0 {
        lemma_entries_map_absent(s.drop_last(), k);
    }
}

/// Replacing the value of the entry at `i` in place updates the map at that
/// entry's key alone.
proof fn lemma_entries_map_update(s: Seq<MapEntry>, i: int, e: MapEntry)
    requires
        distinct_keys(s),
        0 <= i < s.len(),
        e.key@ == s[i].key@,
    ensures
        entries_map(s.update(i, e)) =~= entries_map(s).insert(e.key@, e.val@),
    decreases s.len(),
{
    let t = s.update(i, e);
    if i == s.len() - 1 {
        assert(t.drop_last() =~= s.drop_last());
    } else {
        lemma_entries_map_update(s.drop_last(), i, e);
        assert(t.drop_last() =~= s.drop_last().update(i, e));
        assert(t.last() == s.last());
        assert(entries_map(s.drop_last()).insert(e.key@, e.val@).insert(
            s.last().key@,
            s.last().val@,
        ) =~= entries_map(s.drop_last()).insert(s.last().key@, s.last().val@).insert(
            e.key@,
            e.val@,
        ));
    }
}

/// Removing the entry at `i` removes that entry's key from the map.
proof fn lemma_entries_map_remove(s: Seq<MapEntry>, i: int)
    requires
        distinct_keys(s),
        0 <= i < s.len(),
    ensures
        entries_map(s.remove(i)) =~= entries_map(s).remove(s[i].key@),
    decreases s.len(),
{
    let t = s.remove(i);
    if i == s.len() - 1 {
        assert(t =~= s.drop_last());
        lemma_entries_map_absent(s.drop_last(), s[i].key@);
        assert(entries_map(s.drop_last()) =~= entries_map(s.drop_last()).insert(
            s[i].key@,
            s[i].val@,
        ).remove(s[i].key@));
    } else {
        lemma_entries_map_remove(s.drop_last(), i);
        assert(t.drop_last() =~= s.drop_last().remove(i));
        assert(t.last() == s.last());
        assert(entries_map(s.drop_last()).remove(s[i].key@).insert(
            s.last().key@,
            s.last().val@,
        ) =~= entries_map(s.drop_last()).insert(s.last().key@, s.last().val@).remove(
            s[i].key@,
        ));
    }
}

/// Map from byte-string keys to byte-string values, keyed by identifier
/// paths throughout the environment.
pub struct ByteMap {
    entries: Vec<MapEntry>,
}

impl View for ByteMap {
    type V = Map<Seq<u8>, Seq<u8>>;

    closed spec fn view(&self) -> Map<Seq<u8>, Seq<u8>> {
        entries_map(self.entries@)
    }
}

impl ByteMap {
    /// Internal well-formedness: no key occurs twice.
    pub closed spec fn wf(&self) -> bool {
        distinct_keys(self.entries@)
    }

    pub fn new() -> (m: ByteMap)
        ensures
            m.wf(),
            m@ =~= Map::<Seq<u8>, Seq<u8>>::empty(),
    {
        ByteMap { entries: Vec::new() }
    }

    /// Index of the entry holding `key`, if any.
    fn find(&self, key: &Vec<u8>) -> (r: Option<usize>)
        requires
            self.wf(),
        ensures
            match r {
                Some(i) => i < self.entries@.len() && self.entries@[i as int].key@ == key@
                    && self@.contains_key(key@) && self@[key@] == self.entries@[i as int].val@,
                None => !self@.contains_key(key@),
            },
    {
        let n = self.entries.len();
        let mut i: usize = 0;
        while i < n
            invariant
                self.wf(),
                0 <= i <= n == self.entries@.len(),
                forall|j: int| 0 <= j < i ==> self.entries@[j].key@ != key@,
            decreases n - i,
        {
            if self.entries[i].key == *key {
                proof {
                    assert(self.entries@[i as int].key@ =~= key@);
                    lemma_entries_map_index(self.entries@, i as int);
                }
                return Some(i);
            }
            proof {
                assert(self.entries@[i as int].key@ != key@) by {
                    if self.entries@[i as int].key@ == key@ {
                        assert(self.entries@[i as int].key@ =~= key@);
                    }
                }
            }
            i = i + 1;
        }
        proof {
            lemma_entries_map_absent(self.entries@, key@);
        }
        None
    }

    /// Whether `key` is present.
    pub fn contains(&self, key: &Vec<u8>) -> (r: bool)
        requires
            self.wf(),
        ensures
            r == self@.contains_key(key@),
    {
        self.find(key).is_some()
    }

    /// The value stored under `key`, if any.
    pub fn get(&self, key: &Vec<u8>) -> (r: Option<&Vec<u8>>)
        requires
            self.wf(),
        ensures
            match r {
                Some(v) => self@.contains_key(key@) && v@ == self@[key@],
                None => !self@.contains_key(key@),
            },
    {
        match self.find(key) {
            Some(i) => Some(&self.entries[i].val),
            None => None,
        }
    }

    /// Installs or replaces the value under `key`.
    pub fn insert(&mut self, key: Vec<u8>, val: Vec<u8>)
        requires
            old(self).wf(),
        ensures
            final(self).wf(),
            final(self)@ =~= old(self)@.insert(key@, val@),
    {
        match self.find(&key) {
            Some(i) => {
                let ghost old_entries = self.entries@;
                let e = MapEntry { key, val };
                proof {
                    lemma_entries_map_update(old_entries, i as int, e);
                }
                self.entries.set(i, e);
            },
            None => {
                proof {
                    assert forall|j: int|
                        0 <= j < self.entries@.len() implies self.entries@[j].key@ != key@ by {
                        if self.entries@[j].key@ == key@ {
                            lemma_entries_map_index(self.entries@, j);
                        }
                    }
                }
                let ghost old_entries = self.entries@;
                self.entries.push(MapEntry { key, val });
                proof {
                    assert(self.entries@.drop_last() =~= old_entries);
                }
            },
        }
    }

    /// Removes the value under `key`, if any.
    pub fn remove(&mut self, key: &Vec<u8>)
        requires
            old(self).wf(),
        ensures
            final(self).wf(),
            final(self)@ =~= old(self)@.remove(key@),
    {
        match self.find(key) {
            Some(i) => {
                let ghost old_entries = self.entries@;
                proof {
                    lemma_entries_map_remove(old_entries, i as int);
                }
                self.entries.remove(i);
            },
            None => {
                proof {
                    assert(old(self)@ =~= old(self)@.remove(key@));
                }
            },
        }
    }

    /// Empties the map.
    pub fn clear(&mut self)
        ensures
            final(self).wf(),
            final(self)@ =~= Map::<Seq<u8>, Seq<u8>>::empty(),
    {
        self.entries.clear();
    }
}

} // verus!
