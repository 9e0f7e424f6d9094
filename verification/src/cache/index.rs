//! The index of cached items: entries by key with their sizes.

use vstd::prelude::*;
use crate::cache::hash::SerializableHash;
use crate::strmap::{distinct_text_keys, has_text_key, lemma_pairs_map_at, lemma_pairs_map_ext, lemma_pairs_map_finite, pairs_map, StrMap};

verus! {

/// Cache entry in the index
pub struct CacheEntry {
    /// Content hash
    pub hash: SerializableHash,
    /// Original size in bytes
    pub size: u64,
    /// Compressed size in bytes
    pub compressed_size: u64,
    /// Path to cached file
    pub path: String,
    /// Last access time
    pub accessed: std::time::SystemTime,
    /// Creation time
    pub created: std::time::SystemTime,
}

/// Sum of the original sizes of the entries in `s`.
pub open spec fn sum_sizes(s: Seq<(String, CacheEntry)>) -> nat
    decreases s.len(),
{
    if s.len() == 0 {
        0
    } else {
        sum_sizes(s.drop_last()) + (s.last().1.size as nat)
    }
}

/// Sum of the compressed sizes of the entries in `s`.
pub open spec fn sum_compressed(s: Seq<(String, CacheEntry)>) -> nat
    decreases s.len(),
{
    if s.len() == 0 {
        0
    } else {
        sum_compressed(s.drop_last()) + (s.last().1.compressed_size as nat)
    }
}

/// Index of cached items
pub struct CacheIndex {
    /// Cached entries by key
    entries: StrMap<CacheEntry>,
    /// Path to index file
    path: Option<String>,
}

impl CacheIndex {
    /// The entries by key.
    pub closed spec fn view(&self) -> Map<Seq<char>, CacheEntry> {
        self.entries@
    }

    /// The entries in the order the index keeps them; they stand for the view.
    pub closed spec fn stored(&self) -> Seq<(String, CacheEntry)> {
        self.entries.pairs_spec()
    }

    /// Where the index is saved, if anywhere.
    pub closed spec fn path_spec(&self) -> Option<String> {
        self.path
    }

    /// The stored entries stand for the view: no key twice, and as a map
    /// they are the view.
    pub open spec fn represents(&self) -> bool {
        distinct_text_keys(self.stored()) && pairs_map(self.stored()) == self@
    }

    /// What every index keeps true: its stored entries stand for its view,
    /// which has one key per stored entry.
    fn index_facts(&self)
        ensures
            self.represents(),
            self@.dom().finite(),
            self@.len() == self.stored().len(),
    {
        proof {
            use_type_invariant(&self.entries);
            self.entries.lemma_stored();
            lemma_pairs_map_finite(self.stored());
        }
    }

    /// An empty index saved at `path`.
    pub fn with_path(path: Option<String>) -> (i: Self)
        ensures
            i@ == Map::<Seq<char>, CacheEntry>::empty(),
            i.stored().len() == 0,
            i.path_spec() == path,
            i.represents(),
    {
        let i = CacheIndex { entries: StrMap::new(), path };
        i.index_facts();
        i
    }

    /// Where the index is saved, if anywhere.
    pub fn path(&self) -> (p: &Option<String>)
        ensures
            *p == self.path_spec(),
    {
        &self.path
    }

    /// Insert entry into index
    pub fn insert(&mut self, key: String, entry: CacheEntry)
        ensures
            final(self)@ == old(self)@.insert(key@, entry),
            final(self).path_spec() == old(self).path_spec(),
            final(self).represents(),
            final(self)@.dom().finite(),
            final(self)@.len() == old(self)@.len() + (if old(self)@.contains_key(key@) {
                0int
            } else {
                1int
            }),
    {
        self.index_facts();
        let _ = self.entries.insert(key, entry);
        self.index_facts();
    }

    /// Get entry by key
    pub fn get(&self, key: &str) -> (r: Option<&CacheEntry>)
        ensures
            r matches Some(e) ==> self@.contains_key(key@) && *e == self@[key@],
            r is None ==> !self@.contains_key(key@),
    {
        self.entries.get(key)
    }

    /// Get entry by key, to be changed in place; the index then holds what
    /// the caller leaves there.
    pub fn get_mut(&mut self, key: &str) -> (r: Option<&mut CacheEntry>)
        ensures
            r is None ==> !old(self)@.contains_key(key@) && final(self)@ == old(self)@,
            r matches Some(e) ==> old(self)@.contains_key(key@) && *e == old(self)@[key@] && final(self)@
                == old(self)@.insert(key@, *final(e)),
            final(self).path_spec() == old(self).path_spec(),
    {
        self.entries.get_mut(key)
    }

    /// Remove entry by key
    pub fn remove(&mut self, key: &str) -> (r: Option<CacheEntry>)
        ensures
            final(self)@ == old(self)@.remove(key@),
            r matches Some(e) ==> old(self)@.contains_key(key@) && e == old(self)@[key@],
            r is None ==> !old(self)@.contains_key(key@),
            final(self).path_spec() == old(self).path_spec(),
            final(self).represents(),
            final(self)@.dom().finite(),
            final(self)@.len() == old(self)@.len() - (if r is Some {
                1int
            } else {
                0int
            }),
    {
        self.index_facts();
        let r = self.entries.remove(key);
        self.index_facts();
        r
    }

    /// Clear all entries
    pub fn clear(&mut self)
        ensures
            final(self)@ == Map::<Seq<char>, CacheEntry>::empty(),
            final(self).stored().len() == 0,
            final(self).path_spec() == old(self).path_spec(),
            final(self).represents(),
    {
        self.entries.clear();
        self.index_facts();
    }

    /// Get number of entries
    pub fn len(&self) -> (n: usize)
        ensures
            n == self@.len(),
            n == self.stored().len(),
            self.represents(),
            self@.dom().finite(),
    {
        self.index_facts();
        self.entries.len()
    }

    /// The entries with their keys, in the order the index keeps them; each
    /// is in the index under its key.
    pub fn entries(&self) -> (r: Vec<(&String, &CacheEntry)>)
        ensures
            r@.len() == self.stored().len(),
            forall|i: int|
                0 <= i < r@.len() ==> *(#[trigger] r@[i]).0 == self.stored()[i].0 && *r@[i].1 == self.stored()[i].1
                    && self@.contains_key(r@[i].0@) && self@[r@[i].0@] == *r@[i].1,
    {
        let n = self.entries.len();
        let mut r: Vec<(&String, &CacheEntry)> = Vec::new();
        let mut i: usize = 0;
        while i < n
            invariant
                n == self.stored().len(),
                i <= n,
                r@.len() == i,
                forall|j: int|
                    0 <= j < i ==> *(#[trigger] r@[j]).0 == self.stored()[j].0 && *r@[j].1 == self.stored()[j].1
                        && self@.contains_key(r@[j].0@) && self@[r@[j].0@] == *r@[j].1,
            decreases n - i,
        {
            let e = self.entries.entry_at(i);
            r.push(e);
            i += 1;
        }
        r
    }

    /// Get total size of cached items
    pub fn total_size(&self) -> (t: u64)
        requires
            sum_sizes(self.stored()) <= u64::MAX,
        ensures
            t == sum_sizes(self.stored()),
            self.represents(),
    {
        self.index_facts();
        let n = self.entries.len();
        let mut t: u64 = 0;
        let mut i: usize = 0;
        while i < n
            invariant
                n == self.stored().len(),
                i <= n,
                t == sum_sizes(self.stored().take(i as int)),
                sum_sizes(self.stored()) <= u64::MAX,
            decreases n - i,
        {
            let (_, e) = self.entries.entry_at(i);
            proof {
                assert(self.stored().take(i + 1).drop_last() =~= self.stored().take(i as int));
                lemma_sum_sizes_prefix(self.stored(), i + 1);
            }
            t = t + e.size;
            i += 1;
        }
        assert(self.stored().take(n as int) =~= self.stored());
        t
    }

    /// Get total compressed size
    pub fn total_compressed_size(&self) -> (t: u64)
        requires
            sum_compressed(self.stored()) <= u64::MAX,
        ensures
            t == sum_compressed(self.stored()),
            self.represents(),
    {
        self.index_facts();
        let n = self.entries.len();
        let mut t: u64 = 0;
        let mut i: usize = 0;
        while i < n
            invariant
                n == self.stored().len(),
                i <= n,
                t == sum_compressed(self.stored().take(i as int)),
                sum_compressed(self.stored()) <= u64::MAX,
            decreases n - i,
        {
            let (_, e) = self.entries.entry_at(i);
            proof {
                assert(self.stored().take(i + 1).drop_last() =~= self.stored().take(i as int));
                lemma_sum_compressed_prefix(self.stored(), i + 1);
            }
            t = t + e.compressed_size;
            i += 1;
        }
        assert(self.stored().take(n as int) =~= self.stored());
        t
    }
}

/// Removing position `j` takes its entry's sizes off the sums.
proof fn lemma_sums_remove(s: Seq<(String, CacheEntry)>, j: int)
    requires
        0 <= j < s.len(),
    ensures
        sum_sizes(s) == sum_sizes(s.remove(j)) + s[j].1.size,
        sum_compressed(s) == sum_compressed(s.remove(j)) + s[j].1.compressed_size,
    decreases s.len(),
{
    if j < s.len() - 1 {
        lemma_sums_remove(s.drop_last(), j);
        assert(s.remove(j).drop_last() =~= s.drop_last().remove(j));
        assert(s.remove(j).last() == s.last());
    } else {
        assert(s.remove(j) =~= s.drop_last());
    }
}

/// Removing position `j` from entries with distinct keys removes that key
/// from the map they stand for.
proof fn lemma_pairs_map_remove(s: Seq<(String, CacheEntry)>, j: int)
    requires
        distinct_text_keys(s),
        0 <= j < s.len(),
    ensures
        distinct_text_keys(s.remove(j)),
        pairs_map(s.remove(j)) == pairs_map(s).remove(s[j].0@),
{
    let t = s.remove(j);
    let m = pairs_map(s).remove(s[j].0@);
    assert forall|a: int, b: int| 0 <= a < b < t.len() implies t[a].0@ != t[b].0@ by {
        let a2 = if a < j { a } else { a + 1 };
        let b2 = if b < j { b } else { b + 1 };
        assert(t[a] == s[a2] && t[b] == s[b2]);
    }
    assert forall|i: int| 0 <= i < t.len() implies m.contains_key(#[trigger] t[i].0@) && m[t[i].0@] == t[i].1 by {
        let i2 = if i < j { i } else { i + 1 };
        assert(t[i] == s[i2]);
        lemma_pairs_map_at(s, i2);
        assert(s[i2].0@ != s[j].0@);
    }
    assert forall|k: Seq<char>| m.contains_key(k) implies has_text_key(t, k) by {
        let i2 = choose|i2: int| 0 <= i2 < s.len() && #[trigger] s[i2].0@ == k;
        assert(i2 != j);
        let i = if i2 < j { i2 } else { i2 - 1 };
        assert(t[i] == s[i2]);
    }
    lemma_pairs_map_ext(t, m);
}

/// The size sums of an index follow from its entries as a map: two lists of
/// entries with distinct keys that stand for the same map have the same
/// sums, whatever their order.
pub proof fn law_sums_follow_the_map(s1: Seq<(String, CacheEntry)>, s2: Seq<(String, CacheEntry)>)
    requires
        distinct_text_keys(s1),
        distinct_text_keys(s2),
        pairs_map(s1) == pairs_map(s2),
    ensures
        sum_sizes(s1) == sum_sizes(s2),
        sum_compressed(s1) == sum_compressed(s2),
    decreases s1.len(),
{
    lemma_pairs_map_finite(s1);
    lemma_pairs_map_finite(s2);
    if s1.len() > 0 {
        let n = s1.len() - 1;
        let k = s1[n].0@;
        lemma_pairs_map_at(s1, n);
        let j = choose|j: int| 0 <= j < s2.len() && #[trigger] s2[j].0@ == k;
        lemma_pairs_map_at(s2, j);
        lemma_pairs_map_remove(s1, n);
        lemma_pairs_map_remove(s2, j);
        assert(s1.remove(n) =~= s1.drop_last());
        law_sums_follow_the_map(s1.drop_last(), s2.remove(j));
        lemma_sums_remove(s2, j);
    } else {
        assert(s2.len() == 0);
    }
}

/// A prefix's size sum is at most the whole sum.
proof fn lemma_sum_sizes_prefix(s: Seq<(String, CacheEntry)>, k: int)
    requires
        0 <= k <= s.len(),
    ensures
        sum_sizes(s.take(k)) <= sum_sizes(s),
    decreases s.len() - k,
{
    if k < s.len() {
        lemma_sum_sizes_prefix(s, k + 1);
        assert(s.take(k + 1).drop_last() =~= s.take(k));
    } else {
        assert(s.take(k) =~= s);
    }
}

/// A prefix's compressed sum is at most the whole sum.
proof fn lemma_sum_compressed_prefix(s: Seq<(String, CacheEntry)>, k: int)
    requires
        0 <= k <= s.len(),
    ensures
        sum_compressed(s.take(k)) <= sum_compressed(s),
    decreases s.len() - k,
{
    if k < s.len() {
        lemma_sum_compressed_prefix(s, k + 1);
        assert(s.take(k + 1).drop_last() =~= s.take(k));
    } else {
        assert(s.take(k) =~= s);
    }
}

/// A read of the index gives back what the last write to that key wrote,
/// and writes to one key leave every other key as it was.
pub proof fn law_insert_then_get(before: Map<Seq<char>, CacheEntry>, key: Seq<char>, entry: CacheEntry, other: Seq<char>)
    requires
        other != key,
    ensures
        before.insert(key, entry).contains_key(key),
        before.insert(key, entry)[key] == entry,
        before.insert(key, entry).contains_key(other) == before.contains_key(other),
        before.contains_key(other) ==> before.insert(key, entry)[other] == before[other],
{
}

/// After a key is removed, a read of it finds nothing; other keys are kept.
pub proof fn law_remove_then_get(before: Map<Seq<char>, CacheEntry>, key: Seq<char>, other: Seq<char>)
    requires
        other != key,
    ensures
        !before.remove(key).contains_key(key),
        before.remove(key).contains_key(other) == before.contains_key(other),
        before.contains_key(other) ==> before.remove(key)[other] == before[other],
{
}

} // verus!
