//! A bounded in-memory cache of values with an optional time to live,
//! forgetting its least recently used entry first, with statistics.
//!
//! The cache is modelled as the sequence of its entries from the most to the
//! least recently used, with no key twice, as the `lru` crate keeps them.

use vstd::prelude::*;
use vstd::laws_eq::obeys_concrete_eq;
use vstd::std_specs::cmp::PartialEqSpec;
use crate::cache::lru::{
    distinct_keys, has_expired, has_key, lemma_without_absent, lemma_without_at, lemma_without_props,
    without_key,
};
use crate::error::BlastResult;

verus! {

/// Memory cache statistics
#[derive(Debug, Clone, Copy, PartialEq, Eq, Structural)]
pub struct MemoryCacheStats {
    /// Number of cache hits
    pub hits: u64,
    /// Number of cache misses
    pub misses: u64,
    /// Memory usage in bytes
    pub memory_usage: usize,
    /// Number of items in cache
    pub items: usize,
    /// Number of evicted items
    pub evictions: u64,
}

impl Default for MemoryCacheStats {
    fn default() -> (s: Self)
        ensures
            s.hits == 0 && s.misses == 0 && s.memory_usage == 0 && s.items == 0 && s.evictions == 0,
    {
        MemoryCacheStats { hits: 0, misses: 0, memory_usage: 0, items: 0, evictions: 0 }
    }
}

/// Memory cache entry with TTL
pub struct MemoryEntry<V> {
    /// Stored value
    pub value: V,
    /// When the entry was put
    pub created: std::time::Instant,
    /// How long the entry lives, if limited
    pub ttl: Option<std::time::Duration>,
}

/// The entries after `put(k, e)` into a cache with entries `s` and the given
/// capacity: a known key takes the new entry and moves to the front; a new
/// key goes in front, after the least recently used entry is dropped when
/// the cache is full.
pub open spec fn memory_put_result<K, E>(s: Seq<(K, E)>, capacity: nat, k: K, e: E) -> Seq<(K, E)> {
    if has_key(s, k) {
        seq![(k, e)] + without_key(s, k)
    } else if s.len() >= capacity && s.len() > 0 {
        seq![(k, e)] + s.drop_last()
    } else {
        seq![(k, e)] + s
    }
}

/// The entries of `s` whose flag in `flags` is not set, in order.
pub open spec fn unflagged<T>(s: Seq<T>, flags: Seq<bool>) -> Seq<T>
    decreases s.len(),
{
    if s.len() == 0 {
        s
    } else {
        let r = unflagged(s.drop_last(), flags);
        if flags[s.len() - 1] {
            r
        } else {
            r.push(s.last())
        }
    }
}

/// The number of flags set among the first `n`.
pub open spec fn flagged_count(flags: Seq<bool>, n: int) -> nat
    decreases n,
{
    if n <= 0 {
        0
    } else {
        flagged_count(flags, n - 1) + (if flags[n - 1] {
            1nat
        } else {
            0nat
        })
    }
}

/// The statistics of a cache with `n` entries: the item count and the
/// memory they take.
pub open spec fn counts_fit<V>(s: MemoryCacheStats, n: nat) -> bool {
    s.items == n && s.memory_usage == n * vstd::layout::size_of::<MemoryEntry<V>>()
}

/// Memory-based cache implementation
pub struct MemoryCache<K, V> {
    capacity: usize,
    entries: Vec<(K, MemoryEntry<V>)>,
    stats: MemoryCacheStats,
}

impl<K, V> MemoryCache<K, V> {
    /// The cache holds what the `lru` crate keeps true (no key twice, no
    /// more entries than the capacity) and statistics that count its
    /// entries.
    pub closed spec fn wf(&self) -> bool {
        &&& distinct_keys(self.entries@)
        &&& self.entries@.len() <= self.capacity
        &&& self.capacity > 0
        &&& self.capacity * vstd::layout::size_of::<MemoryEntry<V>>() <= usize::MAX
        &&& counts_fit::<V>(self.stats, self.entries@.len())
    }

    /// The entries, from the most to the least recently used.
    pub closed spec fn view(&self) -> Seq<(K, MemoryEntry<V>)> {
        self.entries@
    }

    /// The capacity the cache was made with.
    pub closed spec fn capacity_spec(&self) -> nat {
        self.capacity as nat
    }

    /// The statistics.
    pub closed spec fn stats_spec(&self) -> MemoryCacheStats {
        self.stats
    }
}

/// `s` with the misses, evictions and hits moved on, and the counts of a
/// cache with `n` entries.
pub open spec fn stats_after<V>(s: MemoryCacheStats, hits: int, misses: int, evictions: int, n: nat) -> MemoryCacheStats {
    MemoryCacheStats {
        hits: (s.hits + hits) as u64,
        misses: (s.misses + misses) as u64,
        memory_usage: (n * vstd::layout::size_of::<MemoryEntry<V>>()) as usize,
        items: n as usize,
        evictions: (s.evictions + evictions) as u64,
    }
}

impl<K: Clone + Eq + std::hash::Hash, V: Clone> MemoryCache<K, V> {
    /// Create new memory cache with given capacity; the `lru` crate refuses
    /// a capacity of 0 (it panics), and the memory the full cache takes is
    /// counted in a `usize`.
    pub fn new(capacity: usize) -> (c: Self)
        requires
            capacity > 0,
            capacity * vstd::layout::size_of::<MemoryEntry<V>>() <= usize::MAX,
        ensures
            c.wf(),
            c@.len() == 0,
            c.capacity_spec() == capacity,
            c.stats_spec() == (MemoryCacheStats { hits: 0, misses: 0, memory_usage: 0, items: 0, evictions: 0 }),
    {
        MemoryCache { capacity, entries: Vec::new(), stats: MemoryCacheStats::default() }
    }

    /// Sets the item count and memory use for the entries held.
    fn recount(&mut self, n: usize)
        requires
            n <= old(self).capacity,
            old(self).capacity * vstd::layout::size_of::<MemoryEntry<V>>() <= usize::MAX,
        ensures
            final(self).stats.items == n,
            final(self).stats.memory_usage == n * vstd::layout::size_of::<MemoryEntry<V>>(),
            final(self).stats.hits == old(self).stats.hits,
            final(self).stats.misses == old(self).stats.misses,
            final(self).stats.evictions == old(self).stats.evictions,
            final(self).entries == old(self).entries,
            final(self).capacity == old(self).capacity,
    {
        let size = core::mem::size_of::<MemoryEntry<V>>();
        proof {
            vstd::arithmetic::mul::lemma_mul_inequality(n as int, self.capacity as int, size as int);
        }
        self.stats.memory_usage = n * size;
        self.stats.items = n;
    }

    /// The position of `key`, if some entry has it.
    fn position(&self, key: &K) -> (r: Option<usize>)
        requires
            obeys_concrete_eq::<K>(),
        ensures
            r matches Some(i) ==> i < self@.len() && self@[i as int].0 == *key,
            r is None ==> !has_key(self@, *key),
    {
        proof {
            reveal(obeys_concrete_eq);
        }
        let mut i: usize = 0;
        while i < self.entries.len()
            invariant
                i <= self.entries@.len(),
                forall|j: int| 0 <= j < i ==> self.entries@[j].0 != *key,
                K::obeys_eq_spec(),
                forall|x: K, y: K| x.eq_spec(&y) <==> (x == y),
            decreases self.entries@.len() - i,
        {
            if self.entries[i].0 == *key {
                return Some(i);
            }
            i += 1;
        }
        None
    }

    /// Get value by key, given whether its entry has outlived its time to
    /// live: an unknown key is a miss; an expired entry is removed and
    /// counted as a miss and an eviction; a live one becomes the most
    /// recently used, is counted as a hit, and a copy of its value is
    /// returned.
    pub fn get_checked(&mut self, key: &K, expired: bool) -> (r: Option<V>)
        requires
            old(self).wf(),
            obeys_concrete_eq::<K>(),
            old(self).stats_spec().hits < u64::MAX,
            old(self).stats_spec().misses < u64::MAX,
            old(self).stats_spec().evictions < u64::MAX,
        ensures
            final(self).wf(),
            final(self).capacity_spec() == old(self).capacity_spec(),
            !has_key(old(self)@, *key) ==> r is None && final(self)@ == old(self)@ && final(self).stats_spec()
                == stats_after::<V>(old(self).stats_spec(), 0, 1, 0, old(self)@.len()),
            forall|i: int|
                0 <= i < old(self)@.len() && old(self)@[i].0 == *key ==> (if expired {
                    &&& r is None
                    &&& final(self)@ == old(self)@.remove(i)
                    &&& final(self).stats_spec() == stats_after::<V>(old(self).stats_spec(), 0, 1, 1, final(self)@.len())
                } else {
                    &&& r matches Some(v) && cloned(old(self)@[i].1.value, v)
                    &&& final(self)@[0] == old(self)@[i]
                    &&& final(self)@.drop_first() == old(self)@.remove(i)
                    &&& final(self).stats_spec() == stats_after::<V>(old(self).stats_spec(), 1, 0, 0, final(self)@.len())
                }),
    {
        let i = match self.position(key) {
            Some(i) => i,
            None => {
                self.stats.misses = self.stats.misses + 1;
                return None;
            },
        };
        let mut entries = Vec::new();
        std::mem::swap(&mut entries, &mut self.entries);
        let (k, e) = entries.remove(i);
        proof {
            lemma_without_at(old(self)@, *key, i as int);
            lemma_without_props(old(self)@, *key);
        }
        if expired {
            self.entries = entries;
            self.stats.misses = self.stats.misses + 1;
            self.stats.evictions = self.stats.evictions + 1;
            let n = self.entries.len();
            self.recount(n);
            return None;
        }
        let v = e.value.clone();
        entries.insert(0, (k, e));
        proof {
            let w = entries@;
            assert(w.drop_first() =~= old(self)@.remove(i as int));
            assert forall|a: int, b: int| 0 <= a < b < w.len() implies w[a].0 != w[b].0 by {
                if a == 0 {
                    assert(w[b] == old(self)@.remove(i as int)[b - 1]);
                    assert(!has_key(without_key(old(self)@, *key), *key));
                    if w[a].0 == w[b].0 {
                        assert(without_key(old(self)@, *key)[b - 1].0 == *key);
                    }
                } else {
                    assert(w[a] == without_key(old(self)@, *key)[a - 1]);
                    assert(w[b] == without_key(old(self)@, *key)[b - 1]);
                }
            }
        }
        self.entries = entries;
        self.stats.hits = self.stats.hits + 1;
        Some(v)
    }

    /// Get value by key: whether a time-limited entry has outlived its time
    /// to live is read from the clock (`has_expired` of its creation and
    /// time to live); an entry with no limit never expires; `get_checked`
    /// does the rest with that answer.
    pub fn get(&mut self, key: &K) -> (r: Option<V>)
        requires
            old(self).wf(),
            obeys_concrete_eq::<K>(),
            old(self).stats_spec().hits < u64::MAX,
            old(self).stats_spec().misses < u64::MAX,
            old(self).stats_spec().evictions < u64::MAX,
        ensures
            final(self).wf(),
            final(self).capacity_spec() == old(self).capacity_spec(),
            !has_key(old(self)@, *key) ==> r is None && final(self)@ == old(self)@ && final(self).stats_spec()
                == stats_after::<V>(old(self).stats_spec(), 0, 1, 0, old(self)@.len()),
            forall|i: int|
                0 <= i < old(self)@.len() && old(self)@[i].0 == *key ==> ({
                    ||| old(self)@[i].1.ttl is Some && r is None && final(self)@ == old(self)@.remove(i)
                        && final(self).stats_spec() == stats_after::<V>(old(self).stats_spec(), 0, 1, 1, final(self)@.len())
                    ||| (r matches Some(v) && cloned(old(self)@[i].1.value, v)) && final(self)@[0] == old(self)@[i]
                        && final(self)@.drop_first() == old(self)@.remove(i) && final(self).stats_spec() == stats_after::<
                        V,
                    >(old(self).stats_spec(), 1, 0, 0, final(self)@.len())
                }),
    {
        let expired = match self.position(key) {
            Some(i) => match &self.entries[i].1.ttl {
                Some(ttl) => has_expired(&self.entries[i].1.created, ttl).0,
                None => false,
            },
            None => false,
        };
        proof {
            if expired {
                let i = choose|i: int| 0 <= i < old(self)@.len() && old(self)@[i].0 == *key;
                assert forall|j: int| 0 <= j < old(self)@.len() && old(self)@[j].0 == *key implies old(self)@[j].1.ttl is Some by {
                    if j != i {
                        assert(old(self)@[j].0 == old(self)@[i].0);
                    }
                }
            }
        }
        self.get_checked(key, expired)
    }

    /// Put value with key: the entry is stamped now; a known key takes the
    /// new entry and moves to the front; a new key goes in front, after the
    /// least recently used entry is evicted when the cache is full (counted
    /// as an eviction).
    pub fn put(&mut self, key: K, value: V, ttl: Option<std::time::Duration>) -> (r: BlastResult<()>)
        requires
            old(self).wf(),
            obeys_concrete_eq::<K>(),
            old(self).stats_spec().evictions < u64::MAX,
        ensures
            final(self).wf(),
            r is Ok,
            final(self).capacity_spec() == old(self).capacity_spec(),
            final(self)@.len() >= 1,
            final(self)@[0].0 == key,
            final(self)@[0].1.value == value,
            final(self)@[0].1.ttl == ttl,
            final(self)@ == memory_put_result(old(self)@, old(self).capacity_spec(), key, final(self)@[0].1),
            final(self).stats_spec() == stats_after::<V>(
                old(self).stats_spec(),
                0,
                0,
                if !has_key(old(self)@, key) && old(self)@.len() >= old(self).capacity_spec() {
                    1int
                } else {
                    0int
                },
                final(self)@.len(),
            ),
    {
        let entry = MemoryEntry { value, created: crate::time::instant_now(), ttl };
        let ghost s0 = self@;
        let mut entries = Vec::new();
        std::mem::swap(&mut entries, &mut self.entries);
        match self.position_in(&entries, &key) {
            Some(i) => {
                let _ = entries.remove(i);
                proof {
                    lemma_without_at(s0, key, i as int);
                    lemma_without_props(s0, key);
                }
            },
            None => {
                if entries.len() >= self.capacity {
                    let _ = entries.pop();
                    self.stats.evictions = self.stats.evictions + 1;
                    assert(distinct_keys(entries@));
                }
                proof {
                    lemma_without_absent(s0, key);
                }
            },
        }
        let ghost rest = entries@;
        assert(!has_key(rest, key)) by {
            if has_key(rest, key) {
                let j = choose|j: int| 0 <= j < rest.len() && rest[j].0 == key;
                if !has_key(s0, key) {
                    assert(s0[j].0 == key);
                }
            }
        }
        entries.insert(0, (key, entry));
        proof {
            let w = entries@;
            assert(w =~= seq![(key, entry)] + rest);
            assert forall|a: int, b: int| 0 <= a < b < w.len() implies w[a].0 != w[b].0 by {
                if a == 0 && w[a].0 == w[b].0 {
                    assert(rest[b - 1].0 == key);
                }
            }
            if !has_key(s0, key) && s0.len() >= self.capacity && s0.len() > 0 {
                assert(rest =~= s0.drop_last());
            }
        }
        self.entries = entries;
        let n = self.entries.len();
        self.recount(n);
        Ok(())
    }

    /// The position of `key` in `entries`, if some entry has it.
    fn position_in(&self, entries: &Vec<(K, MemoryEntry<V>)>, key: &K) -> (r: Option<usize>)
        requires
            obeys_concrete_eq::<K>(),
        ensures
            r matches Some(i) ==> i < entries@.len() && entries@[i as int].0 == *key,
            r is None ==> !has_key(entries@, *key),
    {
        proof {
            reveal(obeys_concrete_eq);
        }
        let mut i: usize = 0;
        while i < entries.len()
            invariant
                i <= entries@.len(),
                forall|j: int| 0 <= j < i ==> entries@[j].0 != *key,
                K::obeys_eq_spec(),
                forall|x: K, y: K| x.eq_spec(&y) <==> (x == y),
            decreases entries@.len() - i,
        {
            if entries[i].0 == *key {
                return Some(i);
            }
            i += 1;
        }
        None
    }

    /// Remove value by key; a removed entry counts as an eviction.
    pub fn remove(&mut self, key: &K) -> (r: BlastResult<()>)
        requires
            old(self).wf(),
            obeys_concrete_eq::<K>(),
            old(self).stats_spec().evictions < u64::MAX,
        ensures
            final(self).wf(),
            r is Ok,
            final(self).capacity_spec() == old(self).capacity_spec(),
            final(self)@ == without_key(old(self)@, *key),
            final(self).stats_spec() == stats_after::<V>(
                old(self).stats_spec(),
                0,
                0,
                if has_key(old(self)@, *key) {
                    1int
                } else {
                    0int
                },
                final(self)@.len(),
            ),
    {
        match self.position(key) {
            Some(i) => {
                let mut entries = Vec::new();
                std::mem::swap(&mut entries, &mut self.entries);
                let _ = entries.remove(i);
                proof {
                    lemma_without_at(old(self)@, *key, i as int);
                    lemma_without_props(old(self)@, *key);
                }
                self.entries = entries;
                self.stats.evictions = self.stats.evictions + 1;
                let n = self.entries.len();
                self.recount(n);
            },
            None => {
                proof {
                    lemma_without_absent(old(self)@, *key);
                }
            },
        }
        Ok(())
    }

    /// Clear all entries; each counts as an eviction.
    pub fn clear(&mut self) -> (r: BlastResult<()>)
        requires
            old(self).wf(),
            old(self).stats_spec().evictions + old(self)@.len() <= u64::MAX,
        ensures
            final(self).wf(),
            r is Ok,
            final(self).capacity_spec() == old(self).capacity_spec(),
            final(self)@.len() == 0,
            final(self).stats_spec() == stats_after::<V>(old(self).stats_spec(), 0, 0, old(self)@.len() as int, 0),
    {
        self.stats.evictions = self.stats.evictions + self.entries.len() as u64;
        self.entries = Vec::new();
        self.recount(0);
        Ok(())
    }

    /// Remove the entries whose flag in `expired` is set (the entries, from
    /// the most to the least recently used, that outlived their time to
    /// live); each counts as an eviction.
    pub fn cleanup_checked(&mut self, expired: &Vec<bool>) -> (r: BlastResult<()>)
        requires
            old(self).wf(),
            expired@.len() == old(self)@.len(),
            old(self).stats_spec().evictions + flagged_count(expired@, expired@.len() as int) <= u64::MAX,
        ensures
            final(self).wf(),
            r is Ok,
            final(self).capacity_spec() == old(self).capacity_spec(),
            final(self)@ == unflagged(old(self)@, expired@),
            final(self).stats_spec() == stats_after::<V>(
                old(self).stats_spec(),
                0,
                0,
                flagged_count(expired@, expired@.len() as int) as int,
                final(self)@.len(),
            ),
    {
        let ghost s0 = self@;
        let mut entries = Vec::new();
        std::mem::swap(&mut entries, &mut self.entries);
        assert(entries@ =~= s0.subrange(0, s0.len() as int));
        let mut kept: Vec<(K, MemoryEntry<V>)> = Vec::new();
        let mut gone: u64 = 0;
        let n = entries.len();
        let mut i: usize = 0;
        while i < n
            invariant
                n == s0.len(),
                entries@ == s0.subrange(i as int, n as int),
                expired@.len() == n,
                i <= n,
                distinct_keys(s0),
                kept@ == unflagged(s0.take(i as int), expired@),
                kept@.len() <= i,
                gone == flagged_count(expired@, i as int),
                flagged_count(expired@, n as int) <= u64::MAX,
                forall|a: int, j: int| 0 <= a < kept@.len() && i <= j < n ==> #[trigger] kept@[a].0 != #[trigger] s0[j].0,
                distinct_keys(kept@),
            decreases n - i,
        {
            proof {
                lemma_flagged_count_mono(expired@, i + 1, n as int);
            }
            let e = entries.remove(0);
            assert(e == s0[i as int]);
            assert(entries@ =~= s0.subrange(i + 1, n as int));
            let ghost before = kept@;
            proof {
                assert(s0.take(i + 1).drop_last() =~= s0.take(i as int));
            }
            if expired[i] {
                gone = gone + 1;
            } else {
                kept.push(e);
                proof {
                    assert forall|a: int, b: int| 0 <= a < b < kept@.len() implies kept@[a].0 != kept@[b].0 by {
                        if b == kept@.len() - 1 {
                            assert(before[a].0 != s0[i as int].0);
                        }
                    }
                    assert forall|a: int, j: int| 0 <= a < kept@.len() && i + 1 <= j < n implies #[trigger] kept@[a].0
                        != #[trigger] s0[j].0 by {
                        if a == kept@.len() - 1 {
                            assert(s0[i as int].0 != s0[j].0);
                        }
                    }
                }
            }
            i += 1;
        }
        proof {
            assert(s0.take(n as int) =~= s0);
        }
        self.entries = kept;
        self.stats.evictions = self.stats.evictions + gone;
        let m = self.entries.len();
        self.recount(m);
        Ok(())
    }

    /// Remove expired entries: which time-limited entries outlived their
    /// time to live is read from the clock (`has_expired` of each one's
    /// creation and time to live); `cleanup_checked` does the rest.
    pub fn cleanup(&mut self) -> (r: BlastResult<()>)
        requires
            old(self).wf(),
            old(self).stats_spec().evictions + old(self)@.len() <= u64::MAX,
        ensures
            final(self).wf(),
            r is Ok,
            final(self).capacity_spec() == old(self).capacity_spec(),
            exists|flags: Seq<bool>|
                {
                    &&& flags.len() == old(self)@.len()
                    &&& forall|i: int| 0 <= i < flags.len() && #[trigger] flags[i] ==> old(self)@[i].1.ttl is Some
                    &&& final(self)@ == unflagged(old(self)@, flags)
                    &&& final(self).stats_spec() == stats_after::<V>(
                        old(self).stats_spec(),
                        0,
                        0,
                        flagged_count(flags, flags.len() as int) as int,
                        final(self)@.len(),
                    )
                },
    {
        let mut flags: Vec<bool> = Vec::new();
        let mut i: usize = 0;
        while i < self.entries.len()
            invariant
                i <= self.entries@.len(),
                flags@.len() == i,
                forall|j: int| 0 <= j < i && #[trigger] flags@[j] ==> self.entries@[j].1.ttl is Some,
            decreases self.entries@.len() - i,
        {
            let f = match &self.entries[i].1.ttl {
                Some(ttl) => has_expired(&self.entries[i].1.created, ttl).0,
                None => false,
            };
            flags.push(f);
            i += 1;
        }
        proof {
            lemma_flagged_count_bound(flags@, flags@.len() as int);
        }
        let r = self.cleanup_checked(&flags);
        assert(flags@.len() == old(self)@.len());
        r
    }

    /// Get cache statistics
    pub fn stats(&self) -> (s: MemoryCacheStats)
        ensures
            s == self.stats_spec(),
    {
        self.stats
    }
}

/// At most `n` of the first `n` flags are set.
proof fn lemma_flagged_count_bound(flags: Seq<bool>, n: int)
    requires
        0 <= n,
    ensures
        flagged_count(flags, n) <= n,
    decreases n,
{
    if n > 0 {
        lemma_flagged_count_bound(flags, n - 1);
    }
}

/// The count of set flags grows with the number of flags looked at.
proof fn lemma_flagged_count_mono(flags: Seq<bool>, m: int, n: int)
    requires
        0 <= m <= n,
    ensures
        flagged_count(flags, m) <= flagged_count(flags, n),
    decreases n - m,
{
    if m < n {
        lemma_flagged_count_mono(flags, m, n - 1);
    }
}

} // verus!
