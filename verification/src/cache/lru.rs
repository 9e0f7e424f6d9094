//! A bounded cache that forgets its least recently used entry first.
//!
//! The cache is modelled as the sequence of its entries from the most to the
//! least recently used, with no key twice.

use vstd::prelude::*;
use vstd::laws_eq::obeys_concrete_eq;
use vstd::std_specs::cmp::PartialEqSpec;

verus! {

/// `Instant::elapsed`: the time passed since `created` by the monotonic
/// clock. It reads the clock, so nothing is stated of it.
#[verifier::external_body]
fn elapsed_since(created: &std::time::Instant) -> (d: std::time::Duration) {
    created.elapsed()
}

/// The whole nanoseconds in a duration.
pub uninterp spec fn duration_nanos_of(d: std::time::Duration) -> nat;

/// `Duration::as_nanos`: the total whole nanoseconds in `d`, a function of
/// `d` alone (`duration_nanos_of`).
#[verifier::external_body]
fn duration_nanos(d: &std::time::Duration) -> (n: u128)
    ensures
        n == duration_nanos_of(*d),
{
    d.as_nanos()
}

/// Whether an entry created at `created` has outlived `ttl`: the time
/// passed since then, read from the clock, is strictly more than `ttl`,
/// counted in whole nanoseconds. The reading comes back beside the answer.
pub(crate) fn has_expired(created: &std::time::Instant, ttl: &std::time::Duration) -> (r: (bool, u128))
    ensures
        r.0 == (r.1 > duration_nanos_of(*ttl)),
{
    let elapsed = duration_nanos(&elapsed_since(created));
    let limit = duration_nanos(ttl);
    (elapsed > limit, elapsed)
}

/// The entry for `key` in `s` has outlived its time to live when
/// `elapsed` nanoseconds have passed since it was created.
pub open spec fn outlived<K, V>(s: Seq<(K, LruEntry<V>)>, key: K, elapsed: u128) -> bool {
    exists|i: int| 0 <= i < s.len() && s[i].0 == key && elapsed > duration_nanos_of(#[trigger] s[i].1.ttl)
}

/// LRU cache entry
pub struct LruEntry<V> {
    /// Stored value
    pub value: V,
    /// When the entry was created
    pub created: std::time::Instant,
    /// Time-to-live duration
    pub ttl: std::time::Duration,
    /// Number of times this entry was accessed
    pub hits: u64,
}

impl<V: Clone> Clone for LruEntry<V> {
    fn clone(&self) -> (r: Self)
        ensures
            cloned(self.value, r.value),
            r.created == self.created,
            r.ttl == self.ttl,
            r.hits == self.hits,
    {
        LruEntry { value: self.value.clone(), created: self.created, ttl: self.ttl, hits: self.hits }
    }
}

/// No key occurs twice among the entries.
pub open spec fn distinct_keys<K, E>(s: Seq<(K, E)>) -> bool {
    forall|i: int, j: int| 0 <= i < j < s.len() ==> s[i].0 != s[j].0
}

/// Some entry has key `k`.
pub open spec fn has_key<K, E>(s: Seq<(K, E)>, k: K) -> bool {
    exists|i: int| 0 <= i < s.len() && s[i].0 == k
}

/// The entries of `s` whose key is not `k`, in order.
pub open spec fn without_key<K, E>(s: Seq<(K, E)>, k: K) -> Seq<(K, E)>
    decreases s.len(),
{
    if s.len() == 0 {
        s
    } else {
        let r = without_key(s.drop_last(), k);
        if s.last().0 == k {
            r
        } else {
            r.push(s.last())
        }
    }
}

/// The entries after `put(k, e)` into a cache with entries `s` and the given
/// capacity: when full, the least recently used entry is evicted; then any
/// entry for `k` is dropped and `(k, e)` becomes the most recently used.
pub open spec fn put_result<K, E>(s: Seq<(K, E)>, capacity: nat, k: K, e: E) -> Seq<(K, E)> {
    let kept = if s.len() >= capacity && s.len() > 0 {
        s.drop_last()
    } else {
        s
    };
    seq![(k, e)] + without_key(kept, k)
}

/// Without any entry for `k`, dropping `k` changes nothing.
pub proof fn lemma_without_absent<K, E>(s: Seq<(K, E)>, k: K)
    requires
        !has_key(s, k),
    ensures
        without_key(s, k) == s,
    decreases s.len(),
{
    if s.len() > 0 {
        assert(!has_key(s.drop_last(), k)) by {
            if has_key(s.drop_last(), k) {
                let i = choose|i: int| 0 <= i < s.len() - 1 && s.drop_last()[i].0 == k;
                assert(s[i].0 == k);
            }
        }
        lemma_without_absent(s.drop_last(), k);
        assert(s.last().0 != k);
        assert(s.drop_last().push(s.last()) =~= s);
    }
}

/// With distinct keys and `k` at position `i`, dropping `k` removes position `i`.
pub proof fn lemma_without_at<K, E>(s: Seq<(K, E)>, k: K, i: int)
    requires
        distinct_keys(s),
        0 <= i < s.len(),
        s[i].0 == k,
    ensures
        without_key(s, k) == s.remove(i),
    decreases s.len(),
{
    let d = s.drop_last();
    if i == s.len() - 1 {
        assert(!has_key(d, k)) by {
            if has_key(d, k) {
                let j = choose|j: int| 0 <= j < d.len() && d[j].0 == k;
                assert(s[j].0 == s[i].0);
            }
        }
        lemma_without_absent(d, k);
        assert(d =~= s.remove(i));
    } else {
        assert(distinct_keys(d));
        lemma_without_at(d, k, i);
        assert(s.last().0 != k);
        assert(d.remove(i).push(s.last()) =~= s.remove(i));
    }
}

proof fn lemma_has_key_push<K, E>(t: Seq<(K, E)>, e: (K, E), x: K)
    ensures
        has_key(t.push(e), x) == (has_key(t, x) || e.0 == x),
{
    let w = t.push(e);
    if has_key(w, x) {
        let i = choose|i: int| 0 <= i < w.len() && w[i].0 == x;
        if i < t.len() {
            assert(t[i].0 == x);
        }
    }
    if has_key(t, x) {
        let i = choose|i: int| 0 <= i < t.len() && t[i].0 == x;
        assert(w[i].0 == x);
    }
    if e.0 == x {
        assert(w[t.len() as int].0 == x);
    }
}

/// Dropping a key keeps keys distinct and drops exactly that key.
pub proof fn lemma_without_props<K, E>(s: Seq<(K, E)>, k: K)
    requires
        distinct_keys(s),
    ensures
        distinct_keys(without_key(s, k)),
        !has_key(without_key(s, k), k),
        forall|x: K| x != k ==> (has_key(without_key(s, k), x) == has_key(s, x)),
        without_key(s, k).len() <= s.len(),
    decreases s.len(),
{
    if s.len() > 0 {
        let d = s.drop_last();
        assert(distinct_keys(d));
        lemma_without_props(d, k);
        let r = without_key(d, k);
        assert(s =~= d.push(s.last()));
        assert forall|x: K| x != k implies (has_key(without_key(s, k), x) == has_key(s, x)) by {
            lemma_has_key_push(d, s.last(), x);
            if s.last().0 != k {
                lemma_has_key_push(r, s.last(), x);
            }
        }
        if s.last().0 != k {
            let w = r.push(s.last());
            assert forall|i: int, j: int| 0 <= i < j < w.len() implies w[i].0 != w[j].0 by {
                if j == w.len() - 1 {
                    if w[i].0 == w[j].0 {
                        assert(has_key(r, s.last().0));
                        assert(has_key(d, s.last().0));
                        let m = choose|m: int| 0 <= m < d.len() && d[m].0 == s.last().0;
                        assert(s[m].0 == s[s.len() - 1].0);
                    }
                }
            }
            assert(!has_key(w, k)) by {
                if has_key(w, k) {
                    let m = choose|m: int| 0 <= m < w.len() && w[m].0 == k;
                    if m < r.len() {
                        assert(r[m].0 == k);
                    }
                }
            }
        }
    }
}

/// A lookup of `key` in the entries `s` gave `r` and left `t`, the entry
/// having `expired` or not: without an entry for the key nothing changes and
/// nothing is returned; an expired entry is removed and not returned; a live
/// one moves to the front with one more hit, and a copy of it as it was is
/// returned.
pub open spec fn looked_up<K, V: Clone>(
    s: Seq<(K, LruEntry<V>)>,
    t: Seq<(K, LruEntry<V>)>,
    key: K,
    r: Option<LruEntry<V>>,
    expired: bool,
) -> bool {
    &&& !has_key(s, key) ==> r is None && t == s
    &&& forall|i: int|
        0 <= i < s.len() && s[i].0 == key ==> ({
            let old_e = s[i].1;
            if expired {
                r is None && t == s.remove(i)
            } else {
                &&& r matches Some(e)
                &&& cloned(old_e.value, e.value)
                &&& e.created == old_e.created
                &&& e.ttl == old_e.ttl
                &&& e.hits == old_e.hits
                &&& t.len() == s.len()
                &&& t[0].0 == key
                &&& t[0].1.value == old_e.value
                &&& t[0].1.created == old_e.created
                &&& t[0].1.ttl == old_e.ttl
                &&& t[0].1.hits == old_e.hits + 1
                &&& t.drop_first() == s.remove(i)
            }
        })
}

/// LRU cache implementation
pub struct LruCache<K, V> {
    /// Maximum number of entries
    capacity: usize,
    /// Stored entries, from the most to the least recently used
    entries: Vec<(K, LruEntry<V>)>,
}

impl<K, V> LruCache<K, V> {
    #[verifier::type_invariant]
    spec fn keys_distinct(self) -> bool {
        distinct_keys(self.entries@)
    }

    /// The entries, from the most to the least recently used.
    pub closed spec fn view(&self) -> Seq<(K, LruEntry<V>)> {
        self.entries@
    }

    /// The capacity the cache was made with.
    pub closed spec fn capacity_spec(&self) -> nat {
        self.capacity as nat
    }
}

impl<K: Clone + Eq + std::hash::Hash, V> LruCache<K, V> {
    /// Create new LRU cache with given capacity
    pub fn new(capacity: usize) -> (c: Self)
        ensures
            c@ == Seq::<(K, LruEntry<V>)>::empty(),
            c.capacity_spec() == capacity,
    {
        LruCache { capacity, entries: Vec::new() }
    }

    /// The position of `key`, if some entry has it.
    fn position(&self, key: &K) -> (r: Option<usize>)
        requires
            obeys_concrete_eq::<K>(),
        ensures
            r matches Some(i) ==> i < self@.len() && self@[i as int].0 == *key,
            r is None ==> !has_key(self@, *key),
    {
        proof {
            reveal(obeys_concrete_eq);
        }
        let mut i: usize = 0;
        while i < self.entries.len()
            invariant
                i <= self.entries@.len(),
                forall|j: int| 0 <= j < i ==> self.entries@[j].0 != *key,
                K::obeys_eq_spec(),
                forall|x: K, y: K| x.eq_spec(&y) <==> (x == y),
            decreases self.entries@.len() - i,
        {
            if self.entries[i].0 == *key {
                return Some(i);
            }
            i += 1;
        }
        None
    }

    /// Remove entry by key
    pub fn remove(&mut self, key: &K) -> (r: Option<LruEntry<V>>)
        requires
            obeys_concrete_eq::<K>(),
        ensures
            distinct_keys(final(self)@),
            final(self).capacity_spec() == old(self).capacity_spec(),
            !has_key(old(self)@, *key) ==> r is None && final(self)@ == old(self)@,
            forall|i: int|
                0 <= i < old(self)@.len() && old(self)@[i].0 == *key ==> r == Some(old(self)@[i].1)
                    && final(self)@ == old(self)@.remove(i),
            final(self)@ == without_key(old(self)@, *key),
    {
        proof {
            use_type_invariant(&*self);
        }
        match self.position(key) {
            Some(i) => {
                let mut entries = Vec::new();
                std::mem::swap(&mut entries, &mut self.entries);
                let (_, e) = entries.remove(i);
                proof {
                    lemma_without_at(old(self)@, *key, i as int);
                    lemma_without_props(old(self)@, *key);
                }
                self.entries = entries;
                Some(e)
            },
            None => {
                proof {
                    lemma_without_absent(self@, *key);
                }
                None
            },
        }
    }

    /// Get entry by key, given whether its entry has expired: an expired
    /// entry is removed and not returned; a live one becomes the most
    /// recently used, its hit count goes up by one, and a copy of it as it
    /// was before the lookup is returned. Without an entry for the key
    /// nothing changes.
    pub fn get_checked(&mut self, key: &K, expired: bool) -> (r: Option<LruEntry<V>>)
        where
            V: Clone,
        requires
            obeys_concrete_eq::<K>(),
            !expired ==> forall|i: int|
                0 <= i < old(self)@.len() && old(self)@[i].0 == *key ==> old(self)@[i].1.hits
                    < u64::MAX,
        ensures
            distinct_keys(final(self)@),
            final(self).capacity_spec() == old(self).capacity_spec(),
            looked_up(old(self)@, final(self)@, *key, r, expired),
    {
        proof {
            use_type_invariant(&*self);
        }
        let i = match self.position(key) {
            Some(i) => i,
            None => return None,
        };
        if expired {
            let _ = self.remove(key);
            proof {
                lemma_without_at(old(self)@, *key, i as int);
            }
            return None;
        }
        let copy = self.entries[i].1.clone();
        let mut entries = Vec::new();
        std::mem::swap(&mut entries, &mut self.entries);
        let (k, mut e) = entries.remove(i);
        e.hits = e.hits + 1;
        proof {
            lemma_without_at(old(self)@, *key, i as int);
            lemma_without_props(old(self)@, *key);
        }
        entries.insert(0, (k, e));
        proof {
            let w = entries@;
            assert(w.drop_first() =~= old(self)@.remove(i as int));
            assert forall|a: int, b: int| 0 <= a < b < w.len() implies w[a].0 != w[b].0 by {
                if a == 0 {
                    assert(w[b] == old(self)@.remove(i as int)[b - 1]);
                    assert(!has_key(without_key(old(self)@, *key), *key));
                    if w[a].0 == w[b].0 {
                        assert(without_key(old(self)@, *key)[b - 1].0 == *key);
                    }
                } else {
                    assert(w[a] == without_key(old(self)@, *key)[a - 1]);
                    assert(w[b] == without_key(old(self)@, *key)[b - 1]);
                }
            }
        }
        self.entries = entries;
        Some(copy)
    }

    /// Get entry by key: the entry has expired when the time passed since
    /// its creation, read from the clock, is more than its time to live
    /// (`has_expired`, `outlived`); `get_checked` does the rest with that
    /// answer.
    pub fn get(&mut self, key: &K) -> (r: Option<LruEntry<V>>)
        where
            V: Clone,
        requires
            obeys_concrete_eq::<K>(),
            forall|i: int|
                0 <= i < old(self)@.len() && old(self)@[i].0 == *key ==> old(self)@[i].1.hits
                    < u64::MAX,
        ensures
            distinct_keys(final(self)@),
            final(self).capacity_spec() == old(self).capacity_spec(),
            exists|elapsed: u128|
                #[trigger] looked_up(old(self)@, final(self)@, *key, r, outlived(old(self)@, *key, elapsed)),
    {
        proof {
            use_type_invariant(&*self);
        }
        let i = match self.position(key) {
            Some(i) => i,
            None => {
                proof {
                    assert(looked_up(old(self)@, self@, *key, None::<LruEntry<V>>, outlived(old(self)@, *key, 0)));
                }
                return None;
            },
        };
        let (expired, elapsed) = has_expired(&self.entries[i].1.created, &self.entries[i].1.ttl);
        proof {
            assert(old(self)@[i as int].0 == *key);
            if outlived(old(self)@, *key, elapsed) {
                let j = choose|j: int|
                    0 <= j < old(self)@.len() && old(self)@[j].0 == *key && elapsed > duration_nanos_of(
                        #[trigger] old(self)@[j].1.ttl,
                    );
                assert(old(self)@[j].0 == old(self)@[i as int].0);
            }
            assert(expired == outlived(old(self)@, *key, elapsed));
        }
        let r = self.get_checked(key, expired);
        assert(looked_up(old(self)@, self@, *key, r, outlived(old(self)@, *key, elapsed)));
        r
    }

    /// Put entry in cache: when the cache is full, the least recently used
    /// entry is evicted first; the new entry, created now with no hits,
    /// replaces any entry for the same key and becomes the most recently used.
    pub fn put(&mut self, key: K, value: V, ttl: std::time::Duration)
        requires
            obeys_concrete_eq::<K>(),
        ensures
            distinct_keys(final(self)@),
            final(self).capacity_spec() == old(self).capacity_spec(),
            final(self)@.len() >= 1,
            final(self)@[0].0 == key,
            final(self)@[0].1.value == value,
            final(self)@[0].1.ttl == ttl,
            final(self)@[0].1.hits == 0,
            final(self)@.drop_first() == put_result(
                old(self)@,
                old(self).capacity_spec(),
                key,
                final(self)@[0].1,
            ).drop_first(),
            final(self)@ == put_result(old(self)@, old(self).capacity_spec(), key, final(self)@[0].1),
    {
        proof {
            use_type_invariant(&*self);
        }
        let entry = LruEntry { value, created: crate::time::instant_now(), ttl, hits: 0 };
        let ghost s0 = self@;
        let mut entries = Vec::new();
        std::mem::swap(&mut entries, &mut self.entries);
        if entries.len() >= self.capacity {
            let _ = entries.pop();
        }
        let ghost kept = entries@;
        assert(kept =~= (if s0.len() >= self.capacity && s0.len() > 0 {
            s0.drop_last()
        } else {
            s0
        }));
        assert(distinct_keys(kept));
        self.entries = entries;
        let _ = self.remove(&key);
        let mut entries = Vec::new();
        std::mem::swap(&mut entries, &mut self.entries);
        let ghost rest = entries@;
        proof {
            lemma_without_props(kept, key);
        }
        entries.insert(0, (key, entry));
        proof {
            let w = entries@;
            assert(w =~= seq![(key, entry)] + rest);
            assert forall|a: int, b: int| 0 <= a < b < w.len() implies w[a].0 != w[b].0 by {
                if a == 0 && w[a].0 == w[b].0 {
                    assert(rest[b - 1].0 == key);
                    assert(has_key(rest, key));
                }
            }
        }
        self.entries = entries;
    }

    /// Remove and return least recently used entry
    pub fn pop_lru(&mut self) -> (r: Option<(K, LruEntry<V>)>)
        ensures
            distinct_keys(final(self)@),
            final(self).capacity_spec() == old(self).capacity_spec(),
            old(self)@.len() == 0 ==> r is None && final(self)@ == old(self)@,
            old(self)@.len() > 0 ==> r == Some(old(self)@.last()) && final(self)@ == old(
                self,
            )@.drop_last(),
    {
        proof {
            use_type_invariant(&*self);
        }
        let mut entries = Vec::new();
        std::mem::swap(&mut entries, &mut self.entries);
        let r = entries.pop();
        assert(distinct_keys(entries@));
        self.entries = entries;
        r
    }

    /// Clear all entries
    pub fn clear(&mut self)
        ensures
            final(self)@ == Seq::<(K, LruEntry<V>)>::empty(),
            final(self).capacity_spec() == old(self).capacity_spec(),
    {
        self.entries = Vec::new();
    }

    /// Get number of entries
    pub fn len(&self) -> (n: usize)
        ensures
            n == self@.len(),
    {
        self.entries.len()
    }

    /// Check if cache is empty
    pub fn is_empty(&self) -> (b: bool)
        ensures
            b == (self@.len() == 0),
    {
        self.entries.len() == 0
    }

    /// The entries with their keys, from the most to the least recently used.
    pub fn iter(&self) -> (r: Vec<(&K, &LruEntry<V>)>)
        ensures
            r@.len() == self@.len(),
            forall|i: int|
                0 <= i < r@.len() ==> *(#[trigger] r@[i]).0 == self@[i].0 && *r@[i].1
                    == self@[i].1,
    {
        let mut r: Vec<(&K, &LruEntry<V>)> = Vec::new();
        let mut i: usize = 0;
        while i < self.entries.len()
            invariant
                i <= self.entries@.len(),
                r@.len() == i,
                forall|j: int|
                    0 <= j < i ==> *(#[trigger] r@[j]).0 == self.entries@[j].0 && *r@[j].1
                        == self.entries@[j].1,
            decreases self.entries@.len() - i,
        {
            let (k, e) = &self.entries[i];
            r.push((k, e));
            i += 1;
        }
        r
    }
}

/// A cache within its capacity stays within it after a `put`, for any
/// capacity of at least one, and keeps its keys distinct.
pub proof fn law_put_within_capacity<K, E>(s: Seq<(K, E)>, capacity: nat, k: K, e: E)
    requires
        distinct_keys(s),
        s.len() <= capacity,
        capacity >= 1,
    ensures
        put_result(s, capacity, k, e).len() <= capacity,
        has_key(put_result(s, capacity, k, e), k),
{
    let kept = if s.len() >= capacity && s.len() > 0 {
        s.drop_last()
    } else {
        s
    };
    assert(distinct_keys(kept));
    lemma_without_props(kept, k);
    assert(put_result(s, capacity, k, e)[0].0 == k);
}

/// When a full cache takes a key it does not hold, the least recently used
/// entry is the one evicted and the rest keep their order behind the new
/// entry.
pub proof fn law_put_evicts_least_recent<K, E>(s: Seq<(K, E)>, capacity: nat, k: K, e: E)
    requires
        distinct_keys(s),
        s.len() == capacity,
        capacity >= 1,
        !has_key(s, k),
    ensures
        put_result(s, capacity, k, e) == seq![(k, e)] + s.drop_last(),
        !has_key(put_result(s, capacity, k, e).drop_first(), s.last().0),
{
    let kept = s.drop_last();
    assert(!has_key(kept, k)) by {
        if has_key(kept, k) {
            let i = choose|i: int| 0 <= i < kept.len() && kept[i].0 == k;
            assert(s[i].0 == k);
        }
    }
    lemma_without_absent(kept, k);
    let r = put_result(s, capacity, k, e);
    assert(r.drop_first() =~= kept);
    assert(!has_key(kept, s.last().0)) by {
        if has_key(kept, s.last().0) {
            let i = choose|i: int| 0 <= i < kept.len() && kept[i].0 == s.last().0;
            assert(s[i].0 == s[s.len() - 1].0);
        }
    }
}

/// Putting a key that the cache holds, below capacity, moves it to the
/// front with its new entry and keeps every other entry in order.
pub proof fn law_put_existing_below_capacity<K, E>(s: Seq<(K, E)>, capacity: nat, k: K, e: E, i: int)
    requires
        distinct_keys(s),
        s.len() < capacity,
        0 <= i < s.len(),
        s[i].0 == k,
    ensures
        put_result(s, capacity, k, e) == seq![(k, e)] + s.remove(i),
{
    lemma_without_at(s, k, i);
}

} // verus!
