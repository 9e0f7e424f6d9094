//! Storage that keeps track of its items in least-recently-used order with
//! the `lru` crate, evicting the least recently used item from its backend
//! when full.

use vstd::prelude::*;
use crate::cache::storage::{cache_failure, CacheStorage};
use crate::error::{BlastError, BlastResult};

verus! {

/// The digests of the items a storage tracks, held in an `lru::LruCache`
/// with no values, from the most to the least recently used.
#[verifier::external_body]
pub struct LruItems {
    items: ::lru::LruCache<[u8; 32], ()>,
}

/// The digests in `c`, from the most to the least recently used.
pub uninterp spec fn lru_items(c: LruItems) -> Seq<Seq<u8>>;

/// The capacity `c` was made with.
pub uninterp spec fn lru_capacity(c: LruItems) -> nat;

/// The test that keeps every digest but `k`.
pub open spec fn other_than(k: Seq<u8>) -> spec_fn(Seq<u8>) -> bool {
    |x: Seq<u8>| x != k
}

/// `s` with `k` moved (or put) in front.
pub open spec fn to_front(s: Seq<Seq<u8>>, k: Seq<u8>) -> Seq<Seq<u8>> {
    seq![k] + s.filter(other_than(k))
}

/// The digests after `LruCache::put(k, ())`: a known digest moves to the
/// front; a new one goes in front, after the least recently used is dropped
/// when the cache is full.
pub open spec fn put_order(s: Seq<Seq<u8>>, cap: nat, k: Seq<u8>) -> Seq<Seq<u8>> {
    if s.contains(k) {
        to_front(s, k)
    } else if s.len() == cap && s.len() > 0 {
        seq![k] + s.drop_last()
    } else {
        seq![k] + s
    }
}

/// What the `lru` crate keeps true: no digest twice, and no more digests
/// than the capacity.
pub open spec fn lru_fits(s: Seq<Seq<u8>>, cap: nat) -> bool {
    s.no_duplicates() && s.len() <= cap
}

/// `LruCache::new(NonZeroUsize::new(cap).unwrap())`: no items yet. The
/// `unwrap` panics for a capacity of 0.
#[verifier::external_body]
fn lru_new(cap: usize) -> (c: LruItems)
    requires
        cap > 0,
    ensures
        lru_items(c).len() == 0,
        lru_capacity(c) == cap,
{
    LruItems { items: ::lru::LruCache::new(std::num::NonZeroUsize::new(cap).unwrap()) }
}

/// `LruCache::len`: the number of digests.
#[verifier::external_body]
fn lru_len(c: &LruItems) -> (n: usize)
    ensures
        n == lru_items(*c).len(),
{
    c.items.len()
}

/// `LruCache::put(k, ())` (see `put_order`).
#[verifier::external_body]
fn lru_put(c: &mut LruItems, k: [u8; 32])
    ensures
        lru_capacity(*final(c)) == lru_capacity(*old(c)),
        lru_items(*final(c)) == put_order(lru_items(*old(c)), lru_capacity(*old(c)), k@),
        lru_fits(lru_items(*final(c)), lru_capacity(*final(c))),
{
    let _ = c.items.put(k, ());
}

/// `LruCache::get(k).is_some()`: whether `k` is listed; a listed digest
/// moves to the front.
#[verifier::external_body]
fn lru_get(c: &mut LruItems, k: &[u8; 32]) -> (b: bool)
    ensures
        b == lru_items(*old(c)).contains(k@),
        lru_capacity(*final(c)) == lru_capacity(*old(c)),
        lru_items(*final(c)) == (if b {
            to_front(lru_items(*old(c)), k@)
        } else {
            lru_items(*old(c))
        }),
        lru_fits(lru_items(*final(c)), lru_capacity(*final(c))),
{
    c.items.get(k).is_some()
}

/// `LruCache::promote(k)`: a listed digest moves to the front.
#[verifier::external_body]
fn lru_promote(c: &mut LruItems, k: &[u8; 32])
    ensures
        lru_capacity(*final(c)) == lru_capacity(*old(c)),
        lru_items(*final(c)) == (if lru_items(*old(c)).contains(k@) {
            to_front(lru_items(*old(c)), k@)
        } else {
            lru_items(*old(c))
        }),
        lru_fits(lru_items(*final(c)), lru_capacity(*final(c))),
{
    c.items.promote(k)
}

/// `LruCache::pop(k)`: `k` is no longer listed.
#[verifier::external_body]
fn lru_pop(c: &mut LruItems, k: &[u8; 32])
    ensures
        lru_capacity(*final(c)) == lru_capacity(*old(c)),
        lru_items(*final(c)) == lru_items(*old(c)).filter(other_than(k@)),
        lru_fits(lru_items(*final(c)), lru_capacity(*final(c))),
{
    let _ = c.items.pop(k);
}

/// `LruCache::pop_lru`: the least recently used digest, no longer listed.
#[verifier::external_body]
fn lru_pop_lru(c: &mut LruItems) -> (r: Option<[u8; 32]>)
    ensures
        lru_capacity(*final(c)) == lru_capacity(*old(c)),
        lru_items(*old(c)).len() == 0 ==> r is None && lru_items(*final(c)) == lru_items(*old(c)),
        lru_items(*old(c)).len() > 0 ==> (r matches Some(k) && k@ == lru_items(*old(c)).last() && lru_items(
            *final(c),
        ) == lru_items(*old(c)).drop_last()),
        lru_fits(lru_items(*final(c)), lru_capacity(*final(c))),
{
    c.items.pop_lru().map(|(k, _)| k)
}

/// `LruCache::clear`: nothing is listed.
#[verifier::external_body]
fn lru_clear(c: &mut LruItems)
    ensures
        lru_capacity(*final(c)) == lru_capacity(*old(c)),
        lru_items(*final(c)).len() == 0,
{
    c.items.clear()
}

/// The digests listed after a store of `k` into a storage tracking `s`
/// with capacity `cap`: when full, the least recently used is dropped
/// first, then `k` is put.
pub open spec fn stored_order(s: Seq<Seq<u8>>, cap: nat, k: Seq<u8>) -> Seq<Seq<u8>> {
    let kept = if s.len() >= cap && s.len() > 0 {
        s.drop_last()
    } else {
        s
    };
    put_order(kept, cap, k)
}

/// LRU cache storage implementation
pub struct LRUCache<S: CacheStorage> {
    inner: S,
    capacity: usize,
    items: LruItems,
}

impl<S: CacheStorage> LRUCache<S> {
    /// The backend.
    pub closed spec fn inner_spec(&self) -> S {
        self.inner
    }

    /// The digests listed, from the most to the least recently used.
    pub closed spec fn recency(&self) -> Seq<Seq<u8>> {
        lru_items(self.items)
    }

    /// The capacity.
    pub closed spec fn capacity_spec(&self) -> nat {
        self.capacity as nat
    }

    /// The tracker holds the storage's capacity.
    pub closed spec fn wf(&self) -> bool {
        lru_capacity(self.items) == self.capacity
    }

    /// Create new LRU cache with given capacity; a capacity of 0 is refused
    /// by the `lru` crate (it panics).
    pub fn new(inner: S, capacity: usize) -> (c: Self)
        requires
            capacity > 0,
        ensures
            c.wf(),
            c.inner_spec() == inner,
            c.capacity_spec() == capacity,
            c.recency().len() == 0,
    {
        LRUCache { inner, capacity, items: lru_new(capacity) }
    }

    /// Stores `data` under `hash` in the backend; then, when the tracker is
    /// full, its least recently used digest is dropped and removed from the
    /// backend (whatever comes of that), and `hash` is listed as the most
    /// recently used. When the backend refuses, nothing changes.
    pub fn store(&mut self, hash: &[u8; 32], data: &[u8]) -> (r: BlastResult<()>)
        requires
            old(self).wf(),
            old(self).inner_spec().well_formed(),
        ensures
            final(self).wf(),
            final(self).inner_spec().well_formed(),
            final(self).capacity_spec() == old(self).capacity_spec(),
            old(self).inner_spec().can_store(hash@, data@) ==> r is Ok,
            r is Err ==> final(self).recency() == old(self).recency() && final(self).inner_spec().contents()
                == old(self).inner_spec().contents(),
            r is Ok ==> final(self).recency() == stored_order(old(self).recency(), old(self).capacity_spec(), hash@),
            r is Ok ==> ({
                let c1 = old(self).inner_spec().contents().insert(hash@, data@);
                let s = old(self).recency();
                if s.len() >= old(self).capacity_spec() && s.len() > 0 {
                    final(self).inner_spec().contents() == c1 || final(self).inner_spec().contents() == c1.remove(
                        s.last(),
                    )
                } else {
                    final(self).inner_spec().contents() == c1
                }
            }),
    {
        match self.inner.store(hash, data) {
            Ok(()) => {},
            Err(e) => {
                return Err(e);
            },
        }
        if lru_len(&self.items) >= self.capacity {
            if let Some(old_hash) = lru_pop_lru(&mut self.items) {
                let _ = self.inner.remove(&old_hash);
            }
        }
        lru_put(&mut self.items, *hash);
        Ok(())
    }

    /// The item stored under `hash`: refused with "Data not found" when
    /// `hash` is not listed; otherwise `hash` becomes the most recently
    /// used and the backend's item is returned.
    pub fn load(&mut self, hash: &[u8; 32]) -> (r: BlastResult<Vec<u8>>)
        requires
            old(self).wf(),
            old(self).inner_spec().well_formed(),
        ensures
            final(self).wf(),
            final(self).inner_spec() == old(self).inner_spec(),
            final(self).capacity_spec() == old(self).capacity_spec(),
            !old(self).recency().contains(hash@) ==> r is Err && cache_failure(r->Err_0, "Data not found"@)
                && final(self).recency() == old(self).recency(),
            old(self).recency().contains(hash@) ==> {
                &&& final(self).recency() == to_front(old(self).recency(), hash@)
                &&& r matches Ok(v) ==> old(self).inner_spec().contents().contains_key(hash@) && v@
                    == old(self).inner_spec().contents()[hash@]
                &&& !old(self).inner_spec().contents().contains_key(hash@) ==> r is Err
                &&& old(self).inner_spec().contents().contains_key(hash@) && old(self).inner_spec().can_load(hash@)
                    ==> r is Ok
            },
    {
        if lru_get(&mut self.items, hash) {
            let data = match self.inner.load(hash) {
                Ok(d) => d,
                Err(e) => {
                    return Err(e);
                },
            };
            lru_promote(&mut self.items, hash);
            proof {
                lemma_to_front_twice(lru_items(old(self).items), hash@);
            }
            Ok(data)
        } else {
            Err(BlastError::cache("Data not found"))
        }
    }

    /// Stops listing `hash`, then removes its item from the backend.
    pub fn remove(&mut self, hash: &[u8; 32]) -> (r: BlastResult<()>)
        requires
            old(self).wf(),
            old(self).inner_spec().well_formed(),
        ensures
            final(self).wf(),
            final(self).inner_spec().well_formed(),
            final(self).capacity_spec() == old(self).capacity_spec(),
            final(self).recency() == old(self).recency().filter(other_than(hash@)),
            old(self).inner_spec().can_remove(hash@) ==> r is Ok,
            r is Ok ==> final(self).inner_spec().contents() == old(self).inner_spec().contents().remove(hash@),
            r is Err ==> final(self).inner_spec().contents() == old(self).inner_spec().contents(),
    {
        lru_pop(&mut self.items, hash);
        self.inner.remove(hash)
    }

    /// Stops listing every digest, then clears the backend.
    pub fn clear(&mut self) -> (r: BlastResult<()>)
        requires
            old(self).wf(),
            old(self).inner_spec().well_formed(),
        ensures
            final(self).wf(),
            final(self).inner_spec().well_formed(),
            final(self).capacity_spec() == old(self).capacity_spec(),
            final(self).recency().len() == 0,
            old(self).inner_spec().can_clear() ==> r is Ok,
            r is Ok ==> final(self).inner_spec().contents() == Map::<Seq<u8>, Seq<u8>>::empty(),
    {
        lru_clear(&mut self.items);
        self.inner.clear()
    }

    /// Where the backend keeps the item stored under `hash`.
    pub fn hash_path(&self, hash: &[u8; 32]) -> (p: String)
        ensures
            p@ == self.inner_spec().path_of(hash@),
    {
        self.inner.hash_path(hash)
    }
}

/// Moving an element to the front twice is moving it once.
proof fn lemma_to_front_twice(s: Seq<Seq<u8>>, k: Seq<u8>)
    ensures
        to_front(to_front(s, k), k) == to_front(s, k),
{
    let pred = other_than(k);
    let t = s.filter(pred);
    t.filter_lemma(pred);
    assert(!t.contains(k)) by {
        if t.contains(k) {
            let i = choose|i: int| 0 <= i < t.len() && t[i] == k;
            assert(pred(t[i]));
        }
    }
    lemma_filter_keeps(t, k);
    Seq::<Seq<u8>>::empty().lemma_filter_push(k, pred);
    assert(Seq::<Seq<u8>>::empty().filter(pred) =~= Seq::<Seq<u8>>::empty()) by {
        Seq::<Seq<u8>>::empty().lemma_filter_len(pred);
    }
    assert(Seq::<Seq<u8>>::empty().push(k) =~= seq![k]);
    Seq::filter_distributes_over_add(seq![k], t, pred);
    assert((seq![k] + t).filter(pred) =~= t);
    assert(to_front(s, k) == seq![k] + t);
    assert(to_front(to_front(s, k), k) == seq![k] + (seq![k] + t).filter(pred));
}

/// Filtering out an element that does not occur keeps the sequence.
proof fn lemma_filter_keeps(t: Seq<Seq<u8>>, k: Seq<u8>)
    requires
        !t.contains(k),
    ensures
        t.filter(other_than(k)) == t,
    decreases t.len(),
{
    if t.len() > 0 {
        assert(!t.drop_last().contains(k)) by {
            if t.drop_last().contains(k) {
                let i = choose|i: int| 0 <= i < t.drop_last().len() && t.drop_last()[i] == k;
                assert(t[i] == k);
            }
        }
        lemma_filter_keeps(t.drop_last(), k);
        t.drop_last().lemma_filter_push(t.last(), other_than(k));
        assert(t.drop_last().push(t.last()) =~= t);
    } else {
        assert(t.filter(other_than(k)) =~= t);
    }
}

} // verus!
