//! Storage backends for cached items addressed by their 32-byte digest,
//! and a backend wrapper that also finds items by a text key.

use vstd::prelude::*;
use crate::error::{BlastError, BlastResult};
use crate::strmap::StrMap;

verus! {

/// Storage backend for cache data.
pub trait CacheStorage {
    /// The stored items by digest.
    spec fn contents(&self) -> Map<Seq<u8>, Seq<u8>>;

    /// What the backend keeps true between calls.
    spec fn well_formed(&self) -> bool;

    /// The backend promises that storing `data` under `hash` succeeds (a
    /// backend whose success rests on the machine promises nothing).
    spec fn can_store(&self, hash: Seq<u8>, data: Seq<u8>) -> bool;

    /// The backend promises that loading an item it holds under `hash`
    /// succeeds.
    spec fn can_load(&self, hash: Seq<u8>) -> bool;

    /// The backend promises that removing what it holds under `hash`
    /// succeeds.
    spec fn can_remove(&self, hash: Seq<u8>) -> bool;

    /// The backend promises that removing every item succeeds.
    spec fn can_clear(&self) -> bool;

    /// The path that `hash_path` gives for `hash`.
    spec fn path_of(&self, hash: Seq<u8>) -> Seq<char>;

    /// Stores `data` under `hash`; on failure nothing changes.
    fn store(&mut self, hash: &[u8; 32], data: &[u8]) -> (r: BlastResult<()>)
        requires
            old(self).well_formed(),
        ensures
            final(self).well_formed(),
            old(self).can_store(hash@, data@) ==> r is Ok,
            r is Ok ==> final(self).contents() == old(self).contents().insert(hash@, data@),
            r is Err ==> final(self).contents() == old(self).contents(),
    ;

    /// The item stored under `hash`; an error when there is none.
    fn load(&self, hash: &[u8; 32]) -> (r: BlastResult<Vec<u8>>)
        requires
            self.well_formed(),
        ensures
            r matches Ok(v) ==> self.contents().contains_key(hash@) && v@ == self.contents()[hash@],
            !self.contents().contains_key(hash@) ==> r is Err,
            self.contents().contains_key(hash@) && self.can_load(hash@) ==> r is Ok,
    ;

    /// Removes the item stored under `hash`; on failure nothing changes.
    fn remove(&mut self, hash: &[u8; 32]) -> (r: BlastResult<()>)
        requires
            old(self).well_formed(),
        ensures
            final(self).well_formed(),
            old(self).can_remove(hash@) ==> r is Ok,
            r is Ok ==> final(self).contents() == old(self).contents().remove(hash@),
            r is Err ==> final(self).contents() == old(self).contents(),
    ;

    /// Removes every item.
    fn clear(&mut self) -> (r: BlastResult<()>)
        requires
            old(self).well_formed(),
        ensures
            final(self).well_formed(),
            old(self).can_clear() ==> r is Ok,
            r is Ok ==> final(self).contents() == Map::<Seq<u8>, Seq<u8>>::empty(),
    ;

    /// Where the item stored under `hash` is kept, for a backend that keeps
    /// files.
    fn hash_path(&self, hash: &[u8; 32]) -> (p: String)
        ensures
            p@ == self.path_of(hash@),
    ;
}

/// Storage that also finds items by a text key.
pub struct IndexedStorage<S: CacheStorage> {
    inner: S,
    index: StrMap<[u8; 32]>,
}

/// `e` is a cache error with the message `msg`.
pub open spec fn cache_failure(e: BlastError, msg: Seq<char>) -> bool {
    e matches BlastError::Cache(m) && m@ == msg
}

impl<S: CacheStorage> IndexedStorage<S> {
    /// The digest each key names.
    pub closed spec fn keys(&self) -> Map<Seq<char>, Seq<u8>> {
        self.index@.map_values(|h: [u8; 32]| h@)
    }

    /// The wrapped backend.
    pub closed spec fn inner_spec(&self) -> S {
        self.inner
    }

    /// Indexed storage over `inner`, with no keys yet.
    pub fn new(inner: S) -> (s: Self)
        ensures
            s.keys() == Map::<Seq<char>, Seq<u8>>::empty(),
            s.inner_spec() == inner,
    {
        let s = IndexedStorage { inner, index: StrMap::new() };
        assert(s.keys() =~= Map::<Seq<char>, Seq<u8>>::empty());
        s
    }

    /// Stores `data` under `hash` and lets `key` name it; when the backend
    /// refuses, the key is not recorded.
    pub fn store_with_key(&mut self, key: &str, hash: &[u8; 32], data: &[u8]) -> (r: BlastResult<()>)
        requires
            old(self).inner_spec().well_formed(),
        ensures
            final(self).inner_spec().well_formed(),
            old(self).inner_spec().can_store(hash@, data@) ==> r is Ok,
            r is Ok ==> final(self).inner_spec().contents() == old(self).inner_spec().contents().insert(
                hash@,
                data@,
            ) && final(self).keys() == old(self).keys().insert(key@, hash@),
            r is Err ==> final(self).inner_spec().contents() == old(self).inner_spec().contents()
                && final(self).keys() == old(self).keys(),
    {
        let r = self.inner.store(hash, data);
        match r {
            Ok(()) => {
                let _ = self.index.insert(String::from_str(key), *hash);
                assert(self.keys() =~= old(self).keys().insert(key@, hash@));
                Ok(())
            },
            Err(e) => Err(e),
        }
    }

    /// The item named by `key`; an error when no item has that key, or
    /// when the backend has no item under its digest.
    pub fn load_by_key(&self, key: &str) -> (r: BlastResult<Vec<u8>>)
        requires
            self.inner_spec().well_formed(),
        ensures
            !self.keys().contains_key(key@) ==> cache_failure(r->Err_0, "Key not found"@) && r is Err,
            r matches Ok(v) ==> self.keys().contains_key(key@) && self.inner_spec().contents().contains_key(
                self.keys()[key@],
            ) && v@ == self.inner_spec().contents()[self.keys()[key@]],
            self.keys().contains_key(key@) && !self.inner_spec().contents().contains_key(self.keys()[key@])
                ==> r is Err,
    {
        match self.index.get(key) {
            Some(h) => self.inner.load(h),
            None => Err(BlastError::cache("Key not found")),
        }
    }

    /// Forgets `key` and removes the item it named, if any.
    pub fn remove_by_key(&mut self, key: &str) -> (r: BlastResult<()>)
        requires
            old(self).inner_spec().well_formed(),
        ensures
            final(self).inner_spec().well_formed(),
            final(self).keys() == old(self).keys().remove(key@),
            !old(self).keys().contains_key(key@) ==> r is Ok && final(self).inner_spec().contents()
                == old(self).inner_spec().contents(),
            old(self).keys().contains_key(key@) && r is Ok ==> final(self).inner_spec().contents()
                == old(self).inner_spec().contents().remove(old(self).keys()[key@]),
            old(self).keys().contains_key(key@) && r is Err ==> final(self).inner_spec().contents()
                == old(self).inner_spec().contents(),
    {
        let removed = self.index.remove(key);
        assert(self.keys() =~= old(self).keys().remove(key@));
        match removed {
            Some(h) => self.inner.remove(&h),
            None => Ok(()),
        }
    }
}

impl<S: CacheStorage> CacheStorage for IndexedStorage<S> {
    closed spec fn contents(&self) -> Map<Seq<u8>, Seq<u8>> {
        self.inner.contents()
    }

    closed spec fn well_formed(&self) -> bool {
        self.inner.well_formed()
    }

    closed spec fn can_store(&self, hash: Seq<u8>, data: Seq<u8>) -> bool {
        self.inner.can_store(hash, data)
    }

    closed spec fn can_load(&self, hash: Seq<u8>) -> bool {
        self.inner.can_load(hash)
    }

    closed spec fn can_remove(&self, hash: Seq<u8>) -> bool {
        self.inner.can_remove(hash)
    }

    closed spec fn can_clear(&self) -> bool {
        self.inner.can_clear()
    }

    closed spec fn path_of(&self, hash: Seq<u8>) -> Seq<char> {
        self.inner.path_of(hash)
    }

    fn store(&mut self, hash: &[u8; 32], data: &[u8]) -> (r: BlastResult<()>) {
        self.inner.store(hash, data)
    }

    fn load(&self, hash: &[u8; 32]) -> (r: BlastResult<Vec<u8>>) {
        self.inner.load(hash)
    }

    fn remove(&mut self, hash: &[u8; 32]) -> (r: BlastResult<()>) {
        self.inner.remove(hash)
    }

    /// Clears the backend, then forgets every key.
    fn clear(&mut self) -> (r: BlastResult<()>)
        ensures
            r is Ok ==> final(self).keys() == Map::<Seq<char>, Seq<u8>>::empty(),
            r is Err ==> final(self).keys() == old(self).keys(),
    {
        let r = self.inner.clear();
        match r {
            Ok(()) => {
                self.index.clear();
                assert(self.keys() =~= Map::<Seq<char>, Seq<u8>>::empty());
                Ok(())
            },
            Err(e) => Err(e),
        }
    }

    fn hash_path(&self, hash: &[u8; 32]) -> (p: String) {
        self.inner.hash_path(hash)
    }
}

/// What a key names after a successful `store_with_key`: the digest it was
/// stored under, and the backend holds the data there; the other keys name
/// what they named before.
pub proof fn law_key_names_stored_data<S: CacheStorage>(
    a: IndexedStorage<S>,
    b: IndexedStorage<S>,
    key: Seq<char>,
    hash: Seq<u8>,
    data: Seq<u8>,
)
    requires
        b.inner_spec().contents() == a.inner_spec().contents().insert(hash, data),
        b.keys() == a.keys().insert(key, hash),
    ensures
        b.keys().contains_key(key),
        b.inner_spec().contents().contains_key(b.keys()[key]),
        b.inner_spec().contents()[b.keys()[key]] == data,
        forall|k: Seq<char>| k != key && #[trigger] a.keys().contains_key(k) ==> b.keys()[k] == a.keys()[k],
{
}

} // verus!
