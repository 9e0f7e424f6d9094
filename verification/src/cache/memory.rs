//! Content kept in memory, addressed by its 32-byte digest, with an
//! optional limit on the size of one item.

use vstd::prelude::*;
use crate::cache::hash::{hex_encode, law_hex_roundtrip, to_hex};
use crate::error::{BlastError, BlastResult};
use crate::cache::storage::CacheStorage;
use crate::strmap::StrMap;

verus! {

/// Digests with the same hexadecimal text are the same digest.
pub proof fn lemma_hex_injective(a: Seq<u8>, b: Seq<u8>)
    requires
        hex_encode(a) == hex_encode(b),
    ensures
        a == b,
{
    law_hex_roundtrip(a);
    law_hex_roundtrip(b);
}

/// Memory storage: items by the hexadecimal text of their digest.
#[derive(Debug)]
pub struct MemoryStorage {
    data: StrMap<Vec<u8>>,
    size_limit: Option<usize>,
    current_size: usize,
}

/// `e` is a cache error with the message `msg`.
pub open spec fn cache_error(e: BlastError, msg: Seq<char>) -> bool {
    e matches BlastError::Cache(m) && m@ == msg
}

impl MemoryStorage {
    /// The stored items by digest.
    pub closed spec fn stored_items(&self) -> Map<Seq<u8>, Seq<u8>> {
        Map::new(
            |k: Seq<u8>| k.len() == 32 && self.data@.contains_key(hex_encode(k)),
            |k: Seq<u8>| self.data@[hex_encode(k)]@,
        )
    }

    /// The largest item accepted, if limited.
    pub closed spec fn size_limit_spec(&self) -> Option<usize> {
        self.size_limit
    }

    /// The size the storage reports.
    pub closed spec fn size_spec(&self) -> usize {
        self.current_size
    }

    /// Empty storage with no limit, reporting size 0.
    pub fn new() -> (s: Self)
        ensures
            s.contents() == Map::<Seq<u8>, Seq<u8>>::empty(),
            s.size_limit_spec() is None,
            s.size_spec() == 0,
    {
        let s = MemoryStorage { data: StrMap::new(), size_limit: None, current_size: 0 };
        assert(s.contents() =~= Map::<Seq<u8>, Seq<u8>>::empty());
        s
    }

    /// Limits the size of one item to `limit` bytes.
    pub fn set_size_limit(&mut self, limit: usize)
        ensures
            final(self).size_limit_spec() == Some(limit),
            final(self).contents() == old(self).contents(),
            final(self).size_spec() == old(self).size_spec(),
    {
        self.size_limit = Some(limit);
    }

    /// The size the storage reports; storing and removing do not change it.
    pub fn size(&self) -> (n: usize)
        ensures
            n == self.size_spec(),
    {
        self.current_size
    }

}

impl CacheStorage for MemoryStorage {
    closed spec fn contents(&self) -> Map<Seq<u8>, Seq<u8>> {
        self.stored_items()
    }

    open spec fn well_formed(&self) -> bool {
        true
    }

    /// Storing succeeds unless the data is larger than the limit.
    closed spec fn can_store(&self, hash: Seq<u8>, data: Seq<u8>) -> bool {
        !(self.size_limit matches Some(l) && data.len() > l)
    }

    closed spec fn can_load(&self, hash: Seq<u8>) -> bool {
        true
    }

    closed spec fn can_remove(&self, hash: Seq<u8>) -> bool {
        true
    }

    closed spec fn can_clear(&self) -> bool {
        true
    }

    /// Memory keeps no files: every path is empty.
    closed spec fn path_of(&self, hash: Seq<u8>) -> Seq<char> {
        Seq::empty()
    }

    /// Stores `data` under `hash`, replacing what was there; refused when
    /// `data` is larger than the limit.
    fn store(&mut self, hash: &[u8; 32], data: &[u8]) -> (r: BlastResult<()>)
        ensures
            r is Err <==> (old(self).size_limit_spec() matches Some(l) && data@.len() > l),
            r is Ok ==> final(self).contents() == old(self).contents().insert(hash@, data@),
            r matches Err(e) ==> cache_error(e, "Data exceeds size limit"@) && final(self).contents()
                == old(self).contents(),
            final(self).size_limit_spec() == old(self).size_limit_spec(),
            final(self).size_spec() == old(self).size_spec(),
    {
        if let Some(limit) = self.size_limit {
            if data.len() > limit {
                return Err(BlastError::cache("Data exceeds size limit"));
            }
        }
        let key = to_hex(hash);
        let mut bytes: Vec<u8> = Vec::new();
        let mut i: usize = 0;
        while i < data.len()
            invariant
                i <= data@.len(),
                bytes@ == data@.take(i as int),
            decreases data@.len() - i,
        {
            bytes.push(data[i]);
            assert(data@.take(i + 1) =~= data@.take(i as int).push(data@[i as int]));
            i += 1;
        }
        assert(data@.take(data@.len() as int) =~= data@);
        let _ = self.data.insert(key, bytes);
        proof {
            assert forall|k: Seq<u8>| k.len() == 32 && k != hash@ implies hex_encode(k) != hex_encode(hash@) by {
                if hex_encode(k) == hex_encode(hash@) {
                    lemma_hex_injective(k, hash@);
                }
            }
            assert(self.contents() =~= old(self).contents().insert(hash@, data@));
        }
        Ok(())
    }

    /// The item stored under `hash`; an error when there is none.
    fn load(&self, hash: &[u8; 32]) -> (r: BlastResult<Vec<u8>>)
        ensures
            r is Ok <==> self.contents().contains_key(hash@),
            r matches Ok(v) ==> v@ == self.contents()[hash@],
            r matches Err(e) ==> cache_error(e, "Data not found"@),
    {
        let key = to_hex(hash);
        match self.data.get(key.as_str()) {
            Some(stored) => {
                let mut v: Vec<u8> = Vec::new();
                let mut i: usize = 0;
                while i < stored.len()
                    invariant
                        i <= stored@.len(),
                        v@ == stored@.take(i as int),
                    decreases stored@.len() - i,
                {
                    v.push(stored[i]);
                    assert(stored@.take(i + 1) =~= stored@.take(i as int).push(stored@[i as int]));
                    i += 1;
                }
                assert(stored@.take(stored@.len() as int) =~= stored@);
                Ok(v)
            },
            None => Err(BlastError::cache("Data not found")),
        }
    }

    /// Removes the item stored under `hash`, if any.
    fn remove(&mut self, hash: &[u8; 32]) -> (r: BlastResult<()>)
        ensures
            r is Ok,
            final(self).contents() == old(self).contents().remove(hash@),
            final(self).size_limit_spec() == old(self).size_limit_spec(),
            final(self).size_spec() == old(self).size_spec(),
    {
        let key = to_hex(hash);
        let _ = self.data.remove(key.as_str());
        proof {
            assert forall|k: Seq<u8>| k.len() == 32 && k != hash@ implies hex_encode(k) != hex_encode(hash@) by {
                if hex_encode(k) == hex_encode(hash@) {
                    lemma_hex_injective(k, hash@);
                }
            }
            assert(self.contents() =~= old(self).contents().remove(hash@));
        }
        Ok(())
    }

    /// Removes every item.
    fn clear(&mut self) -> (r: BlastResult<()>)
        ensures
            r is Ok,
            final(self).contents() == Map::<Seq<u8>, Seq<u8>>::empty(),
            final(self).size_limit_spec() == old(self).size_limit_spec(),
            final(self).size_spec() == old(self).size_spec(),
    {
        self.data.clear();
        assert(self.contents() =~= Map::<Seq<u8>, Seq<u8>>::empty());
        Ok(())
    }

    /// Memory storage keeps no files: the path of any item is empty.
    fn hash_path(&self, _hash: &[u8; 32]) -> (p: String)
        ensures
            p@.len() == 0,
    {
        let p = String::new();
        assert(p@ =~= Seq::<char>::empty());
        p
    }
}

impl Default for MemoryStorage {
    fn default() -> (s: Self)
        ensures
            s.contents() == Map::<Seq<u8>, Seq<u8>>::empty(),
            s.size_limit_spec() is None,
            s.size_spec() == 0,
    {
        MemoryStorage::new()
    }
}

/// A store that succeeded: `b` holds `data` under `hash` and `a`'s other
/// items as they were.
pub open spec fn stored(a: MemoryStorage, b: MemoryStorage, hash: Seq<u8>, data: Seq<u8>) -> bool {
    b.contents() == a.contents().insert(hash, data)
}

/// What is loaded after a successful store of `data` under `hash` is
/// `data`, and every other digest loads what it loaded before.
pub proof fn law_load_after_store(a: MemoryStorage, b: MemoryStorage, hash: Seq<u8>, data: Seq<u8>)
    requires
        stored(a, b, hash, data),
    ensures
        b.contents().contains_key(hash),
        b.contents()[hash] == data,
        forall|k: Seq<u8>|
            k != hash ==> (#[trigger] b.contents().contains_key(k) == a.contents().contains_key(k) && (
            a.contents().contains_key(k) ==> b.contents()[k] == a.contents()[k])),
{
}

} // verus!
