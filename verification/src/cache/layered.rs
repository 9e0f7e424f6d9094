//! Cached layers and a two-level cache: a fast memory level in front of a
//! lasting disk level.

use vstd::prelude::*;
use crate::cache::builder::LayerType;
use crate::cache::compression::CompressionLevel;
use crate::cache::storage::CacheStorage;
use crate::error::BlastResult;
use crate::time::Timestamp;

verus! {

/// Cache layer metadata
#[derive(Debug)]
pub enum CacheLayer {
    /// Package layer (wheels, source distributions)
    Package { name: String, version: String, hash: String },
    /// Built package layer
    Build { package: String, version: String, platform: String, python_version: String },
    /// Environment snapshot layer
    Environment { name: String, python_version: String, timestamp: Timestamp },
    /// Dependency resolution layer
    Resolution { requirements: Vec<String>, python_version: String, platform: String },
    /// Image layer
    ImageLayer { hash: String, layer_type: LayerType, parent: Option<String> },
}

/// Cache entry with metadata
#[derive(Debug)]
pub struct LayerCacheEntry {
    pub layer: CacheLayer,
    pub hash: String,
    pub size: u64,
    pub compressed_size: u64,
    pub compression: CompressionLevel,
    pub path: String,
    pub accessed: std::time::SystemTime,
    pub created: std::time::SystemTime,
    pub access_count: u64,
    pub parent: Option<String>,
}

/// A memory level in front of a disk level: items are written to both and
/// read from memory first.
pub struct LayeredCache<M: CacheStorage, D: CacheStorage> {
    memory: M,
    disk: D,
}

/// `after` is `before`, or `before` with `hash` set to `data`.
pub open spec fn unchanged_or_set(
    before: Map<Seq<u8>, Seq<u8>>,
    after: Map<Seq<u8>, Seq<u8>>,
    hash: Seq<u8>,
    data: Seq<u8>,
) -> bool {
    after == before || after == before.insert(hash, data)
}

/// `after` is `before`, or `before` without `hash`.
pub open spec fn unchanged_or_removed(
    before: Map<Seq<u8>, Seq<u8>>,
    after: Map<Seq<u8>, Seq<u8>>,
    hash: Seq<u8>,
) -> bool {
    after == before || after == before.remove(hash)
}

impl<M: CacheStorage, D: CacheStorage> LayeredCache<M, D> {
    /// The memory level.
    pub closed spec fn memory_spec(&self) -> M {
        self.memory
    }

    /// The disk level.
    pub closed spec fn disk_spec(&self) -> D {
        self.disk
    }

    /// Both levels are well formed.
    pub open spec fn levels_well_formed(&self) -> bool {
        self.memory_spec().well_formed() && self.disk_spec().well_formed()
    }

    /// A cache over `memory` and `disk`.
    pub fn new(memory: M, disk: D) -> (c: Self)
        ensures
            c.memory_spec() == memory,
            c.disk_spec() == disk,
    {
        LayeredCache { memory, disk }
    }

    /// Stores `data` under `hash` in memory, then on disk. When memory
    /// refuses, nothing changes; when the disk refuses, memory may already
    /// hold the item.
    pub fn store(&mut self, hash: &[u8; 32], data: &[u8]) -> (r: BlastResult<()>)
        requires
            old(self).levels_well_formed(),
        ensures
            final(self).levels_well_formed(),
            old(self).memory_spec().can_store(hash@, data@) && old(self).disk_spec().can_store(hash@, data@)
                ==> r is Ok,
            r is Ok ==> final(self).memory_spec().contents() == old(self).memory_spec().contents().insert(
                hash@,
                data@,
            ) && final(self).disk_spec().contents() == old(self).disk_spec().contents().insert(hash@, data@),
            r is Err ==> unchanged_or_set(
                old(self).memory_spec().contents(),
                final(self).memory_spec().contents(),
                hash@,
                data@,
            ) && final(self).disk_spec().contents() == old(self).disk_spec().contents(),
    {
        match self.memory.store(hash, data) {
            Ok(()) => {},
            Err(e) => {
                return Err(e);
            },
        }
        self.disk.store(hash, data)
    }

    /// The item stored under `hash`: from memory when it has it, else from
    /// disk, and then memory keeps a copy when it can.
    pub fn load(&mut self, hash: &[u8; 32]) -> (r: BlastResult<Vec<u8>>)
        requires
            old(self).levels_well_formed(),
        ensures
            final(self).levels_well_formed(),
            final(self).disk_spec().contents() == old(self).disk_spec().contents(),
            r matches Ok(v) ==> (old(self).memory_spec().contents().contains_key(hash@) && v@
                == old(self).memory_spec().contents()[hash@] && final(self).memory_spec().contents()
                == old(self).memory_spec().contents()) || (old(self).disk_spec().contents().contains_key(hash@)
                && v@ == old(self).disk_spec().contents()[hash@] && unchanged_or_set(
                old(self).memory_spec().contents(),
                final(self).memory_spec().contents(),
                hash@,
                v@,
            )),
            r is Err ==> final(self).memory_spec().contents() == old(self).memory_spec().contents(),
            !old(self).memory_spec().contents().contains_key(hash@) && !old(self).disk_spec().contents().contains_key(
                hash@,
            ) ==> r is Err,
            (old(self).memory_spec().contents().contains_key(hash@) && old(self).memory_spec().can_load(hash@)) || (
            old(self).disk_spec().contents().contains_key(hash@) && old(self).disk_spec().can_load(hash@)) ==> r is Ok,
    {
        match self.memory.load(hash) {
            Ok(data) => Ok(data),
            Err(_) => {
                let data = match self.disk.load(hash) {
                    Ok(d) => d,
                    Err(e) => {
                        return Err(e);
                    },
                };
                let _ = self.memory.store(hash, data.as_slice());
                Ok(data)
            },
        }
    }

    /// Removes the item stored under `hash` from memory, whatever comes of
    /// that, then from disk.
    pub fn remove(&mut self, hash: &[u8; 32]) -> (r: BlastResult<()>)
        requires
            old(self).levels_well_formed(),
        ensures
            final(self).levels_well_formed(),
            unchanged_or_removed(old(self).memory_spec().contents(), final(self).memory_spec().contents(), hash@),
            old(self).memory_spec().can_remove(hash@) ==> final(self).memory_spec().contents() == old(
                self,
            ).memory_spec().contents().remove(hash@),
            old(self).disk_spec().can_remove(hash@) ==> r is Ok,
            r is Ok ==> final(self).disk_spec().contents() == old(self).disk_spec().contents().remove(hash@),
            r is Err ==> final(self).disk_spec().contents() == old(self).disk_spec().contents(),
    {
        let _ = self.memory.remove(hash);
        self.disk.remove(hash)
    }

    /// Clears memory, then disk.
    pub fn clear(&mut self) -> (r: BlastResult<()>)
        requires
            old(self).levels_well_formed(),
        ensures
            final(self).levels_well_formed(),
            old(self).memory_spec().can_clear() && old(self).disk_spec().can_clear() ==> r is Ok,
            r is Ok ==> final(self).memory_spec().contents() == Map::<Seq<u8>, Seq<u8>>::empty()
                && final(self).disk_spec().contents() == Map::<Seq<u8>, Seq<u8>>::empty(),
    {
        match self.memory.clear() {
            Ok(()) => {},
            Err(e) => {
                return Err(e);
            },
        }
        self.disk.clear()
    }

    /// Where the disk level keeps the item stored under `hash`.
    pub fn hash_path(&self, hash: &[u8; 32]) -> (p: String)
        ensures
            p@ == self.disk_spec().path_of(hash@),
    {
        self.disk.hash_path(hash)
    }
}

/// After a successful store of `data` under `hash`, both levels hold it, so
/// a read from either level gives `data`.
pub proof fn law_layered_read_after_store<M: CacheStorage, D: CacheStorage>(
    a: LayeredCache<M, D>,
    b: LayeredCache<M, D>,
    hash: Seq<u8>,
    data: Seq<u8>,
)
    requires
        b.memory_spec().contents() == a.memory_spec().contents().insert(hash, data),
        b.disk_spec().contents() == a.disk_spec().contents().insert(hash, data),
    ensures
        b.memory_spec().contents().contains_key(hash) && b.memory_spec().contents()[hash] == data,
        b.disk_spec().contents().contains_key(hash) && b.disk_spec().contents()[hash] == data,
{
}

} // verus!
