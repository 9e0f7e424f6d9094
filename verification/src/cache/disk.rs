//! Disk cache bookkeeping: where a layer is stored and the hit, miss and
//! size counters kept around the file reads and writes.

use vstd::prelude::*;
use crate::cache::hash::{blake3_digest, blake3_hash, hash_file_path, spec_utf8, FileStorage};

verus! {

/// Statistics for disk cache
#[derive(Debug)]
pub struct DiskCacheStats {
    /// Number of cache hits
    pub hits: u64,
    /// Number of cache misses
    pub misses: u64,
    /// Total size in bytes
    pub total_size: u64,
    /// Number of items in cache
    pub items: usize,
}

impl Clone for DiskCacheStats {
    fn clone(&self) -> (r: Self)
        ensures
            r == *self,
    {
        DiskCacheStats {
            hits: self.hits,
            misses: self.misses,
            total_size: self.total_size,
            items: self.items,
        }
    }
}

impl Default for DiskCacheStats {
    fn default() -> (r: Self)
        ensures
            r.hits == 0 && r.misses == 0 && r.total_size == 0 && r.items == 0,
    {
        DiskCacheStats { hits: 0, misses: 0, total_size: 0, items: 0 }
    }
}

/// The byte count after a layer of `len` bytes is stored, replacing one of
/// `replaced` bytes if there was one (never below the bytes kept).
pub open spec fn size_after_store(total: u64, len: usize, replaced: Option<u64>) -> int {
    match replaced {
        Some(n0) => (if n0 <= total { total - n0 } else { 0int }) + len,
        None => total + len,
    }
}

/// The statistics `after` count a layer of `len` bytes stored on top of
/// `before`, replacing a layer of `replaced` bytes if there was one.
pub open spec fn counted_store(before: DiskCacheStats, after: DiskCacheStats, len: usize, replaced: Option<u64>) -> bool {
    &&& after.total_size == size_after_store(before.total_size, len, replaced)
    &&& after.items == before.items + (if replaced is None {
        1int
    } else {
        0int
    })
    &&& after.hits == before.hits
    &&& after.misses == before.misses
}

/// A store counts what is in the cache: a new layer adds one item and its
/// bytes; a layer that replaces one of `n0` bytes which the counted bytes
/// include keeps the item count and swaps those bytes for the new ones;
/// lookups are not touched.
pub proof fn law_store_counts_items_and_bytes(
    before: DiskCacheStats,
    after: DiskCacheStats,
    len: usize,
    replaced: Option<u64>,
)
    requires
        counted_store(before, after, len, replaced),
        replaced matches Some(n0) ==> n0 <= before.total_size,
    ensures
        after.hits == before.hits && after.misses == before.misses,
        replaced is None ==> after.items == before.items + 1 && after.total_size == before.total_size + len,
        replaced matches Some(n0) ==> after.items == before.items && after.total_size == before.total_size
            - n0 + len,
{
}

/// Disk-based cache: file storage and its statistics.
pub struct DiskCache {
    storage: FileStorage,
    stats: DiskCacheStats,
}

impl DiskCache {
    pub closed spec fn stats_spec(&self) -> DiskCacheStats {
        self.stats
    }

    pub closed spec fn root(&self) -> Seq<char> {
        self.storage.root()
    }

    /// A disk cache over `storage` with all counters at zero.
    pub fn with_storage(storage: FileStorage) -> (c: Self)
        ensures
            c.root() == storage.root(),
            c.stats_spec().hits == 0,
            c.stats_spec().misses == 0,
            c.stats_spec().total_size == 0,
            c.stats_spec().items == 0,
    {
        DiskCache { storage, stats: DiskCacheStats::default() }
    }

    /// The file that holds the layer named `hash`: the name's text is hashed
    /// with BLAKE3 and the digest decides the file.
    pub fn layer_path(&self, hash: &str) -> (p: String)
        ensures
            p@ == hash_file_path(self.root(), blake3_digest(spec_utf8(hash@))),
    {
        let digest = blake3_hash(hash.as_bytes());
        self.storage.hash_path(&digest)
    }

    /// Counts the outcome of reading a layer (`None` when it could not be
    /// read) and hands the data on.
    pub fn record_lookup(&mut self, loaded: Option<Vec<u8>>) -> (r: Option<Vec<u8>>)
        requires
            loaded is Some ==> old(self).stats_spec().hits < u64::MAX,
            loaded is None ==> old(self).stats_spec().misses < u64::MAX,
        ensures
            r == loaded,
            final(self).root() == old(self).root(),
            final(self).stats_spec().hits == old(self).stats_spec().hits + (if loaded is Some {
                1int
            } else {
                0int
            }),
            final(self).stats_spec().misses == old(self).stats_spec().misses + (if loaded is None {
                1int
            } else {
                0int
            }),
            final(self).stats_spec().total_size == old(self).stats_spec().total_size,
            final(self).stats_spec().items == old(self).stats_spec().items,
    {
        match loaded {
            Some(data) => {
                self.stats.hits = self.stats.hits + 1;
                Some(data)
            },
            None => {
                self.stats.misses = self.stats.misses + 1;
                None
            },
        }
    }

    /// Counts a stored layer of `len` bytes that replaced a stored layer of
    /// `replaced` bytes, if one was there: the statistics keep counting the
    /// items in the cache and their bytes, so a replacement leaves the item
    /// count and swaps the old size for the new one (bytes that were never
    /// counted are not taken off).
    pub fn record_store(&mut self, len: usize, replaced: Option<u64>)
        requires
            size_after_store(old(self).stats_spec().total_size, len, replaced) <= u64::MAX,
            replaced is None ==> old(self).stats_spec().items < usize::MAX,
        ensures
            final(self).root() == old(self).root(),
            counted_store(old(self).stats_spec(), final(self).stats_spec(), len, replaced),
    {
        match replaced {
            Some(old_len) => {
                let kept = if old_len <= self.stats.total_size {
                    self.stats.total_size - old_len
                } else {
                    0
                };
                self.stats.total_size = kept + len as u64;
            },
            None => {
                self.stats.total_size = self.stats.total_size + len as u64;
                self.stats.items = self.stats.items + 1;
            },
        }
    }

    /// The file storage.
    pub fn storage(&self) -> (s: &FileStorage)
        ensures
            s.root() == self.root(),
    {
        &self.storage
    }

    /// Get cache statistics
    pub fn stats(&self) -> (s: DiskCacheStats)
        ensures
            s == self.stats_spec(),
    {
        self.stats.clone()
    }
}

} // verus!
