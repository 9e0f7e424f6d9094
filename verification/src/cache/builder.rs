//! Cache configuration: the builder's settings, layer kinds, size limits and
//! memory statistics.

use vstd::prelude::*;
use crate::error::{BlastError, BlastResult};
use crate::strmap::StrMap;
use vstd::string::StringExecFns;

verus! {

/// Cache builder for configuring cache options
pub struct CacheBuilder {
    path: Option<String>,
    memory_size: Option<usize>,
    compression: bool,
    indexed: bool,
}

impl CacheBuilder {
    pub closed spec fn path_spec(&self) -> Option<Seq<char>> {
        match self.path {
            Some(p) => Some(p@),
            None => None,
        }
    }

    pub closed spec fn memory_size_spec(&self) -> Option<usize> {
        self.memory_size
    }

    pub closed spec fn compression_spec(&self) -> bool {
        self.compression
    }

    pub closed spec fn indexed_spec(&self) -> bool {
        self.indexed
    }

    /// Create new cache builder
    pub fn new() -> (b: Self)
        ensures
            b.path_spec() is None,
            b.memory_size_spec() is None,
            !b.compression_spec(),
            !b.indexed_spec(),
    {
        CacheBuilder { path: None, memory_size: None, compression: false, indexed: false }
    }

    /// Set cache path
    pub fn path(self, path: &str) -> (b: Self)
        ensures
            b.path_spec() == Some(path@),
            b.memory_size_spec() == self.memory_size_spec(),
            b.compression_spec() == self.compression_spec(),
            b.indexed_spec() == self.indexed_spec(),
    {
        CacheBuilder { path: Some(String::from_str(path)), ..self }
    }

    /// Set memory cache size
    pub fn memory_size(self, size: usize) -> (b: Self)
        ensures
            b.path_spec() == self.path_spec(),
            b.memory_size_spec() == Some(size),
            b.compression_spec() == self.compression_spec(),
            b.indexed_spec() == self.indexed_spec(),
    {
        CacheBuilder { memory_size: Some(size), ..self }
    }

    /// Enable compression
    pub fn compression(self, enabled: bool) -> (b: Self)
        ensures
            b.path_spec() == self.path_spec(),
            b.memory_size_spec() == self.memory_size_spec(),
            b.compression_spec() == enabled,
            b.indexed_spec() == self.indexed_spec(),
    {
        CacheBuilder { compression: enabled, ..self }
    }

    /// Enable key indexing
    pub fn indexed(self, enabled: bool) -> (b: Self)
        ensures
            b.path_spec() == self.path_spec(),
            b.memory_size_spec() == self.memory_size_spec(),
            b.compression_spec() == self.compression_spec(),
            b.indexed_spec() == enabled,
    {
        CacheBuilder { indexed: enabled, ..self }
    }

    /// The cache path a build uses; building without one is a cache error.
    pub fn build_path(&self) -> (r: BlastResult<&str>)
        ensures
            r is Ok <==> self.path_spec() is Some,
            r matches Ok(p) ==> Some(p@) == self.path_spec(),
            r matches Err(e) ==> e matches BlastError::Cache(m) && m@ == "Cache path not specified"@,
    {
        match &self.path {
            Some(p) => Ok(p.as_str()),
            None => Err(BlastError::cache("Cache path not specified")),
        }
    }

    /// The memory cache size, if set.
    pub fn memory_size_setting(&self) -> (r: Option<usize>)
        ensures
            r == self.memory_size_spec(),
    {
        self.memory_size
    }

    /// Whether compression is enabled.
    pub fn compression_enabled(&self) -> (r: bool)
        ensures
            r == self.compression_spec(),
    {
        self.compression
    }

    /// Whether key indexing is enabled.
    pub fn indexing_enabled(&self) -> (r: bool)
        ensures
            r == self.indexed_spec(),
    {
        self.indexed
    }
}

impl Default for CacheBuilder {
    fn default() -> (b: Self)
        ensures
            b.path_spec() is None,
            b.memory_size_spec() is None,
            !b.compression_spec(),
            !b.indexed_spec(),
    {
        Self::new()
    }
}

/// Cache layer type
#[derive(Debug, Clone, Copy, PartialEq, Eq, Structural)]
pub enum LayerType {
    /// Base layer containing Python interpreter
    Base,
    /// Layer containing installed packages
    Packages,
    /// Layer containing environment configuration
    Config,
    /// Layer containing user files
    Files,
}

/// Cache size limits
pub struct CacheSizeLimits {
    /// Maximum total size
    pub max_total_size: u64,
    /// Maximum size per layer type
    pub max_layer_sizes: StrMap<u64>,
    /// Target size after cleanup
    pub target_size: u64,
}

/// One gibibyte.
pub const GIB: u64 = 1073741824;

/// One mebibyte.
pub const MIB: u64 = 1048576;

impl Default for CacheSizeLimits {
    fn default() -> (l: Self)
        ensures
            l.max_total_size == 20 * GIB,
            l.target_size == 16 * GIB,
            l.max_layer_sizes@ == map![
                "package"@ => GIB,
                "build"@ => (2 * GIB) as u64,
                "environment"@ => (5 * GIB) as u64,
                "resolution"@ => (100 * MIB) as u64,
                "image"@ => (10 * GIB) as u64
            ],
    {
        let mut max_layer_sizes = StrMap::new();
        let _ = max_layer_sizes.insert(String::from_str("package"), GIB);
        let _ = max_layer_sizes.insert(String::from_str("build"), 2 * GIB);
        let _ = max_layer_sizes.insert(String::from_str("environment"), 5 * GIB);
        let _ = max_layer_sizes.insert(String::from_str("resolution"), 100 * MIB);
        let _ = max_layer_sizes.insert(String::from_str("image"), 10 * GIB);
        let l = CacheSizeLimits {
            max_total_size: 20 * GIB,
            max_layer_sizes,
            target_size: 16 * GIB,
        };
        assert(l.max_layer_sizes@ =~= map![
            "package"@ => GIB,
            "build"@ => (2 * GIB) as u64,
            "environment"@ => (5 * GIB) as u64,
            "resolution"@ => (100 * MIB) as u64,
            "image"@ => (10 * GIB) as u64
        ]);
        l
    }
}

/// Memory cache statistics
#[derive(Debug)]
pub struct MemoryCacheStats {
    /// Number of cache hits
    pub hits: u64,
    /// Number of cache misses
    pub misses: u64,
    /// Memory usage in bytes
    pub memory_usage: usize,
    /// Number of items in cache
    pub items: usize,
    /// Number of evicted items
    pub evictions: u64,
}

impl Clone for MemoryCacheStats {
    fn clone(&self) -> (r: Self)
        ensures
            r == *self,
    {
        MemoryCacheStats {
            hits: self.hits,
            misses: self.misses,
            memory_usage: self.memory_usage,
            items: self.items,
            evictions: self.evictions,
        }
    }
}

impl Default for MemoryCacheStats {
    fn default() -> (s: Self)
        ensures
            s.hits == 0 && s.misses == 0 && s.memory_usage == 0 && s.items == 0 && s.evictions == 0,
    {
        MemoryCacheStats { hits: 0, misses: 0, memory_usage: 0, items: 0, evictions: 0 }
    }
}

} // verus!
