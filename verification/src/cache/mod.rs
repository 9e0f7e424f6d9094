//! Cache bookkeeping: the LRU cache, the key index, disk statistics, the
//! cache builder, compression, content-addressed file layout and the
//! in-memory item store with its storage interface.

pub mod builder;
pub mod compression;
pub mod disk;
pub mod hash;
pub mod index;
pub mod layered;
pub mod lru;
pub mod lru_storage;
pub mod storage;
pub mod memory;
pub mod memory_cache;
