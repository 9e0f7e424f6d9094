use blast::cache::builder::{CacheBuilder, CacheSizeLimits, GIB, MIB};
use blast::cache::compression::{compress, decompress, CompressedStorage, CompressionLevel};
use blast::cache::disk::DiskCache;
use blast::cache::hash::{to_hex, FileStorage, SerializableHash};
use blast::cache::index::{CacheEntry, CacheIndex};
use blast::cache::layered::LayeredCache;
use blast::cache::lru::LruCache;
use blast::cache::lru_storage::LRUCache;
use blast::cache::memory_cache::MemoryCache;
use blast::cache::memory::MemoryStorage;
use blast::cache::storage::{CacheStorage, IndexedStorage};
use blast::error::BlastError;
use std::time::{Duration, SystemTime};

fn entry(size: u64, compressed: u64) -> CacheEntry {
    CacheEntry {
        hash: SerializableHash::from_text("ab".to_string()),
        size,
        compressed_size: compressed,
        path: "/tmp/x".to_string(),
        accessed: SystemTime::now(),
        created: SystemTime::now(),
    }
}

#[test]
fn lru_keeps_capacity_and_evicts_least_recent() {
    let mut cache: LruCache<u64, &str> = LruCache::new(2);
    cache.put(1, "a", Duration::from_secs(60));
    cache.put(2, "b", Duration::from_secs(60));
    assert_eq!(cache.len(), 2);
    cache.put(3, "c", Duration::from_secs(60));
    assert_eq!(cache.len(), 2);
    assert!(cache.get(&1).is_none());
    assert_eq!(cache.get(&2).unwrap().value, "b");
    assert_eq!(cache.get(&3).unwrap().value, "c");
}

#[test]
fn lru_get_counts_hits_and_promotes() {
    let mut cache: LruCache<u64, u32> = LruCache::new(3);
    cache.put(1, 10, Duration::from_secs(60));
    cache.put(2, 20, Duration::from_secs(60));
    let first = cache.get(&1).unwrap();
    assert_eq!(first.hits, 0);
    let second = cache.get(&1).unwrap();
    assert_eq!(second.hits, 1);
    let order: Vec<u64> = cache.iter().iter().map(|(k, _)| **k).collect();
    assert_eq!(order, vec![1, 2]);
    let (k, _) = cache.pop_lru().unwrap();
    assert_eq!(k, 2);
}

#[test]
fn lru_expired_entries_are_dropped() {
    let mut cache: LruCache<u64, u32> = LruCache::new(3);
    cache.put(7, 70, Duration::from_secs(0));
    let start = std::time::Instant::now();
    while start.elapsed() < Duration::from_millis(5) {}
    assert!(cache.get(&7).is_none());
    assert!(cache.is_empty());
}

#[test]
fn lru_remove_and_clear() {
    let mut cache: LruCache<u64, u32> = LruCache::new(3);
    cache.put(1, 1, Duration::from_secs(60));
    cache.put(2, 2, Duration::from_secs(60));
    assert_eq!(cache.remove(&1).unwrap().value, 1);
    assert!(cache.remove(&1).is_none());
    cache.clear();
    assert_eq!(cache.len(), 0);
}

#[test]
fn lru_put_existing_key_replaces_value() {
    let mut cache: LruCache<u64, u32> = LruCache::new(3);
    cache.put(1, 1, Duration::from_secs(60));
    cache.put(2, 2, Duration::from_secs(60));
    cache.put(1, 5, Duration::from_secs(60));
    assert_eq!(cache.len(), 2);
    assert_eq!(cache.get(&1).unwrap().value, 5);
}

#[test]
fn index_insert_get_remove_and_totals() {
    let mut index = CacheIndex::with_path(Some("/tmp/index.json".to_string()));
    index.insert("a".to_string(), entry(100, 40));
    index.insert("b".to_string(), entry(50, 10));
    assert_eq!(index.len(), 2);
    assert_eq!(index.get("a").unwrap().size, 100);
    assert_eq!(index.total_size(), 150);
    assert_eq!(index.total_compressed_size(), 50);
    index.insert("a".to_string(), entry(10, 5));
    assert_eq!(index.len(), 2);
    assert_eq!(index.total_size(), 60);
    assert_eq!(index.remove("b").unwrap().size, 50);
    assert!(index.get("b").is_none());
    index.clear();
    assert_eq!(index.len(), 0);
    assert_eq!(index.path(), &Some("/tmp/index.json".to_string()));
}

#[test]
fn hex_text_round_trips() {
    let digest = [0xabu8; 32];
    let h = SerializableHash::from_digest(&digest);
    assert_eq!(h.as_str(), "ab".repeat(32));
    assert_eq!(h.to_digest().unwrap(), digest.to_vec());
    assert_eq!(to_hex(&[0x00, 0x0f, 0xf0, 0xff]), "000ff0ff");
}

#[test]
fn invalid_hash_text_is_a_cache_error() {
    let h = SerializableHash::from_text("zz".to_string());
    assert!(matches!(h.to_digest(), Err(BlastError::Cache(_))));
    let odd = SerializableHash::from_text("abc".to_string());
    assert!(matches!(odd.to_digest(), Err(BlastError::Cache(_))));
}

#[test]
fn hash_paths_split_first_two_digits() {
    let storage = FileStorage::at("/cache".to_string());
    let digest = [0x12u8; 32];
    let p = storage.hash_path(&digest);
    assert_eq!(p, format!("/cache/12/{}", "12".repeat(31)));
}

#[test]
fn disk_cache_layer_path_uses_blake3() {
    let cache = DiskCache::with_storage(FileStorage::at("/c".to_string()));
    let expected = blake3::hash("layer".as_bytes());
    let hex: String = expected.as_bytes().iter().map(|b| format!("{:02x}", b)).collect();
    assert_eq!(cache.layer_path("layer"), format!("/c/{}/{}", &hex[..2], &hex[2..]));
    assert_ne!(cache.layer_path("layer"), cache.layer_path("other"));
}

#[test]
fn disk_cache_counts_hits_misses_and_stores() {
    let mut cache = DiskCache::with_storage(FileStorage::at("/c".to_string()));
    assert_eq!(cache.record_lookup(Some(vec![1, 2])), Some(vec![1, 2]));
    assert_eq!(cache.record_lookup(None), None);
    cache.record_store(10, None);
    let stats = cache.stats();
    assert_eq!(stats.hits, 1);
    assert_eq!(stats.misses, 1);
    assert_eq!(stats.total_size, 10);
    assert_eq!(stats.items, 1);
}

#[test]
fn disk_cache_restore_replaces_the_counted_size() {
    let mut cache = DiskCache::with_storage(FileStorage::at("/c".to_string()));
    cache.record_store(10, None);
    cache.record_store(4, None);
    cache.record_store(7, Some(10));
    let stats = cache.stats();
    assert_eq!(stats.items, 2);
    assert_eq!(stats.total_size, 11);
    assert_eq!(stats.hits, 0);
    assert_eq!(stats.misses, 0);
    cache.record_store(3, Some(100));
    assert_eq!(cache.stats().total_size, 3);
    assert_eq!(cache.stats().items, 2);
}

#[test]
fn compression_round_trips_at_every_level() {
    let data: Vec<u8> = (0..2000u32).map(|i| (i % 7) as u8).collect();
    for level in [CompressionLevel::Uncompressed, CompressionLevel::Fast, CompressionLevel::Default, CompressionLevel::Maximum] {
        let packed = compress(&data, level).unwrap();
        assert_eq!(decompress(&packed).unwrap(), data);
    }
    assert_eq!(CompressionLevel::Maximum.to_level(), 19);
    assert_eq!(CompressionLevel::Default.to_level(), 3);
}

#[test]
fn decompressing_garbage_is_a_cache_error() {
    match decompress(b"not a zstd frame") {
        Err(BlastError::Cache(m)) => assert!(m.starts_with("Failed to decompress data: ")),
        _ => panic!("expected a cache error"),
    }
}

#[test]
fn builder_requires_a_path() {
    let b = CacheBuilder::new().memory_size(64).compression(false).indexed(true);
    match b.build_path() {
        Err(BlastError::Cache(m)) => assert_eq!(m, "Cache path not specified"),
        _ => panic!("expected a cache error"),
    }
    let b = b.path("/var/cache/blast");
    assert_eq!(b.build_path().unwrap(), "/var/cache/blast");
    assert_eq!(b.memory_size_setting(), Some(64));
    assert!(!b.compression_enabled());
    assert!(b.indexing_enabled());
}

#[test]
fn default_size_limits() {
    let l = CacheSizeLimits::default();
    assert_eq!(l.max_total_size, 20 * GIB);
    assert_eq!(l.target_size, 16 * GIB);
    assert_eq!(l.max_layer_sizes.get("resolution"), Some(&(100 * MIB)));
    assert_eq!(l.max_layer_sizes.get("image"), Some(&(10 * GIB)));
    assert_eq!(l.max_layer_sizes.len(), 5);
}

#[test]
fn memory_storage_load_after_store() {
    let mut s = MemoryStorage::new();
    let h1 = [1u8; 32];
    let h2 = [2u8; 32];
    assert!(s.store(&h1, b"hello").is_ok());
    assert_eq!(s.load(&h1).unwrap(), b"hello".to_vec());
    match s.load(&h2) {
        Err(BlastError::Cache(m)) => assert_eq!(m, "Data not found"),
        _ => panic!("missing item must not load"),
    }
    assert!(s.store(&h1, b"again").is_ok());
    assert_eq!(s.load(&h1).unwrap(), b"again".to_vec());
    assert!(s.remove(&h1).is_ok());
    assert!(s.load(&h1).is_err());
    assert_eq!(s.size(), 0);
    assert_eq!(s.hash_path(&h1), "");
}

#[test]
fn memory_storage_size_limit() {
    let mut s = MemoryStorage::default();
    s.set_size_limit(4);
    let h = [7u8; 32];
    assert!(s.store(&h, b"1234").is_ok());
    match s.store(&h, b"12345") {
        Err(BlastError::Cache(m)) => assert_eq!(m, "Data exceeds size limit"),
        _ => panic!("oversized item must be refused"),
    }
    assert_eq!(s.load(&h).unwrap(), b"1234".to_vec());
    assert!(s.clear().is_ok());
    assert!(s.load(&h).is_err());
}

#[test]
fn indexed_storage_finds_items_by_key() {
    let mut s = IndexedStorage::new(MemoryStorage::new());
    let h = [3u8; 32];
    assert!(s.store_with_key("numpy-1.26", &h, b"wheel").is_ok());
    assert_eq!(s.load_by_key("numpy-1.26").unwrap(), b"wheel".to_vec());
    assert_eq!(s.load(&h).unwrap(), b"wheel".to_vec());
    match s.load_by_key("missing") {
        Err(BlastError::Cache(m)) => assert_eq!(m, "Key not found"),
        _ => panic!("an unknown key must not load"),
    }
    assert!(s.remove_by_key("numpy-1.26").is_ok());
    assert!(s.load(&h).is_err());
    assert!(s.load_by_key("numpy-1.26").is_err());
    assert!(s.remove_by_key("numpy-1.26").is_ok());
}

#[test]
fn indexed_storage_refused_store_records_no_key() {
    let mut inner = MemoryStorage::new();
    inner.set_size_limit(2);
    let mut s = IndexedStorage::new(inner);
    let h = [4u8; 32];
    assert!(s.store_with_key("big", &h, b"toolarge").is_err());
    match s.load_by_key("big") {
        Err(BlastError::Cache(m)) => assert_eq!(m, "Key not found"),
        _ => panic!("a refused store must not record its key"),
    }
    assert!(s.store(&h, b"ok").is_ok());
    assert!(s.clear().is_ok());
    assert!(s.load(&h).is_err());
}

#[test]
fn compressed_storage_reads_back_what_it_stored() {
    let mut s = CompressedStorage::new(MemoryStorage::new());
    let h = [9u8; 32];
    let data = vec![7u8; 4096];
    assert!(s.store(&h, &data).is_ok());
    assert_eq!(s.load(&h).unwrap(), data);
    assert!(s.load(&[1u8; 32]).is_err());
    assert!(s.remove(&h).is_ok());
    assert!(s.load(&h).is_err());
    assert!(s.store(&h, b"").is_ok());
    assert_eq!(s.load(&h).unwrap(), Vec::<u8>::new());
    assert!(s.clear().is_ok());
    assert!(s.load(&h).is_err());
    assert_eq!(s.hash_path(&h), "");
}

#[test]
fn layered_cache_reads_memory_then_disk() {
    let mut c = LayeredCache::new(MemoryStorage::new(), MemoryStorage::new());
    let h = [5u8; 32];
    assert!(c.store(&h, b"layer").is_ok());
    assert_eq!(c.load(&h).unwrap(), b"layer".to_vec());
    assert!(c.remove(&h).is_ok());
    assert!(c.load(&h).is_err());
    // Memory refuses large items; the disk level is not written then.
    let mut small = MemoryStorage::new();
    small.set_size_limit(1);
    let mut d = LayeredCache::new(small, MemoryStorage::new());
    assert!(d.store(&h, b"big").is_err());
    assert!(d.load(&h).is_err());
    assert!(d.store(&h, b"x").is_ok());
    assert_eq!(d.load(&h).unwrap(), b"x".to_vec());
    assert!(d.clear().is_ok());
    assert!(d.load(&h).is_err());
    assert_eq!(d.hash_path(&h), "");
}

#[test]
fn lru_get_checked_follows_the_expiry_answer() {
    let mut cache: LruCache<u64, u32> = LruCache::new(3);
    cache.put(1, 10, Duration::from_secs(60));
    cache.put(2, 20, Duration::from_secs(60));
    assert!(cache.get_checked(&9, true).is_none());
    assert_eq!(cache.len(), 2);
    let live = cache.get_checked(&2, false).unwrap();
    assert_eq!(live.value, 20);
    assert_eq!(live.hits, 0);
    let order: Vec<u64> = cache.iter().iter().map(|(k, _)| **k).collect();
    assert_eq!(order, vec![2, 1]);
    assert!(cache.get_checked(&2, true).is_none());
    assert_eq!(cache.len(), 1);
    assert!(cache.get(&2).is_none());
}

#[test]
fn lru_storage_evicts_the_least_recently_used_item() {
    let (h1, h2, h3) = ([1u8; 32], [2u8; 32], [3u8; 32]);
    let mut c = LRUCache::new(MemoryStorage::new(), 2);
    c.store(&h1, b"a").unwrap();
    c.store(&h2, b"b").unwrap();
    assert_eq!(c.load(&h1).unwrap(), b"a".to_vec());
    c.store(&h3, b"c").unwrap();
    match c.load(&h2) {
        Err(BlastError::Cache(m)) => assert_eq!(m, "Data not found"),
        _ => panic!("expected the evicted item to be gone"),
    }
    assert_eq!(c.load(&h1).unwrap(), b"a".to_vec());
    assert_eq!(c.load(&h3).unwrap(), b"c".to_vec());
    c.remove(&h1).unwrap();
    assert!(c.load(&h1).is_err());
    assert_eq!(c.hash_path(&h3), "");
    c.clear().unwrap();
    assert!(c.load(&h3).is_err());
}

#[test]
fn memory_cache_counts_hits_misses_and_evictions() {
    let mut cache: MemoryCache<u64, String> = MemoryCache::new(2);
    cache.put(1, "a".to_string(), None).unwrap();
    cache.put(2, "b".to_string(), None).unwrap();
    assert_eq!(cache.get(&1), Some("a".to_string()));
    cache.put(3, "c".to_string(), None).unwrap();
    assert_eq!(cache.get(&2), None);
    assert_eq!(cache.get(&3), Some("c".to_string()));
    let stats = cache.stats();
    assert_eq!(stats.hits, 2);
    assert_eq!(stats.misses, 1);
    assert_eq!(stats.evictions, 1);
    assert_eq!(stats.items, 2);
    cache.put(3, "c2".to_string(), None).unwrap();
    assert_eq!(cache.stats().evictions, 1);
    assert_eq!(cache.get(&3), Some("c2".to_string()));
    cache.remove(&1).unwrap();
    assert_eq!(cache.stats().evictions, 2);
    assert_eq!(cache.stats().items, 1);
    cache.clear().unwrap();
    assert_eq!(cache.stats().evictions, 3);
    assert_eq!(cache.stats().items, 0);
    assert_eq!(cache.stats().memory_usage, 0);
}

#[test]
fn memory_cache_expires_entries() {
    let mut cache: MemoryCache<u64, u32> = MemoryCache::new(4);
    cache.put(1, 10, Some(Duration::from_secs(0))).unwrap();
    cache.put(2, 20, Some(Duration::from_secs(3600))).unwrap();
    cache.put(3, 30, None).unwrap();
    let start = std::time::Instant::now();
    while start.elapsed() < Duration::from_millis(5) {}
    cache.cleanup().unwrap();
    assert_eq!(cache.stats().evictions, 1);
    assert_eq!(cache.get(&1), None);
    assert_eq!(cache.get(&2), Some(20));
    assert_eq!(cache.get(&3), Some(30));
    cache.put(4, 40, Some(Duration::from_secs(0))).unwrap();
    while start.elapsed() < Duration::from_millis(10) {}
    assert_eq!(cache.get(&4), None);
    assert_eq!(cache.stats().evictions, 2);
    assert_eq!(cache.get_checked(&2, true), None);
    assert_eq!(cache.stats().items, 1);
}

#[test]
fn index_entries_change_in_place() {
    let mut index = CacheIndex::with_path(None);
    index.insert("a".to_string(), entry(100, 40));
    index.insert("b".to_string(), entry(50, 10));
    match index.get_mut("a") {
        Some(e) => e.size = 7,
        None => panic!("entry a is stored"),
    }
    assert!(index.get_mut("missing").is_none());
    assert_eq!(index.get("a").unwrap().size, 7);
    assert_eq!(index.get("b").unwrap().size, 50);
    assert_eq!(index.len(), 2);
    assert_eq!(index.total_size(), 57);
}
