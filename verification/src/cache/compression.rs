//! zstd compression of cache entries, and storage that keeps its items
//! compressed.

use vstd::prelude::*;
use crate::cache::storage::CacheStorage;
use crate::error::{BlastError, BlastResult};
use crate::text::push_text;
use vstd::string::StringExecFns;

verus! {

/// Compression level for cache entries
#[derive(Debug, Clone, Copy, PartialEq, Eq, Structural)]
pub enum CompressionLevel {
    /// No compression
    Uncompressed,
    /// Fast compression
    Fast,
    /// Default compression
    Default,
    /// Maximum compression
    Maximum,
}

/// The zstd level of each compression level.
pub open spec fn zstd_level(level: CompressionLevel) -> i32 {
    match level {
        CompressionLevel::Uncompressed => 0,
        CompressionLevel::Fast => 1,
        CompressionLevel::Default => 3,
        CompressionLevel::Maximum => 19,
    }
}

impl CompressionLevel {
    /// The zstd level for this compression level.
    pub fn to_level(&self) -> (l: i32)
        ensures
            l == zstd_level(*self),
    {
        match self {
            CompressionLevel::Uncompressed => 0,
            CompressionLevel::Fast => 1,
            CompressionLevel::Default => 3,
            CompressionLevel::Maximum => 19,
        }
    }
}

/// What zstd's one-shot encoder gives for `data` at `level`: the compressed
/// frame, or `None` when it reports an error.
pub uninterp spec fn zstd_encoded(data: Seq<u8>, level: i32) -> Option<Seq<u8>>;

/// Declaration of `std::io::Error`.
#[verifier::external_type_specification]
#[verifier::external_body]
pub struct ExIoError(std::io::Error);

/// `zstd::stream::encode_all`: compresses `data` into one zstd frame at
/// `level`; the result is the named encoding of the data at that level.
#[verifier::external_body]
fn zstd_encode_all(data: &[u8], level: i32) -> (r: Result<Vec<u8>, std::io::Error>)
    ensures
        r is Ok <==> zstd_encoded(data@, level) is Some,
        r matches Ok(v) ==> v@ == zstd_encoded(data@, level)->0,
{
    zstd::stream::encode_all(data, level)
}

/// `zstd::stream::decode_all`: zstd is lossless, so a frame that the encoder
/// produced for some data decodes back to exactly that data. Of other input
/// nothing is stated.
#[verifier::external_body]
fn zstd_decode_all(data: &[u8]) -> (r: Result<Vec<u8>, std::io::Error>)
    ensures
        r matches Ok(v) ==> forall|orig: Seq<u8>, level: i32|
            #[trigger] zstd_encoded(orig, level) == Some(data@) ==> v@ == orig,
        r is Err ==> forall|orig: Seq<u8>, level: i32|
            #[trigger] zstd_encoded(orig, level) != Some(data@),
{
    zstd::stream::decode_all(data)
}

/// The message of an I/O error (`Display`); nothing is stated of the text.
#[verifier::external_body]
pub(crate) fn io_error_text(e: &std::io::Error) -> String {
    e.to_string()
}

/// A cache error whose message is `prefix` followed by the error's text.
fn cache_error(prefix: &str, e: &std::io::Error) -> (r: BlastError)
    ensures
        r is Cache,
{
    let mut msg = String::from_str(prefix);
    let detail = io_error_text(e);
    push_text(&mut msg, detail.as_str());
    BlastError::Cache(msg)
}

/// Compress data using zstd
pub fn compress(data: &[u8], level: CompressionLevel) -> (r: BlastResult<Vec<u8>>)
    ensures
        r is Ok <==> zstd_encoded(data@, zstd_level(level)) is Some,
        r matches Ok(v) ==> v@ == zstd_encoded(data@, zstd_level(level))->0,
        r matches Err(e) ==> e is Cache,
{
    match zstd_encode_all(data, level.to_level()) {
        Ok(v) => Ok(v),
        Err(e) => Err(cache_error("Failed to compress data: ", &e)),
    }
}

/// Decompress zstd compressed data
pub fn decompress(data: &[u8]) -> (r: BlastResult<Vec<u8>>)
    ensures
        decompress_outcome(data@, r),
{
    match zstd_decode_all(data) {
        Ok(v) => Ok(v),
        Err(e) => Err(cache_error("Failed to decompress data: ", &e)),
    }
}

/// What decompressing `data` may give: a frame the encoder made decodes to
/// the data it was made from; an error is a cache error and only comes for
/// input that no encoding produced.
pub open spec fn decompress_outcome(data: Seq<u8>, r: BlastResult<Vec<u8>>) -> bool {
    &&& r matches Ok(v) ==> forall|orig: Seq<u8>, level: i32|
        #[trigger] zstd_encoded(orig, level) == Some(data) ==> v@ == orig
    &&& r matches Err(e) ==> e is Cache && forall|orig: Seq<u8>, level: i32|
        #[trigger] zstd_encoded(orig, level) != Some(data)
}

/// Decompressing what compression produced gives back the original data,
/// whatever the level.
pub proof fn law_compress_roundtrip(
    data: Seq<u8>,
    level: CompressionLevel,
    frame: Seq<u8>,
    r: BlastResult<Vec<u8>>,
)
    requires
        zstd_encoded(data, zstd_level(level)) == Some(frame),
        decompress_outcome(frame, r),
    ensures
        r matches Ok(v) && v@ == data,
{
    assert(zstd_encoded(data, zstd_level(level)) == Some(frame));
}

/// Storage that keeps each item as a zstd frame (default level) in its
/// backend.
pub struct CompressedStorage<S: CacheStorage> {
    inner: S,
}

/// `v` is the data that `frame` was compressed from, whatever it was
/// compressed at (see `decompress_outcome`).
pub open spec fn read_back(frame: Seq<u8>, v: Seq<u8>) -> bool {
    forall|orig: Seq<u8>, level: i32| #[trigger] zstd_encoded(orig, level) == Some(frame) ==> v == orig
}

/// `f` is a frame that zstd's encoder made from some data at some level.
pub open spec fn is_frame(f: Seq<u8>) -> bool {
    exists|orig: Seq<u8>, level: i32| #[trigger] zstd_encoded(orig, level) == Some(f)
}

impl<S: CacheStorage> CompressedStorage<S> {
    /// The backend, which holds the frames.
    pub closed spec fn inner_spec(&self) -> S {
        self.inner
    }

    /// Compressed storage over `inner`.
    pub fn new(inner: S) -> (s: Self)
        ensures
            s.inner_spec() == inner,
    {
        CompressedStorage { inner }
    }

    /// Compresses `data` at the default level and stores the frame under
    /// `hash`; when compression or the backend fails, nothing changes.
    pub fn store(&mut self, hash: &[u8; 32], data: &[u8]) -> (r: BlastResult<()>)
        requires
            old(self).inner_spec().well_formed(),
        ensures
            final(self).inner_spec().well_formed(),
            zstd_encoded(data@, zstd_level(CompressionLevel::Default)) is None ==> r is Err,
            zstd_encoded(data@, zstd_level(CompressionLevel::Default)) matches Some(f) && old(
                self,
            ).inner_spec().can_store(hash@, f) ==> r is Ok,
            r is Ok ==> (zstd_encoded(data@, zstd_level(CompressionLevel::Default)) matches Some(f)
                && final(self).inner_spec().contents() == old(self).inner_spec().contents().insert(hash@, f)),
            r is Err ==> final(self).inner_spec().contents() == old(self).inner_spec().contents(),
    {
        let compressed = match compress(data, CompressionLevel::Default) {
            Ok(c) => c,
            Err(e) => {
                return Err(e);
            },
        };
        self.inner.store(hash, compressed.as_slice())
    }

    /// Loads the frame stored under `hash` and decompresses it; an error
    /// when there is none or it does not decompress.
    pub fn load(&self, hash: &[u8; 32]) -> (r: BlastResult<Vec<u8>>)
        requires
            self.inner_spec().well_formed(),
        ensures
            !self.inner_spec().contents().contains_key(hash@) ==> r is Err,
            self.inner_spec().contents().contains_key(hash@) && self.inner_spec().can_load(hash@) && is_frame(
                self.inner_spec().contents()[hash@],
            ) ==> r is Ok,
            r matches Ok(v) ==> self.inner_spec().contents().contains_key(hash@) && read_back(
                self.inner_spec().contents()[hash@],
                v@,
            ),
    {
        let compressed = match self.inner.load(hash) {
            Ok(c) => c,
            Err(e) => {
                return Err(e);
            },
        };
        decompress(compressed.as_slice())
    }

    /// Removes the frame stored under `hash`.
    pub fn remove(&mut self, hash: &[u8; 32]) -> (r: BlastResult<()>)
        requires
            old(self).inner_spec().well_formed(),
        ensures
            final(self).inner_spec().well_formed(),
            old(self).inner_spec().can_remove(hash@) ==> r is Ok,
            r is Ok ==> final(self).inner_spec().contents() == old(self).inner_spec().contents().remove(hash@),
            r is Err ==> final(self).inner_spec().contents() == old(self).inner_spec().contents(),
    {
        self.inner.remove(hash)
    }

    /// Removes every frame.
    pub fn clear(&mut self) -> (r: BlastResult<()>)
        requires
            old(self).inner_spec().well_formed(),
        ensures
            final(self).inner_spec().well_formed(),
            old(self).inner_spec().can_clear() ==> r is Ok,
            r is Ok ==> final(self).inner_spec().contents() == Map::<Seq<u8>, Seq<u8>>::empty(),
    {
        self.inner.clear()
    }

    /// Where the backend keeps the frame stored under `hash`.
    pub fn hash_path(&self, hash: &[u8; 32]) -> (p: String)
        ensures
            p@ == self.inner_spec().path_of(hash@),
    {
        self.inner.hash_path(hash)
    }
}

/// What a compressed store gives back: after `data` was stored under
/// `hash` as its frame, a successful read of the frame under `hash` is
/// `data`, and a read of it cannot fail for want of a frame.
pub proof fn law_compressed_read_after_store(
    before: Map<Seq<u8>, Seq<u8>>,
    after: Map<Seq<u8>, Seq<u8>>,
    hash: Seq<u8>,
    data: Seq<u8>,
    frame: Seq<u8>,
    v: Seq<u8>,
)
    requires
        zstd_encoded(data, zstd_level(CompressionLevel::Default)) == Some(frame),
        after == before.insert(hash, frame),
        read_back(after[hash], v),
    ensures
        after.contains_key(hash),
        v == data,
{
    assert(zstd_encoded(data, zstd_level(CompressionLevel::Default)) == Some(after[hash]));
}

} // verus!
