//! Content hashes: BLAKE3 digests, their lowercase hexadecimal text, the
//! text's decoding, and the on-disk layout of content-addressed files.

use vstd::prelude::*;
use vstd::string::StringSliceAdditionalSpecFns;
use crate::error::{BlastError, BlastResult};
use crate::paths::{join, join_path};
use crate::text::{chars_of, push_char, string_of_range};
use vstd::string::StringExecFns;

verus! {

// ---------------------------------------------------------------------------
// BLAKE3
// ---------------------------------------------------------------------------

/// The 32-byte BLAKE3 digest of `data`.
pub uninterp spec fn blake3_digest(data: Seq<u8>) -> Seq<u8>;

/// `blake3::hash` followed by `Hash::as_bytes`: the digest of `data`, which
/// the crate defines as 32 bytes (`OUT_LEN`).
#[verifier::external_body]
pub(crate) fn blake3_hash(data: &[u8]) -> (h: [u8; 32])
    ensures
        h@ == blake3_digest(data@),
{
    *blake3::hash(data).as_bytes()
}

// ---------------------------------------------------------------------------
// Hexadecimal text
// ---------------------------------------------------------------------------

/// The lowercase hexadecimal digit for `n < 16`.
pub open spec fn hex_digit(n: nat) -> char {
    if n < 10 {
        (('0' as nat) + n) as char
    } else {
        (('a' as nat) + (n - 10)) as char
    }
}

/// Lowercase hexadecimal text of `b`, two digits per byte, high half first.
pub open spec fn hex_encode(b: Seq<u8>) -> Seq<char>
    decreases b.len(),
{
    if b.len() == 0 {
        Seq::empty()
    } else {
        hex_encode(b.drop_last()).push(hex_digit((b.last() / 16) as nat)).push(
            hex_digit((b.last() % 16) as nat),
        )
    }
}

/// The value of one hexadecimal digit byte, either case.
pub open spec fn hex_value(c: u8) -> Option<u8> {
    if 48 <= c <= 57 {
        Some((c - 48) as u8)
    } else if 97 <= c <= 102 {
        Some((c - 87) as u8)
    } else if 65 <= c <= 70 {
        Some((c - 55) as u8)
    } else {
        None
    }
}

/// What `hex::decode` gives for the bytes `t`: an even number of hexadecimal
/// digit bytes decodes pair by pair; anything else is an error.
pub open spec fn hex_decoded(t: Seq<u8>) -> Option<Seq<u8>> {
    if t.len() % 2 == 0 && (forall|i: int| 0 <= i < t.len() ==> (#[trigger] hex_value(t[i])) is Some) {
        Some(
            Seq::new(
                t.len() / 2,
                |i: int| (hex_value(t[2 * i])->0 * 16 + hex_value(t[2 * i + 1])->0) as u8,
            ),
        )
    } else {
        None
    }
}

/// Declaration of `hex::FromHexError`.
#[verifier::external_type_specification]
#[verifier::external_body]
pub struct ExFromHexError(hex::FromHexError);

/// `hex::decode`: per the crate's source, an odd length or a byte that is not
/// a hexadecimal digit is an error, and otherwise each pair of digits becomes
/// one byte.
#[verifier::external_body]
fn hex_decode(t: &[u8]) -> (r: Result<Vec<u8>, hex::FromHexError>)
    ensures
        r is Ok <==> hex_decoded(t@) is Some,
        r matches Ok(v) ==> v@ == hex_decoded(t@)->0,
{
    hex::decode(t)
}

/// `FromHexError`'s message (`Display`); nothing is stated of the text.
#[verifier::external_body]
fn hex_error_text(e: &hex::FromHexError) -> String {
    e.to_string()
}

/// The lowercase hexadecimal digit for `n < 16`.
fn hex_digit_char(n: u8) -> (c: char)
    requires
        n < 16,
    ensures
        c == hex_digit(n as nat),
{
    if n < 10 {
        (48u8 + n) as char
    } else {
        (87u8 + n) as char
    }
}

/// Lowercase hexadecimal text of `b`.
pub fn to_hex(b: &[u8]) -> (s: String)
    ensures
        s@ == hex_encode(b@),
{
    let mut s = String::new();
    let mut i: usize = 0;
    while i < b.len()
        invariant
            i <= b@.len(),
            s@ == hex_encode(b@.take(i as int)),
        decreases b@.len() - i,
    {
        let x = b[i];
        push_char(&mut s, hex_digit_char(x / 16));
        push_char(&mut s, hex_digit_char(x % 16));
        proof {
            assert(b@.take(i + 1).drop_last() =~= b@.take(i as int));
        }
        i += 1;
    }
    assert(b@.take(b@.len() as int) =~= b@);
    s
}

/// Hexadecimal text has two characters per byte.
pub proof fn lemma_hex_encode_len(b: Seq<u8>)
    ensures
        hex_encode(b).len() == 2 * b.len(),
    decreases b.len(),
{
    if b.len() > 0 {
        lemma_hex_encode_len(b.drop_last());
    }
}

// ---------------------------------------------------------------------------
// Serializable hash
// ---------------------------------------------------------------------------

/// A content hash kept as its hexadecimal text.
#[derive(Debug, Clone)]
pub struct SerializableHash(String);

impl SerializableHash {
    pub closed spec fn text(&self) -> Seq<char> {
        self.0@
    }

    /// The hash of a 32-byte digest, as lowercase hexadecimal text.
    pub fn from_digest(digest: &[u8; 32]) -> (h: Self)
        ensures
            h.text() == hex_encode(digest@),
    {
        SerializableHash(to_hex(digest))
    }

    /// A hash from its text as stored.
    pub fn from_text(text: String) -> (h: Self)
        ensures
            h.text() == text@,
    {
        SerializableHash(text)
    }

    /// The hash's text.
    pub fn as_str(&self) -> (s: &str)
        ensures
            s@ == self.text(),
    {
        self.0.as_str()
    }

    /// The digest bytes the text stands for; text that is not hexadecimal
    /// is a cache error.
    pub fn to_digest(&self) -> (r: BlastResult<Vec<u8>>)
        requires
            hex_decoded(spec_utf8(self.text())) matches Some(b) ==> b.len() == 32,
        ensures
            r is Ok <==> hex_decoded(spec_utf8(self.text())) is Some,
            r matches Ok(b) ==> b@ == hex_decoded(spec_utf8(self.text()))->0 && b@.len() == 32,
            r matches Err(e) ==> e is Cache,
    {
        let bytes = self.0.as_str().as_bytes();
        match hex_decode(bytes) {
            Ok(v) => Ok(v),
            Err(e) => {
                let mut msg = String::from_str("Invalid hash: ");
                let detail = hex_error_text(&e);
                crate::text::push_text(&mut msg, detail.as_str());
                Err(BlastError::Cache(msg))
            },
        }
    }
}

/// The UTF-8 encoding of text.
pub open spec fn spec_utf8(s: Seq<char>) -> Seq<u8> {
    vstd::utf8::encode_utf8(s)
}

// ---------------------------------------------------------------------------
// Content-addressed file layout
// ---------------------------------------------------------------------------

/// Where a file with the given digest lives under `root`: the first two hex
/// digits name a directory, the rest name the file.
pub open spec fn hash_file_path(root: Seq<char>, digest: Seq<u8>) -> Seq<char> {
    let hex = hex_encode(digest);
    join_path(join_path(root, hex.take(2)), hex.skip(2))
}

/// File-based storage backend rooted at a directory.
#[derive(Debug)]
pub struct FileStorage {
    path: String,
}

impl FileStorage {
    pub closed spec fn root(&self) -> Seq<char> {
        self.path@
    }

    /// Storage rooted at `path` (the directory is created by the caller).
    pub fn at(path: String) -> (s: Self)
        ensures
            s.root() == path@,
    {
        FileStorage { path }
    }

    /// The root directory.
    pub fn path(&self) -> (p: &str)
        ensures
            p@ == self.root(),
    {
        self.path.as_str()
    }

    /// Get file path for a digest
    pub fn hash_path(&self, digest: &[u8; 32]) -> (p: String)
        ensures
            p@ == hash_file_path(self.root(), digest@),
    {
        let hex = to_hex(digest);
        proof {
            lemma_hex_encode_len(digest@);
        }
        let v = chars_of(hex.as_str());
        let dir = string_of_range(&v, 0, 2);
        let file = string_of_range(&v, 2, v.len());
        let d = join(self.path.as_str(), dir.as_str());
        let p = join(d.as_str(), file.as_str());
        assert(v@.subrange(0, 2) =~= hex@.take(2));
        assert(v@.subrange(2, v@.len() as int) =~= hex@.skip(2));
        p
    }
}

/// The digits of byte `i` sit at positions `2 * i` and `2 * i + 1`.
proof fn lemma_hex_encode_at(b: Seq<u8>, i: int)
    requires
        0 <= i < b.len(),
    ensures
        hex_encode(b).len() == 2 * b.len(),
        hex_encode(b)[2 * i] == hex_digit((b[i] / 16) as nat),
        hex_encode(b)[2 * i + 1] == hex_digit((b[i] % 16) as nat),
    decreases b.len(),
{
    lemma_hex_encode_len(b);
    lemma_hex_encode_len(b.drop_last());
    if i < b.len() - 1 {
        lemma_hex_encode_at(b.drop_last(), i);
    }
}

/// A hexadecimal digit is an ASCII character whose byte reads back as its value.
proof fn lemma_hex_digit_value(n: nat)
    requires
        n < 16,
    ensures
        '\0' <= hex_digit(n) <= '\u{7f}',
        hex_value(hex_digit(n) as u8) == Some(n as u8),
{
    if n < 10 {
        assert(hex_digit(n) as nat == 48 + n);
    } else {
        assert(hex_digit(n) as nat == 97 + (n - 10));
    }
}

/// Decoding the hexadecimal text of a digest gives the digest back: the
/// text a hash is stored as reads back as the bytes it was made from.
pub proof fn law_hex_roundtrip(b: Seq<u8>)
    ensures
        hex_decoded(spec_utf8(hex_encode(b))) == Some(b),
{
    let h = hex_encode(b);
    lemma_hex_encode_len(b);
    assert forall|j: int| 0 <= j < h.len() implies '\0' <= #[trigger] h[j] <= '\u{7f}' && hex_value(h[j] as u8) is Some by {
        let i = j / 2;
        lemma_hex_encode_at(b, i);
        if j % 2 == 0 {
            assert(j == 2 * i);
            lemma_hex_digit_value((b[i] / 16) as nat);
        } else {
            assert(j == 2 * i + 1);
            lemma_hex_digit_value((b[i] % 16) as nat);
        }
    }
    assert(vstd::utf8::is_ascii_chars(h));
    vstd::utf8::is_ascii_chars_encode_utf8(h);
    let t = spec_utf8(h);
    assert(t.len() == h.len());
    assert forall|j: int| 0 <= j < t.len() implies #[trigger] hex_value(t[j]) is Some by {
        assert(t[j] == h[j] as u8);
    }
    assert(t.len() % 2 == 0);
    let d = hex_decoded(t)->0;
    assert(d.len() == b.len());
    assert forall|i: int| 0 <= i < b.len() implies d[i] == b[i] by {
        lemma_hex_encode_at(b, i);
        lemma_hex_digit_value((b[i] / 16) as nat);
        lemma_hex_digit_value((b[i] % 16) as nat);
        assert(t[2 * i] == h[2 * i] as u8);
        assert(t[2 * i + 1] == h[2 * i + 1] as u8);
        assert((b[i] / 16) * 16 + b[i] % 16 == b[i]);
    }
    assert(d =~= b);
}

} // verus!
