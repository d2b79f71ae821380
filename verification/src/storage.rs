//! Content-addressed blob storage: digests and where a blob is kept.
//!
//! A digest is `<algorithm>:<hex hash>`; blobs are stored under
//! `<base>/blobs/<algorithm>/<first 2 bytes of hash>/<hash>`.

use sha2::Digest;
use vstd::prelude::*;

use crate::numfmt::{dec, digit_char, push_decimal};
use crate::text::{chars_of, push_char};

verus! {

/// Storage error types.
#[derive(Debug)]
pub enum StorageError {
    /// An I/O failure, with its message.
    Io(String),
    /// Object not found.
    NotFound(String),
    /// Invalid digest.
    InvalidDigest(String),
    /// The data does not have the expected digest.
    DigestMismatch { expected: String, actual: String },
    /// Storage backend error.
    Backend(String),
    /// S3 error.
    S3(String),
    /// Configuration error.
    Configuration(String),
}

impl StorageError {
    /// The text of the error's message.
    pub open spec fn message_text(&self) -> Seq<char> {
        match self {
            StorageError::Io(m) => "IO error: "@ + m@,
            StorageError::NotFound(m) => "Object not found: "@ + m@,
            StorageError::InvalidDigest(m) => "Invalid digest: "@ + m@,
            StorageError::DigestMismatch { expected, actual } => "Digest mismatch: expected "@ + expected@
                + ", got "@ + actual@,
            StorageError::Backend(m) => "Storage backend error: "@ + m@,
            StorageError::S3(m) => "S3 error: "@ + m@,
            StorageError::Configuration(m) => "Configuration error: "@ + m@,
        }
    }

    /// The error's message.
    pub fn message(&self) -> (s: String)
        ensures
            s@ == self.message_text(),
    {
        match self {
            StorageError::Io(m) => {
                let mut s = "IO error: ".to_string();
                s.append(m.as_str());
                s
            },
            StorageError::NotFound(m) => {
                let mut s = "Object not found: ".to_string();
                s.append(m.as_str());
                s
            },
            StorageError::InvalidDigest(m) => {
                let mut s = "Invalid digest: ".to_string();
                s.append(m.as_str());
                s
            },
            StorageError::DigestMismatch { expected, actual } => {
                let mut s = "Digest mismatch: expected ".to_string();
                s.append(expected.as_str());
                s.append(", got ");
                s.append(actual.as_str());
                s
            },
            StorageError::Backend(m) => {
                let mut s = "Storage backend error: ".to_string();
                s.append(m.as_str());
                s
            },
            StorageError::S3(m) => {
                let mut s = "S3 error: ".to_string();
                s.append(m.as_str());
                s
            },
            StorageError::Configuration(m) => {
                let mut s = "Configuration error: ".to_string();
                s.append(m.as_str());
                s
            },
        }
    }
}

/// Index of the first occurrence of `c` in `s`.
pub open spec fn first_index_of(s: Seq<char>, c: char) -> Option<int> {
    if exists|i: int| 0 <= i < s.len() && s[i] == c {
        Some(choose|i: int| 0 <= i < s.len() && s[i] == c && forall|j: int| 0 <= j < i ==> s[j] != c)
    } else {
        None
    }
}

/// Position of the first `c` in `s`.
pub fn find_first(s: &Vec<char>, c: char) -> (r: Option<usize>)
    ensures
        match r {
            Some(i) => first_index_of(s@, c) == Some(i as int),
            None => first_index_of(s@, c) is None,
        },
        r matches Some(i) ==> i < s@.len() && s@[i as int] == c && forall|j: int| 0 <= j < i ==> s@[j] != c,
{
    let mut i: usize = 0;
    while i < s.len()
        invariant
            i <= s@.len(),
            forall|j: int| 0 <= j < i ==> s@[j] != c,
        decreases s.len() - i,
    {
        if s[i] == c {
            let ghost w = choose|k: int| 0 <= k < s@.len() && s@[k] == c && forall|j: int| 0 <= j < k ==> s@[j] != c;
            assert(0 <= i < s@.len() && s@[i as int] == c && forall|j: int| 0 <= j < i ==> s@[j] != c);
            assert(w == i) by {
                if w < i {
                    assert(s@[w] != c);
                } else if w > i {
                    assert(s@[i as int] != c);
                }
            }
            return Some(i);
        }
        i = i + 1;
    }
    None
}

/// The message of a malformed digest.
pub open spec fn invalid_format_message(digest: Seq<char>) -> Seq<char> {
    "Invalid digest format: "@ + digest
}

/// Parse a digest string (e.g., "sha256:abc123...") into its algorithm and
/// hash: the text before and after the first `:`.
pub fn parse_digest(digest: &str) -> (r: Result<(&str, &str), StorageError>)
    ensures
        match first_index_of(digest@, ':') {
            Some(i) => r matches Ok((a, h)) && a@ == digest@.take(i) && h@ == digest@.skip(i + 1),
            None => r matches Err(StorageError::InvalidDigest(m)) && m@ == invalid_format_message(digest@),
        },
{
    let chars = chars_of(digest);
    match find_first(&chars, ':') {
        Some(i) => {
            let n = chars.len();
            let algorithm = digest.substring_char(0, i);
            let hash = digest.substring_char(i + 1, n);
            assert(digest@.subrange(0, i as int) =~= digest@.take(i as int));
            assert(digest@.subrange(i + 1, n as int) =~= digest@.skip(i + 1));
            Ok((algorithm, hash))
        },
        None => {
            let mut m = "Invalid digest format: ".to_string();
            m.append(digest);
            Err(StorageError::InvalidDigest(m))
        },
    }
}

/// A lowercase hexadecimal digit.
pub open spec fn is_lower_hex(c: char) -> bool {
    ('0' <= c && c <= '9') || ('a' <= c && c <= 'f')
}

/// The number of bytes of the UTF-8 encoding of `s`, as `str::len` reports it.
pub open spec fn utf8_len(s: Seq<char>) -> nat {
    (vstd::utf8::encode_utf8(s).len() as usize) as nat
}

/// Minimum hash length for a supported algorithm.
pub open spec fn min_hash_len(algorithm: Seq<char>) -> nat {
    if algorithm == "sha512"@ {
        128
    } else {
        64
    }
}

/// The outcome of digest validation: `None` when valid, else the message of
/// the `InvalidDigest` error.
pub open spec fn digest_problem(digest: Seq<char>) -> Option<Seq<char>> {
    match first_index_of(digest, ':') {
        None => Some(invalid_format_message(digest)),
        Some(i) => {
            let algorithm = digest.take(i);
            let hash = digest.skip(i + 1);
            if algorithm != "sha256"@ && algorithm != "sha512"@ {
                Some("Unsupported digest algorithm: "@ + algorithm)
            } else if utf8_len(hash) < min_hash_len(algorithm) {
                Some("Hash too short for "@ + algorithm + ": expected "@ + dec(min_hash_len(algorithm))
                    + " chars, got "@ + dec(utf8_len(hash)))
            } else if exists|k: int| 0 <= k < hash.len() && !is_lower_hex(#[trigger] hash[k]) {
                Some("Hash contains invalid characters (must be lowercase hex): "@ + digest)
            } else {
                None
            }
        },
    }
}

/// Validate a digest string: a supported algorithm (sha256, sha512), a hash
/// of at least 64 (sha256) or 128 (sha512) bytes, all lowercase hex.
pub fn validate_digest(digest: &str) -> (r: Result<(), StorageError>)
    ensures
        match digest_problem(digest@) {
            None => r is Ok,
            Some(m) => r matches Err(StorageError::InvalidDigest(e)) && e@ == m,
        },
{
    let (algorithm, hash) = match parse_digest(digest) {
        Ok(parts) => parts,
        Err(e) => {
            return Err(e);
        },
    };
    let alg = chars_of(algorithm);
    let sha256 = chars_of("sha256");
    let sha512 = chars_of("sha512");
    let is256 = crate::text::chars_eq(&alg, &sha256);
    let is512 = crate::text::chars_eq(&alg, &sha512);
    // Only allow known algorithms
    if !is256 && !is512 {
        let mut m = "Unsupported digest algorithm: ".to_string();
        m.append(algorithm);
        return Err(StorageError::InvalidDigest(m));
    }
    // Minimum hash length (sha256 = 64 hex chars, sha512 = 128 hex chars)
    let min_len: usize = if is512 {
        128
    } else {
        64
    };
    assert(min_len == min_hash_len(algorithm@));
    if hash.len() < min_len {
        let mut m = "Hash too short for ".to_string();
        m.append(algorithm);
        m.append(": expected ");
        push_decimal(&mut m, min_len as u64);
        m.append(" chars, got ");
        push_decimal(&mut m, hash.len() as u64);
        return Err(StorageError::InvalidDigest(m));
    }
    // Hash must be lowercase hexadecimal only (prevents path traversal)
    let hc = chars_of(hash);
    let mut k: usize = 0;
    #[verifier::loop_isolation(false)]
    while k < hc.len()
        invariant
            k <= hc@.len(),
            hc@ == hash@,
            forall|j: int| 0 <= j < k ==> is_lower_hex(#[trigger] hc@[j]),
        decreases hc.len() - k,
    {
        let c = hc[k];
        if !(('0' <= c && c <= '9') || ('a' <= c && c <= 'f')) {
            let mut m = "Hash contains invalid characters (must be lowercase hex): ".to_string();
            m.append(digest);
            assert(!is_lower_hex(hash@[k as int]));
            return Err(StorageError::InvalidDigest(m));
        }
        k = k + 1;
    }
    Ok(())
}

// ==================== Hashing ====================

/// The SHA-256 digest of `data`, as computed by the `sha2` crate.
pub uninterp spec fn sha256(data: Seq<u8>) -> Seq<u8>;

/// SHA-256 of `data` (`sha2::Sha256::digest`): the 32-byte digest.
#[verifier::external_body]
fn sha256_bytes(data: &[u8]) -> (d: Vec<u8>)
    ensures
        d@ == sha256(data@),
        d@.len() == 32,
{
    sha2::Sha256::digest(data).to_vec()
}

/// The lowercase hexadecimal digit for `n < 16`.
pub open spec fn hex_digit(n: nat) -> char {
    if n < 10 {
        digit_char(n)
    } else {
        ((87 + n) as u8) as char
    }
}

/// Lowercase hex encoding: two digits per byte, high nibble first.
pub open spec fn hex_lower(bytes: Seq<u8>) -> Seq<char>
    decreases bytes.len(),
{
    if bytes.len() == 0 {
        Seq::empty()
    } else {
        hex_lower(bytes.drop_last()) + seq![
            hex_digit((bytes.last() / 16) as nat),
            hex_digit((bytes.last() % 16) as nat),
        ]
    }
}

/// Lowercase hex encoding of `data` (`hex::encode`).
#[verifier::external_body]
fn hex_encode(data: &[u8]) -> (s: String)
    ensures
        s@ == hex_lower(data@),
{
    hex::encode(data)
}

/// Compute the SHA-256 digest of data, as `sha256:<lowercase hex>`.
/// The result always passes digest validation.
pub fn compute_sha256(data: &[u8]) -> (s: String)
    ensures
        s@ == digest_of(data@),
        digest_problem(s@) is None,
{
    let d = sha256_bytes(data);
    digest_from_hash(d.as_slice())
}

/// The digest named by a SHA-256 hash of 32 bytes: `sha256:` and the hash
/// in lowercase hex. It always passes digest validation.
pub fn digest_from_hash(hash: &[u8]) -> (s: String)
    requires
        hash@.len() == 32,
    ensures
        s@ == "sha256:"@ + hex_lower(hash@),
        digest_problem(s@) is None,
{
    proof {
        lemma_computed_digest_valid(hash@);
    }
    let hex = hex_encode(hash);
    let mut s = "sha256:".to_string();
    s.append(hex.as_str());
    s
}

/// The digest of data: `sha256:` and the lowercase hex of its SHA-256.
pub open spec fn digest_of(data: Seq<u8>) -> Seq<char> {
    "sha256:"@ + hex_lower(sha256(data))
}

/// Compare a digest computed over stored data with the one it was stored
/// under: a mismatch names both.
pub fn check_computed_digest(computed: String, expected: &str) -> (r: Result<(), StorageError>)
    ensures
        computed@ == expected@ ==> r is Ok,
        computed@ != expected@ ==> (r matches Err(StorageError::DigestMismatch { expected: e, actual: a })
            && e@ == expected@ && a@ == computed@),
{
    if crate::text::str_eq(computed.as_str(), expected) {
        Ok(())
    } else {
        Err(StorageError::DigestMismatch { expected: expected.to_string(), actual: computed })
    }
}

/// Verify that `data` is the content of `digest` before it is stored.
pub fn verify_data_digest(data: &[u8], digest: &str) -> (r: Result<(), StorageError>)
    ensures
        digest_of(data@) == digest@ ==> r is Ok,
        digest_of(data@) != digest@ ==> (r matches Err(StorageError::DigestMismatch { expected: e, actual: a })
            && e@ == digest@ && a@ == digest_of(data@)),
{
    check_computed_digest(compute_sha256(data), digest)
}


/// Lowercase hex text has two digits per byte, each `0`-`9` or `a`-`f`.
proof fn lemma_hex_lower_shape(b: Seq<u8>)
    ensures
        hex_lower(b).len() == 2 * b.len(),
        forall|i: int| 0 <= i < hex_lower(b).len() ==> is_lower_hex(#[trigger] hex_lower(b)[i]),
    decreases b.len(),
{
    if b.len() > 0 {
        lemma_hex_lower_shape(b.drop_last());
        let hi = (b.last() / 16) as nat;
        let lo = (b.last() % 16) as nat;
        assert forall|n: nat| n < 16 implies is_lower_hex(#[trigger] hex_digit(n)) by {
            if n < 10 {
                assert(((48 + n) as u8) as char as u32 == 48 + n);
            } else {
                assert(((87 + n) as u8) as char as u32 == 87 + n);
            }
        }
        assert(is_lower_hex(hex_digit(hi)) && is_lower_hex(hex_digit(lo)));
        let h = hex_lower(b);
        let prev = hex_lower(b.drop_last());
        assert forall|i: int| 0 <= i < h.len() implies is_lower_hex(#[trigger] h[i]) by {
            if i < prev.len() {
                assert(h[i] == prev[i]);
            }
        }
    }
}

/// The digest computed for data always passes digest validation: it is
/// `sha256:` and 64 lowercase hex digits.
pub proof fn lemma_computed_digest_valid(hash: Seq<u8>)
    requires
        hash.len() == 32,
    ensures
        digest_problem("sha256:"@ + hex_lower(hash)) is None,
{
    reveal_strlit("sha256:");
    reveal_strlit("sha256");
    reveal_strlit("sha512");
    let h = hex_lower(hash);
    lemma_hex_lower_shape(hash);
    let s = "sha256:"@ + h;
    assert(s[6] == ':');
    assert(forall|j: int| 0 <= j < 6 ==> s[j] != ':');
    let w = choose|i: int| 0 <= i < s.len() && s[i] == ':' && forall|j: int| 0 <= j < i ==> s[j] != ':';
    assert(0 <= 6 < s.len() && s[6] == ':' && forall|j: int| 0 <= j < 6 ==> s[j] != ':');
    assert(w == 6) by {
        if w < 6 {
            assert(s[w] != ':');
        } else if w > 6 {
            assert(s[6] != ':');
        }
    }
    assert(first_index_of(s, ':') == Some(6int));
    assert(s.take(6) =~= "sha256"@);
    assert(s.skip(7) =~= h);
    assert(vstd::utf8::is_ascii_chars(h)) by {
        assert forall|i: int| 0 <= i < h.len() implies '\0' <= #[trigger] h[i] <= '\u{7f}' by {
            assert(is_lower_hex(h[i]));
        }
    }
    vstd::utf8::is_ascii_chars_encode_utf8(h);
    assert("sha256"@ != "sha512"@) by {
        assert("sha256"@[4] != "sha512"@[4]);
    }
    assert(utf8_len(h) == 64);
}

} // verus!

verus! {

// ==================== Local storage layout ====================

/// `base` joined with `comp` as a Unix path: an absolute `comp` replaces
/// `base`; otherwise a `/` is put between them unless `base` is empty or
/// already ends with one.
pub open spec fn path_join(base: Seq<char>, comp: Seq<char>) -> Seq<char> {
    if comp.len() > 0 && comp[0] == '/' {
        comp
    } else if base.len() > 0 && base.last() != '/' {
        base + seq!['/'] + comp
    } else {
        base + comp
    }
}

/// The number of bytes of the UTF-8 encoding of `c`.
pub open spec fn char_width(c: char) -> nat {
    if (c as u32) < 0x80 {
        1
    } else if (c as u32) < 0x800 {
        2
    } else if (c as u32) < 0x10000 {
        3
    } else {
        4
    }
}

/// The first two bytes of `hash` end on a character boundary.
pub open spec fn two_byte_prefix_ok(hash: Seq<char>) -> bool {
    hash.len() >= 1 && (char_width(hash[0]) == 2 || (char_width(hash[0]) == 1 && hash.len() >= 2 && char_width(
        hash[1],
    ) == 1))
}

/// The characters making up the first two bytes of `hash`.
pub open spec fn two_byte_prefix(hash: Seq<char>) -> Seq<char> {
    if char_width(hash[0]) == 2 {
        hash.take(1)
    } else {
        hash.take(2)
    }
}

/// Joins `comp` onto the path `base`.
fn join_path(base: &str, comp: &str) -> (p: String)
    ensures
        p@ == path_join(base@, comp@),
{
    let cv = chars_of(comp);
    if cv.len() > 0 && cv[0] == '/' {
        return comp.to_string();
    }
    let bv = chars_of(base);
    let mut p = base.to_string();
    if bv.len() > 0 && bv[bv.len() - 1] != '/' {
        push_char(&mut p, '/');
    }
    p.append(comp);
    p
}

/// Local disk storage backend. Blobs live under
/// `<base_path>/blobs/<algorithm>/<first 2 bytes of hash>/<hash>`.
pub struct LocalStorage {
    base_path: String,
    uploads_path: String,
}

impl LocalStorage {
    /// The storage rooted at `base_path`, with uploads in `<base_path>/uploads`.
    pub fn at_path(base_path: String) -> (s: Self)
        ensures
            s.base_path_spec() == base_path@,
            s.uploads_path_spec() == path_join(base_path@, "uploads"@),
    {
        let uploads_path = join_path(base_path.as_str(), "uploads");
        LocalStorage { base_path, uploads_path }
    }

    /// The base directory.
    pub closed spec fn base_path_spec(&self) -> Seq<char> {
        self.base_path@
    }

    /// The directory holding upload sessions.
    pub closed spec fn uploads_path_spec(&self) -> Seq<char> {
        self.uploads_path@
    }

    /// The base directory.
    pub fn base_path(&self) -> (p: &str)
        ensures
            p@ == self.base_path_spec(),
    {
        self.base_path.as_str()
    }

    /// The directory holding upload sessions.
    pub fn uploads_path(&self) -> (p: &str)
        ensures
            p@ == self.uploads_path_spec(),
    {
        self.uploads_path.as_str()
    }

    /// Get the file path for a digest. Refused when the digest has no `:`
    /// or its hash is shorter than two bytes.
    pub fn blob_path(&self, digest: &str) -> (r: Result<String, StorageError>)
        requires
            first_index_of(digest@, ':') matches Some(i) ==> (utf8_len(digest@.skip(i + 1)) >= 2
                ==> two_byte_prefix_ok(digest@.skip(i + 1))),
        ensures
            match first_index_of(digest@, ':') {
                None => r matches Err(StorageError::InvalidDigest(m)) && m@ == invalid_format_message(digest@),
                Some(i) => {
                    let algorithm = digest@.take(i);
                    let hash = digest@.skip(i + 1);
                    if utf8_len(hash) < 2 {
                        r matches Err(StorageError::InvalidDigest(m)) && m@ == "Hash too short: "@ + digest@
                    } else {
                        r matches Ok(p) && p@ == path_join(
                            path_join(
                                path_join(path_join(self.base_path_spec(), "blobs"@), algorithm),
                                two_byte_prefix(hash),
                            ),
                            hash,
                        )
                    }
                },
            },
    {
        let (algorithm, hash) = match parse_digest(digest) {
            Ok(parts) => parts,
            Err(e) => {
                return Err(e);
            },
        };
        if hash.len() < 2 {
            let mut m = "Hash too short: ".to_string();
            m.append(digest);
            return Err(StorageError::InvalidDigest(m));
        }
        // Use the first 2 bytes for sharding
        let hv = chars_of(hash);
        let shard_len: usize = if (hv[0] as u32) >= 0x80 {
            1
        } else {
            2
        };
        let shard = hash.substring_char(0, shard_len);
        let p1 = join_path(self.base_path.as_str(), "blobs");
        let p2 = join_path(p1.as_str(), algorithm);
        let p3 = join_path(p2.as_str(), shard);
        Ok(join_path(p3.as_str(), hash))
    }

    /// Get the temp file path for an upload session.
    pub fn upload_path(&self, session_id: &str) -> (p: String)
        ensures
            p@ == path_join(self.uploads_path_spec(), session_id@),
    {
        join_path(self.uploads_path.as_str(), session_id)
    }
}

// ==================== S3 object keys ====================

/// S3 storage configuration.
pub struct S3Config {
    /// Bucket name.
    pub bucket: String,
    /// Region, such as "us-east-1".
    pub region: String,
    /// Endpoint of an S3-compatible service.
    pub endpoint: Option<String>,
    pub access_key_id: Option<String>,
    pub secret_access_key: Option<String>,
    /// Prefix of every object key.
    pub prefix: Option<String>,
    /// Allow plain HTTP.
    pub allow_http: bool,
}

impl Default for S3Config {
    /// Bucket "harbor-cache" in "us-east-1", no endpoint, credentials or
    /// prefix, HTTPS only.
    fn default() -> (c: Self)
        ensures
            c.bucket@ == "harbor-cache"@,
            c.region@ == "us-east-1"@,
            c.endpoint is None,
            c.access_key_id is None,
            c.secret_access_key is None,
            c.prefix is None,
            !c.allow_http,
    {
        S3Config {
            bucket: "harbor-cache".to_string(),
            region: "us-east-1".to_string(),
            endpoint: None,
            access_key_id: None,
            secret_access_key: None,
            prefix: None,
            allow_http: false,
        }
    }
}

/// `rest` under `prefix`: `<prefix>/<rest>`, or `rest` alone without a prefix.
pub open spec fn under_prefix(prefix: Seq<char>, rest: Seq<char>) -> Seq<char> {
    if prefix.len() == 0 {
        rest
    } else {
        prefix + "/"@ + rest
    }
}

fn under_prefix_text(prefix: &str, rest: String) -> (s: String)
    ensures
        s@ == under_prefix(prefix@, rest@),
{
    if prefix.is_empty() {
        rest
    } else {
        let mut s = prefix.to_string();
        s.append("/");
        s.append(rest.as_str());
        s
    }
}

/// The key of a blob in the bucket:
/// `[<prefix>/]blobs/<algorithm>/<first 2 bytes of hash>/<hash>`. Refused
/// when the digest has no `:` or its hash is shorter than two bytes.
pub fn s3_blob_key(prefix: &str, digest: &str) -> (r: Result<String, StorageError>)
    requires
        first_index_of(digest@, ':') matches Some(i) ==> (utf8_len(digest@.skip(i + 1)) >= 2
            ==> two_byte_prefix_ok(digest@.skip(i + 1))),
    ensures
        match first_index_of(digest@, ':') {
            None => r matches Err(StorageError::InvalidDigest(m)) && m@ == invalid_format_message(digest@),
            Some(i) => {
                let algorithm = digest@.take(i);
                let hash = digest@.skip(i + 1);
                if utf8_len(hash) < 2 {
                    r matches Err(StorageError::InvalidDigest(m)) && m@ == "Hash too short: "@ + digest@
                } else {
                    r matches Ok(p) && p@ == under_prefix(
                        prefix@,
                        "blobs/"@ + algorithm + "/"@ + two_byte_prefix(hash) + "/"@ + hash,
                    )
                }
            },
        },
{
    let (algorithm, hash) = match parse_digest(digest) {
        Ok(parts) => parts,
        Err(e) => {
            return Err(e);
        },
    };
    if hash.len() < 2 {
        let mut m = "Hash too short: ".to_string();
        m.append(digest);
        return Err(StorageError::InvalidDigest(m));
    }
    let hv = chars_of(hash);
    let shard_len: usize = if (hv[0] as u32) >= 0x80 {
        1
    } else {
        2
    };
    let shard = hash.substring_char(0, shard_len);
    let mut rest = "blobs/".to_string();
    rest.append(algorithm);
    rest.append("/");
    rest.append(shard);
    rest.append("/");
    rest.append(hash);
    Ok(under_prefix_text(prefix, rest))
}

/// The key of an upload session's data: `[<prefix>/]uploads/<session id>`.
pub fn s3_upload_key(prefix: &str, session_id: &str) -> (p: String)
    ensures
        p@ == under_prefix(prefix@, "uploads/"@ + session_id@),
{
    let mut rest = "uploads/".to_string();
    rest.append(session_id);
    under_prefix_text(prefix, rest)
}

} // verus!
