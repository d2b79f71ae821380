//! The registry service's decisions: what it accepts at its boundary, when
//! it consults the cache, which digest a manifest is stored under, and how
//! upstream failures become its own errors.

use vstd::prelude::*;

use crate::errors::{CoreError, ProxyError};
use crate::registry_api::{is_digest_reference, tag_problem, tag_reference_check};
use crate::storage::{compute_sha256, digest_problem, hex_lower, is_lower_hex, sha256, utf8_len};
use crate::text::{chars_of, has_prefix, starts_with, views_of};

verus! {

// ==================== Input validation ====================

/// Validate a tag at the service boundary (see [`tag_problem`]).
pub fn validate_tag_reference(tag: &str) -> (r: Result<(), CoreError>)
    ensures
        match tag_problem(tag@) {
            None => r is Ok,
            Some(m) => r matches Err(CoreError::BadRequest(e)) && e@ == m,
        },
{
    match tag_reference_check(tag) {
        None => Ok(()),
        Some(m) => Err(CoreError::BadRequest(m)),
    }
}

/// Why the service refuses a manifest reference: a digest must be valid, a
/// tag too.
pub open spec fn service_reference_refusal(reference: Seq<char>) -> Option<CoreErrorKind> {
    if is_digest_reference(reference) {
        match digest_problem(reference) {
            Some(m) => Some(CoreErrorKind::InvalidStoredDigest(m)),
            None => None,
        }
    } else {
        match tag_problem(reference) {
            Some(m) => Some(CoreErrorKind::BadRequest(m)),
            None => None,
        }
    }
}

/// The refusals of the service's boundary checks.
pub enum CoreErrorKind {
    /// `CoreError::BadRequest` with this message.
    BadRequest(Seq<char>),
    /// `CoreError::Storage(StorageError::InvalidDigest)` with this message.
    InvalidStoredDigest(Seq<char>),
}

/// `e` is the error that `k` describes.
pub open spec fn is_refusal(e: CoreError, k: CoreErrorKind) -> bool {
    match k {
        CoreErrorKind::BadRequest(m) => e matches CoreError::BadRequest(x) && x@ == m,
        CoreErrorKind::InvalidStoredDigest(m) => e matches CoreError::Storage(
            crate::storage::StorageError::InvalidDigest(x),
        ) && x@ == m,
    }
}

/// Validate a manifest reference at the service boundary: a digest
/// (`sha256:`/`sha512:`) must be a valid digest, anything else a valid tag.
pub fn validate_reference(reference: &str) -> (r: Result<(), CoreError>)
    ensures
        match service_reference_refusal(reference@) {
            None => r is Ok,
            Some(k) => r matches Err(e) && is_refusal(e, k),
        },
{
    if crate::registry_api::digest_reference(reference) {
        return match crate::storage::validate_digest(reference) {
            Ok(()) => Ok(()),
            Err(e) => Err(CoreError::Storage(e)),
        };
    }
    validate_tag_reference(reference)
}

/// `s` split at each occurrence of `sep`.
pub open spec fn split_on(s: Seq<char>, sep: char) -> Seq<Seq<char>>
    decreases s.len(),
{
    match crate::storage::first_index_of(s, sep) {
        None => seq![s],
        Some(i) => if 0 <= i < s.len() {
            seq![s.take(i)] + split_on(s.skip(i + 1), sep)
        } else {
            seq![s]
        },
    }
}

/// The byte lengths of the groups of a UUID.
pub open spec fn uuid_group_len(k: int) -> nat {
    if k == 4 {
        12
    } else if k == 0 {
        8
    } else {
        4
    }
}

/// The first group, from `k` on, that is wrong: `Some(true)` when its
/// length is wrong, `Some(false)` when it has a character that is not
/// lowercase hex, `None` when all are right.
pub open spec fn first_bad_group(parts: Seq<Seq<char>>, k: nat) -> Option<bool>
    decreases 5 - k,
{
    if k >= 5 || k >= parts.len() {
        None
    } else if utf8_len(parts[k as int]) != uuid_group_len(k as int) {
        Some(true)
    } else if exists|j: int| 0 <= j < parts[k as int].len() && !is_lower_hex(#[trigger] parts[k as int][j]) {
        Some(false)
    } else {
        first_bad_group(parts, k + 1)
    }
}

/// Why a session id is refused: it must be a UUID in lowercase hex,
/// `8-4-4-4-12`, 36 bytes in all.
pub open spec fn session_id_problem(id: Seq<char>) -> Option<Seq<char>> {
    let parts = split_on(id, '-');
    if utf8_len(id) != 36 || parts.len() != 5 {
        Some("Invalid session ID format: "@ + id)
    } else {
        match first_bad_group(parts, 0) {
            Some(true) => Some("Invalid session ID format: "@ + id),
            Some(false) => Some("Invalid session ID format (must be lowercase hex): "@ + id),
            None => None,
        }
    }
}

/// The pieces of `s` between occurrences of `sep`, as strings.
pub fn split_pieces(s: &str, sep: char) -> (v: Vec<String>)
    ensures
        views_of(v@) == split_on(s@, sep),
    decreases s@.len(),
{
    let cs = chars_of(s);
    let n = cs.len();
    match crate::storage::find_first(&cs, sep) {
        None => {
            let mut v: Vec<String> = Vec::new();
            v.push(s.to_string());
            assert(views_of(v@) =~= seq![s@]);
            v
        },
        Some(i) => {
            let head = s.substring_char(0, i).to_string();
            let tail = s.substring_char(i + 1, n);
            assert(head@ =~= s@.take(i as int));
            assert(tail@ =~= s@.skip(i + 1));
            let mut rest = split_pieces(tail, sep);
            let mut v: Vec<String> = Vec::new();
            v.push(head);
            let ghost first = v@;
            v.append(&mut rest);
            assert(views_of(v@) =~= seq![s@.take(i as int)] + split_on(s@.skip(i + 1), sep)) by {
                assert(views_of(first) =~= seq![s@.take(i as int)]);
            }
            v
        },
    }
}

/// Whether every character of `s` is a lowercase hex digit.
fn all_lower_hex(s: &str) -> (b: bool)
    ensures
        b == !(exists|j: int| 0 <= j < s@.len() && !is_lower_hex(#[trigger] s@[j])),
{
    let cs = chars_of(s);
    let mut i: usize = 0;
    while i < cs.len()
        invariant
            cs@ == s@,
            i <= cs.len(),
            forall|j: int| 0 <= j < i ==> is_lower_hex(#[trigger] cs@[j]),
        decreases cs.len() - i,
    {
        let c = cs[i];
        if !(('0' <= c && c <= '9') || ('a' <= c && c <= 'f')) {
            assert(!is_lower_hex(s@[i as int]));
            return false;
        }
        i = i + 1;
    }
    true
}

/// Validate an upload session id (see [`session_id_problem`]); this keeps
/// ids usable as file names.
pub fn validate_session_id(session_id: &str) -> (r: Result<(), CoreError>)
    ensures
        match session_id_problem(session_id@) {
            None => r is Ok,
            Some(m) => r matches Err(CoreError::BadRequest(e)) && e@ == m,
        },
{
    let parts = split_pieces(session_id, '-');
    let ghost pv = views_of(parts@);
    if session_id.len() != 36 || parts.len() != 5 {
        let mut m = "Invalid session ID format: ".to_string();
        m.append(session_id);
        return Err(CoreError::BadRequest(m));
    }
    let mut k: usize = 0;
    while k < 5
        invariant
            parts@.len() == 5,
            pv == views_of(parts@),
            pv == split_on(session_id@, '-'),
            utf8_len(session_id@) == 36,
            k <= 5,
            first_bad_group(pv, 0) == first_bad_group(pv, k as nat),
        decreases 5 - k,
    {
        let expected: usize = if k == 0 {
            8
        } else if k == 4 {
            12
        } else {
            4
        };
        assert(pv[k as int] == parts@[k as int]@);
        assert(expected == uuid_group_len(k as int));
        let part = parts[k].as_str();
        assert(part@ == pv[k as int]);
        if part.len() != expected {
            assert(utf8_len(pv[k as int]) != uuid_group_len(k as int));
            assert(first_bad_group(pv, k as nat) == Some(true));
            let mut m = "Invalid session ID format: ".to_string();
            m.append(session_id);
            return Err(CoreError::BadRequest(m));
        }
        if !all_lower_hex(part) {
            assert(first_bad_group(pv, k as nat) == Some(false));
            let mut m = "Invalid session ID format (must be lowercase hex): ".to_string();
            m.append(session_id);
            return Err(CoreError::BadRequest(m));
        }
        k = k + 1;
    }
    Ok(())
}

// ==================== Manifests and blobs ====================

/// The cache is consulted for a manifest only when it is asked for by a
/// sha256 digest.
pub fn manifest_cached_by_reference(reference: &str) -> (b: bool)
    ensures
        b == has_prefix(reference@, "sha256:"@),
{
    starts_with(reference, "sha256:")
}

/// The digest under which a fetched or pushed manifest is stored: the one
/// the upstream reported, or the SHA-256 of the data when it reported none.
pub fn manifest_digest(upstream_digest: String, data: &[u8]) -> (d: String)
    ensures
        d@ == if upstream_digest@.len() == 0 {
            "sha256:"@ + hex_lower(sha256(data@))
        } else {
            upstream_digest@
        },
{
    if upstream_digest.as_str().is_empty() {
        compute_sha256(data)
    } else {
        upstream_digest
    }
}

/// `repository:reference`, how a missing manifest is named.
pub fn manifest_name(repository: &str, reference: &str) -> (s: String)
    ensures
        s@ == repository@ + ":"@ + reference@,
{
    let mut s = repository.to_string();
    s.append(":");
    s.append(reference);
    s
}

/// The error for a request that no upstream serves.
pub fn no_upstream() -> (e: CoreError)
    ensures
        e matches CoreError::NotFound(m) && m@ == "No upstream configured"@,
{
    CoreError::NotFound("No upstream configured".to_string())
}

/// An upstream failure as the service reports it: a missing object becomes
/// `NotFound` naming `what`; anything else is passed on.
pub fn upstream_failure(e: ProxyError, what: String) -> (r: CoreError)
    ensures
        match e {
            ProxyError::NotFound(_) => r matches CoreError::NotFound(m) && m@ == what@,
            _ => r == CoreError::Proxy(e),
        },
{
    match e {
        ProxyError::NotFound(_) => CoreError::NotFound(what),
        other => CoreError::Proxy(other),
    }
}

// ==================== Serving blobs ====================

/// Where a blob GET is served from.
pub enum BlobSource {
    /// The cache holds the blob, of this many bytes.
    Cache { size: u64 },
    /// The blob is fetched from this upstream and cached as it is served.
    Upstream { name: String },
}

/// How a blob GET is served (cache-aside): a malformed digest is refused
/// first; a cached blob is served from the cache; otherwise the upstream
/// chosen for the repository is asked, and with none the blob is not found.
/// `cached_size` is the size of the cached entry when there is one;
/// `upstream` the name of the upstream chosen for the repository.
pub fn blob_get_plan(digest: &str, cached_size: Option<u64>, upstream: Option<String>) -> (r: Result<
    BlobSource,
    CoreError,
>)
    ensures
        digest_problem(digest@) matches Some(m) ==> (r matches Err(
            CoreError::Storage(crate::storage::StorageError::InvalidDigest(e)),
        ) && e@ == m),
        digest_problem(digest@) is None ==> match cached_size {
            Some(s) => r matches Ok(BlobSource::Cache { size }) && size == s,
            None => match upstream {
                None => r matches Err(CoreError::NotFound(m)) && m@ == "No upstream configured"@,
                Some(n) => r matches Ok(BlobSource::Upstream { name }) && name@ == n@,
            },
        },
{
    match crate::storage::validate_digest(digest) {
        Err(e) => {
            return Err(CoreError::Storage(e));
        },
        Ok(()) => {},
    }
    match cached_size {
        Some(size) => Ok(BlobSource::Cache { size }),
        None => match upstream {
            None => Err(no_upstream()),
            Some(name) => Ok(BlobSource::Upstream { name }),
        },
    }
}

/// What fetching a blob from the upstream gives the client: the stream's
/// announced size, or the failure, with a blob the upstream does not have
/// reported as `NotFound` naming the digest.
pub fn blob_fetch_outcome(fetched: Result<u64, ProxyError>, digest: &str) -> (r: Result<u64, CoreError>)
    ensures
        match fetched {
            Ok(size) => r == Ok::<u64, CoreError>(size),
            Err(ProxyError::NotFound(_)) => r matches Err(CoreError::NotFound(m)) && m@ == digest@,
            Err(e) => r == Err::<u64, CoreError>(CoreError::Proxy(e)),
        },
{
    match fetched {
        Ok(size) => Ok(size),
        Err(e) => Err(upstream_failure(e, digest.to_string())),
    }
}

/// Whether a manifest exists, from the outcome of fetching it: its content
/// type, digest and size when it was fetched, none when it was not found,
/// and any other error passed on.
pub fn manifest_presence(fetched: Result<(usize, String, String), CoreError>) -> (r: Result<
    Option<(String, String, i64)>,
    CoreError,
>)
    requires
        fetched matches Ok((len, _, _)) ==> len <= i64::MAX,
    ensures
        match fetched {
            Ok((len, ct, digest)) => r matches Ok(Some((c, d, n))) && c == ct && d == digest && n == len,
            Err(CoreError::NotFound(_)) => r matches Ok(None),
            Err(e) => r == Err::<Option<(String, String, i64)>, CoreError>(e),
        },
{
    match fetched {
        Ok((len, content_type, digest)) => Ok(Some((content_type, digest, len as i64))),
        Err(CoreError::NotFound(_)) => Ok(None),
        Err(e) => Err(e),
    }
}

/// Whether a blob exists upstream, from the outcome of asking its size: the
/// size when found, none when not found, any other failure passed on.
pub fn blob_presence(asked: Result<u64, ProxyError>) -> (r: Result<Option<i64>, CoreError>)
    ensures
        match asked {
            Ok(size) => r == Ok::<Option<i64>, CoreError>(Some(size as i64)),
            Err(ProxyError::NotFound(_)) => r matches Ok(None),
            Err(e) => r == Err::<Option<i64>, CoreError>(CoreError::Proxy(e)),
        },
{
    match asked {
        Ok(size) => Ok(Some(size as i64)),
        Err(ProxyError::NotFound(_)) => Ok(None),
        Err(e) => Err(CoreError::Proxy(e)),
    }
}

} // verus!
