//! The OCI distribution API at the HTTP boundary: which names, tags and
//! paths are accepted, what each request asks the registry to do, and how
//! each outcome is answered.

use vstd::prelude::*;

use crate::errors::ApiError;
use crate::numfmt::{dec, dec_signed, format_i64, format_u64};
use crate::storage::utf8_len;
use crate::text::{
    chars_of, contains_exec, contains_seq, occurs_at, find_last, has_prefix, last_occurrence, push_char,
    starts_with, opt_view, clone_opt,
};

verus! {

// ==================== Input validation ====================

/// A lowercase ASCII letter or an ASCII digit.
pub open spec fn is_lower_alnum(c: char) -> bool {
    ('a' <= c && c <= 'z') || ('0' <= c && c <= '9')
}

/// An ASCII letter or digit.
pub open spec fn is_ascii_alnum(c: char) -> bool {
    ('a' <= c && c <= 'z') || ('A' <= c && c <= 'Z') || ('0' <= c && c <= '9')
}

/// A separator inside a repository name.
pub open spec fn is_name_separator(c: char) -> bool {
    c == '/' || c == '.' || c == '_' || c == '-'
}

/// A character allowed in a repository name.
pub open spec fn is_name_char(c: char) -> bool {
    is_lower_alnum(c) || is_name_separator(c)
}

/// A character allowed in a tag.
pub open spec fn is_tag_char(c: char) -> bool {
    is_ascii_alnum(c) || c == '_' || c == '.' || c == '-'
}

/// Two separators in a row somewhere in `s`.
pub open spec fn has_adjacent_separators(s: Seq<char>) -> bool {
    exists|k: int| 0 <= k && k + 1 < s.len() && is_name_separator(#[trigger] s[k]) && is_name_separator(s[k + 1])
}

/// The first position of `s` holding a character not allowed in a
/// repository name.
pub open spec fn first_non_name_char(s: Seq<char>) -> Option<int> {
    if exists|i: int| 0 <= i < s.len() && !is_name_char(#[trigger] s[i]) {
        Some(
            choose|i: int|
                0 <= i < s.len() && !is_name_char(#[trigger] s[i]) && forall|j: int|
                    0 <= j < i ==> is_name_char(#[trigger] s[j]),
        )
    } else {
        None
    }
}

/// The first position of `s` holding a character not allowed in a tag.
pub open spec fn first_non_tag_char(s: Seq<char>) -> Option<int> {
    if exists|i: int| 0 <= i < s.len() && !is_tag_char(#[trigger] s[i]) {
        Some(
            choose|i: int|
                0 <= i < s.len() && !is_tag_char(#[trigger] s[i]) && forall|j: int|
                    0 <= j < i ==> is_tag_char(#[trigger] s[j]),
        )
    } else {
        None
    }
}

/// The message of an invalid character `c` found in a `what`.
pub open spec fn invalid_char_message(what: Seq<char>, c: char) -> Seq<char> {
    what + " contains invalid character: '"@ + seq![c] + "'"@
}

/// Why a repository name is refused, or `None` when it is accepted. Names
/// follow `[a-z0-9]+([._-][a-z0-9]+)*(/[a-z0-9]+([._-][a-z0-9]+)*)*` and are
/// at most 256 bytes long.
pub open spec fn repository_name_problem(name: Seq<char>) -> Option<Seq<char>> {
    if name.len() == 0 {
        Some("Repository name cannot be empty"@)
    } else if utf8_len(name) > 256 {
        Some("Repository name exceeds maximum length of 256 characters"@)
    } else if contains_seq(name, ".."@) {
        Some("Repository name contains invalid path traversal sequence"@)
    } else if !is_lower_alnum(name[0]) {
        Some("Repository name must start with lowercase letter or digit"@)
    } else if !is_lower_alnum(name.last()) {
        Some("Repository name must end with lowercase letter or digit"@)
    } else if let Some(k) = first_non_name_char(name) {
        Some(invalid_char_message("Repository name"@, name[k]))
    } else if has_adjacent_separators(name) {
        Some("Repository name contains consecutive special characters"@)
    } else {
        None
    }
}

/// Why a tag is refused, or `None` when it is accepted. Tags follow
/// `[a-zA-Z0-9_][a-zA-Z0-9._-]{0,127}`.
pub open spec fn tag_problem(tag: Seq<char>) -> Option<Seq<char>> {
    if tag.len() == 0 {
        Some("Tag reference cannot be empty"@)
    } else if utf8_len(tag) > 128 {
        Some("Tag reference exceeds maximum length of 128 characters"@)
    } else if contains_seq(tag, ".."@) || tag.contains('/') {
        Some("Tag reference contains invalid characters"@)
    } else if !(is_ascii_alnum(tag[0]) || tag[0] == '_') {
        Some("Tag reference must start with alphanumeric character or underscore"@)
    } else if let Some(k) = first_non_tag_char(tag) {
        Some(invalid_char_message("Tag reference"@, tag[k]))
    } else {
        None
    }
}

/// A reference that names a digest rather than a tag.
pub open spec fn is_digest_reference(reference: Seq<char>) -> bool {
    has_prefix(reference, "sha256:"@) || has_prefix(reference, "sha512:"@)
}

/// Why a manifest reference is refused at the API boundary: digests pass
/// (the registry service checks them), tags must be valid.
pub open spec fn reference_problem(reference: Seq<char>) -> Option<Seq<char>> {
    if is_digest_reference(reference) {
        None
    } else {
        tag_problem(reference)
    }
}

/// Builds `what + " contains invalid character: '" + c + "'"`.
fn invalid_char_text(what: &str, c: char) -> (s: String)
    ensures
        s@ == invalid_char_message(what@, c),
{
    let mut s = what.to_string();
    s.append(" contains invalid character: '");
    push_char(&mut s, c);
    s.append("'");
    s
}

/// The first character of `v` that is not allowed in a repository name.
fn first_bad_name_char(v: &Vec<char>) -> (r: Option<usize>)
    ensures
        match r {
            Some(k) => first_non_name_char(v@) == Some(k as int),
            None => first_non_name_char(v@) is None,
        },
        r matches Some(k) ==> k < v.len(),
{
    let mut i: usize = 0;
    while i < v.len()
        invariant
            i <= v.len(),
            forall|j: int| 0 <= j < i ==> is_name_char(#[trigger] v@[j]),
        decreases v.len() - i,
    {
        let ch = v[i];
        let ok = ('a' <= ch && ch <= 'z') || ('0' <= ch && ch <= '9') || ch == '.' || ch == '_'
            || ch == '-' || ch == '/';
        assert(ok == is_name_char(v@[i as int]));
        if !ok {
            let ghost w = choose|k: int|
                0 <= k < v@.len() && !is_name_char(#[trigger] v@[k]) && forall|j: int|
                    0 <= j < k ==> is_name_char(#[trigger] v@[j]);
            assert(0 <= i < v@.len() && !is_name_char(v@[i as int]) && forall|j: int|
                0 <= j < i ==> is_name_char(#[trigger] v@[j]));
            assert(w == i) by {
                if w < i {
                    assert(is_name_char(v@[w]));
                } else if w > i {
                    assert(is_name_char(v@[i as int]));
                }
            }
            return Some(i);
        }
        i = i + 1;
    }
    None
}

/// The first character of `v` that is not allowed in a tag.
fn first_bad_tag_char(v: &Vec<char>) -> (r: Option<usize>)
    ensures
        match r {
            Some(k) => first_non_tag_char(v@) == Some(k as int),
            None => first_non_tag_char(v@) is None,
        },
        r matches Some(k) ==> k < v.len(),
{
    let mut i: usize = 0;
    while i < v.len()
        invariant
            i <= v.len(),
            forall|j: int| 0 <= j < i ==> is_tag_char(#[trigger] v@[j]),
        decreases v.len() - i,
    {
        let ch = v[i];
        let ok = ('a' <= ch && ch <= 'z') || ('A' <= ch && ch <= 'Z') || ('0' <= ch && ch <= '9')
            || ch == '_' || ch == '.' || ch == '-';
        assert(ok == is_tag_char(v@[i as int]));
        if !ok {
            let ghost w = choose|k: int|
                0 <= k < v@.len() && !is_tag_char(#[trigger] v@[k]) && forall|j: int|
                    0 <= j < k ==> is_tag_char(#[trigger] v@[j]);
            assert(0 <= i < v@.len() && !is_tag_char(v@[i as int]) && forall|j: int|
                0 <= j < i ==> is_tag_char(#[trigger] v@[j]));
            assert(w == i) by {
                if w < i {
                    assert(is_tag_char(v@[w]));
                } else if w > i {
                    assert(is_tag_char(v@[i as int]));
                }
            }
            return Some(i);
        }
        i = i + 1;
    }
    None
}

/// Whether two separators stand next to each other in `v`.
fn adjacent_separators(v: &Vec<char>) -> (b: bool)
    ensures
        b == has_adjacent_separators(v@),
{
    let mut prev_special = false;
    let mut i: usize = 0;
    while i < v.len()
        invariant
            i <= v.len(),
            prev_special == (i > 0 && is_name_separator(v@[i - 1])),
            forall|k: int| 0 <= k && k + 1 < i ==> !(is_name_separator(#[trigger] v@[k]) && is_name_separator(v@[k + 1])),
        decreases v.len() - i,
    {
        let ch = v[i];
        let is_special = ch == '/' || ch == '.' || ch == '_' || ch == '-';
        if is_special && prev_special {
            assert(is_name_separator(v@[i - 1]) && is_name_separator(v@[(i - 1) + 1]));
            return true;
        }
        prev_special = is_special;
        i = i + 1;
    }
    false
}

/// Why `name` is refused as a repository name, as text.
pub fn repository_name_check(name: &str) -> (r: Option<String>)
    ensures
        match repository_name_problem(name@) {
            None => r is None,
            Some(m) => r matches Some(s) && s@ == m,
        },
{
    let v = chars_of(name);
    if v.len() == 0 {
        return Some("Repository name cannot be empty".to_string());
    }
    if name.len() > 256 {
        return Some("Repository name exceeds maximum length of 256 characters".to_string());
    }
    let dots = chars_of("..");
    if contains_exec(&v, &dots) {
        return Some("Repository name contains invalid path traversal sequence".to_string());
    }
    let first = v[0];
    let last = v[v.len() - 1];
    if !(('a' <= first && first <= 'z') || ('0' <= first && first <= '9')) {
        return Some("Repository name must start with lowercase letter or digit".to_string());
    }
    if !(('a' <= last && last <= 'z') || ('0' <= last && last <= '9')) {
        return Some("Repository name must end with lowercase letter or digit".to_string());
    }
    match first_bad_name_char(&v) {
        Some(k) => {
            return Some(invalid_char_text("Repository name", v[k]));
        },
        None => {},
    }
    if adjacent_separators(&v) {
        return Some("Repository name contains consecutive special characters".to_string());
    }
    None
}

/// Why `tag` is refused as a tag, as text.
pub fn tag_reference_check(tag: &str) -> (r: Option<String>)
    ensures
        match tag_problem(tag@) {
            None => r is None,
            Some(m) => r matches Some(s) && s@ == m,
        },
{
    let v = chars_of(tag);
    if v.len() == 0 {
        return Some("Tag reference cannot be empty".to_string());
    }
    if tag.len() > 128 {
        return Some("Tag reference exceeds maximum length of 128 characters".to_string());
    }
    let dots = chars_of("..");
    if contains_exec(&v, &dots) || crate::text::has_char(&v, '/') {
        return Some("Tag reference contains invalid characters".to_string());
    }
    let first = v[0];
    if !(('a' <= first && first <= 'z') || ('A' <= first && first <= 'Z') || ('0' <= first && first
        <= '9') || first == '_') {
        return Some("Tag reference must start with alphanumeric character or underscore".to_string());
    }
    match first_bad_tag_char(&v) {
        Some(k) => Some(invalid_char_text("Tag reference", v[k])),
        None => None,
    }
}

/// Whether `reference` names a digest.
pub fn digest_reference(reference: &str) -> (b: bool)
    ensures
        b == is_digest_reference(reference@),
{
    starts_with(reference, "sha256:") || starts_with(reference, "sha512:")
}

/// Validate a repository name (see [`repository_name_problem`]).
pub fn validate_repository_name(name: &str) -> (r: Result<(), ApiError>)
    ensures
        match repository_name_problem(name@) {
            None => r is Ok,
            Some(m) => r matches Err(ApiError::BadRequest(e)) && e@ == m,
        },
{
    match repository_name_check(name) {
        None => Ok(()),
        Some(m) => Err(ApiError::BadRequest(m)),
    }
}

/// Validate a tag (see [`tag_problem`]).
pub fn validate_tag_reference(tag: &str) -> (r: Result<(), ApiError>)
    ensures
        match tag_problem(tag@) {
            None => r is Ok,
            Some(m) => r matches Err(ApiError::BadRequest(e)) && e@ == m,
        },
{
    match tag_reference_check(tag) {
        None => Ok(()),
        Some(m) => Err(ApiError::BadRequest(m)),
    }
}

/// Validate a manifest reference: a digest passes, a tag must be valid.
pub fn validate_reference(reference: &str) -> (r: Result<(), ApiError>)
    ensures
        match reference_problem(reference@) {
            None => r is Ok,
            Some(m) => r matches Err(ApiError::BadRequest(e)) && e@ == m,
        },
{
    if digest_reference(reference) {
        return Ok(());
    }
    validate_tag_reference(reference)
}

// ==================== Request paths ====================

/// A request of the registry API, as its path names it.
pub enum RegistryRequest {
    /// `<name>/manifests/<reference>`
    Manifest { name: String, reference: String },
    /// `<name>/blobs/<digest>`
    Blob { name: String, digest: String },
    /// `<name>/blobs/uploads/`
    StartUpload { name: String },
    /// `<name>/blobs/uploads/<session_id>`
    Upload { name: String, session_id: String },
}

/// A request of the registry API, over character sequences.
pub enum RequestView {
    Manifest { name: Seq<char>, reference: Seq<char> },
    Blob { name: Seq<char>, digest: Seq<char> },
    StartUpload { name: Seq<char> },
    Upload { name: Seq<char>, session_id: Seq<char> },
}

impl View for RegistryRequest {
    type V = RequestView;

    open spec fn view(&self) -> RequestView {
        match self {
            RegistryRequest::Manifest { name, reference } => RequestView::Manifest {
                name: name@,
                reference: reference@,
            },
            RegistryRequest::Blob { name, digest } => RequestView::Blob { name: name@, digest: digest@ },
            RegistryRequest::StartUpload { name } => RequestView::StartUpload { name: name@ },
            RegistryRequest::Upload { name, session_id } => RequestView::Upload {
                name: name@,
                session_id: session_id@,
            },
        }
    }
}

/// What a path below `/v2/` names. The last `/manifests/` splits a manifest
/// path; failing that, the last `/blobs/uploads/` an upload path (a new
/// upload when nothing follows it); failing that, the last `/blobs/` a blob
/// path. Anything else names nothing.
pub open spec fn request_of_path(path: Seq<char>) -> Option<RequestView> {
    let m = "/manifests/"@;
    let u = "/blobs/uploads/"@;
    let b = "/blobs/"@;
    match last_occurrence(path, m) {
        Some(i) => Some(RequestView::Manifest { name: path.take(i), reference: path.skip(i + m.len()) }),
        None => match last_occurrence(path, u) {
            Some(i) => if i + u.len() == path.len() {
                Some(RequestView::StartUpload { name: path.take(i) })
            } else {
                Some(RequestView::Upload { name: path.take(i), session_id: path.skip(i + u.len()) })
            },
            None => match last_occurrence(path, b) {
                Some(i) => Some(RequestView::Blob { name: path.take(i), digest: path.skip(i + b.len()) }),
                None => None,
            },
        },
    }
}

/// `path[from..to]` as a new string.
fn piece(path: &str, from: usize, to: usize) -> (s: String)
    requires
        from <= to <= path@.len(),
    ensures
        s@ == path@.subrange(from as int, to as int),
{
    path.substring_char(from, to).to_string()
}

/// Splits `path` around the last occurrence of a non-empty `marker`: the
/// text before it and the text after it.
fn split_at_last(path: &str, v: &Vec<char>, marker: &str) -> (r: Option<(String, String)>)
    requires
        v@ == path@,
        marker@.len() > 0,
    ensures
        match last_occurrence(path@, marker@) {
            Some(i) => {
                &&& 0 <= i && i + marker@.len() <= path@.len()
                &&& r matches Some((a, b)) && a@ == path@.take(i) && b@ == path@.skip(i + marker@.len())
            },
            None => r is None,
        },
{
    let m = chars_of(marker);
    match find_last(v, &m) {
        Some(idx) => {
            let n = v.len();
            let before = piece(path, 0, idx);
            let after = piece(path, idx + m.len(), n);
            assert(path@.subrange(0, idx as int) =~= path@.take(idx as int));
            assert(path@.subrange(idx + m.len(), n as int) =~= path@.skip(idx + m.len()));
            Some((before, after))
        },
        None => None,
    }
}

/// Parse a path below `/v2/` into the request it names (see
/// [`request_of_path`]).
pub fn parse_registry_path(path: &str) -> (r: Option<RegistryRequest>)
    ensures
        match r {
            Some(q) => request_of_path(path@) == Some(q@),
            None => request_of_path(path@) is None,
        },
{
    let v = chars_of(path);
    proof {
        assert("/manifests/"@.len() > 0) by {
            reveal_strlit("/manifests/");
        }
        assert("/blobs/uploads/"@.len() > 0) by {
            reveal_strlit("/blobs/uploads/");
        }
        assert("/blobs/"@.len() > 0) by {
            reveal_strlit("/blobs/");
        }
    }
    if let Some((name, reference)) = split_at_last(path, &v, "/manifests/") {
        return Some(RegistryRequest::Manifest { name, reference });
    }
    if let Some((name, rest)) = split_at_last(path, &v, "/blobs/uploads/") {
        let empty = rest.as_str().is_empty();
        if empty {
            return Some(RegistryRequest::StartUpload { name });
        } else {
            return Some(RegistryRequest::Upload { name, session_id: rest });
        }
    }
    if let Some((name, digest)) = split_at_last(path, &v, "/blobs/") {
        return Some(RegistryRequest::Blob { name, digest });
    }
    None
}

// ==================== What a request asks for ====================

/// Query of an upload completion: `?digest=...`.
pub struct UploadCompleteQuery {
    pub digest: Option<String>,
}

/// Query of a cross-repository mount: `?mount=<digest>&from=<repository>`.
pub struct MountQuery {
    pub mount: Option<String>,
    pub from: Option<String>,
}

/// What the registry is asked to do for an accepted request.
pub enum RegistryAction {
    /// Report a manifest's type, digest and size.
    HeadManifest { name: String, reference: String },
    /// Serve a manifest.
    GetManifest { name: String, reference: String },
    /// Report a blob's size.
    HeadBlob { name: String, digest: String },
    /// Serve a blob.
    GetBlob { name: String, digest: String },
    /// Report how far an upload has come.
    UploadStatus { name: String, session_id: String },
    /// Store a manifest from the request body.
    PutManifest { name: String, reference: String },
    /// Finish an upload, first appending the request body when it is not empty.
    CompleteUpload { name: String, session_id: String, digest: String, append_body: bool },
    /// Mount a blob of repository `from` into `name`; start an upload if that fails.
    MountBlob { name: String, digest: String, from: String },
    /// Open an upload session.
    StartUpload { name: String },
    /// Append the request body to an upload.
    AppendUpload { name: String, session_id: String },
}

/// [`RegistryAction`] over character sequences.
pub enum ActionView {
    HeadManifest { name: Seq<char>, reference: Seq<char> },
    GetManifest { name: Seq<char>, reference: Seq<char> },
    HeadBlob { name: Seq<char>, digest: Seq<char> },
    GetBlob { name: Seq<char>, digest: Seq<char> },
    UploadStatus { name: Seq<char>, session_id: Seq<char> },
    PutManifest { name: Seq<char>, reference: Seq<char> },
    CompleteUpload { name: Seq<char>, session_id: Seq<char>, digest: Seq<char>, append_body: bool },
    MountBlob { name: Seq<char>, digest: Seq<char>, from: Seq<char> },
    StartUpload { name: Seq<char> },
    AppendUpload { name: Seq<char>, session_id: Seq<char> },
}

impl View for RegistryAction {
    type V = ActionView;

    open spec fn view(&self) -> ActionView {
        match self {
            RegistryAction::HeadManifest { name, reference } => ActionView::HeadManifest {
                name: name@,
                reference: reference@,
            },
            RegistryAction::GetManifest { name, reference } => ActionView::GetManifest {
                name: name@,
                reference: reference@,
            },
            RegistryAction::HeadBlob { name, digest } => ActionView::HeadBlob { name: name@, digest: digest@ },
            RegistryAction::GetBlob { name, digest } => ActionView::GetBlob { name: name@, digest: digest@ },
            RegistryAction::UploadStatus { name, session_id } => ActionView::UploadStatus {
                name: name@,
                session_id: session_id@,
            },
            RegistryAction::PutManifest { name, reference } => ActionView::PutManifest {
                name: name@,
                reference: reference@,
            },
            RegistryAction::CompleteUpload { name, session_id, digest, append_body } =>
                ActionView::CompleteUpload {
                name: name@,
                session_id: session_id@,
                digest: digest@,
                append_body: *append_body,
            },
            RegistryAction::MountBlob { name, digest, from } => ActionView::MountBlob {
                name: name@,
                digest: digest@,
                from: from@,
            },
            RegistryAction::StartUpload { name } => ActionView::StartUpload { name: name@ },
            RegistryAction::AppendUpload { name, session_id } => ActionView::AppendUpload {
                name: name@,
                session_id: session_id@,
            },
        }
    }
}

/// Why a request is refused before the registry is asked anything.
pub enum Refusal {
    NotFound(Seq<char>),
    BadRequest(Seq<char>),
    MethodNotAllowed,
}

/// `e` is the API error that `f` describes.
pub open spec fn refused_as(e: ApiError, f: Refusal) -> bool {
    match f {
        Refusal::NotFound(m) => e matches ApiError::NotFound(x) && x@ == m,
        Refusal::BadRequest(m) => e matches ApiError::BadRequest(x) && x@ == m,
        Refusal::MethodNotAllowed => e is MethodNotAllowed,
    }
}

/// The result of planning a request agrees with the outcome `o`.
pub open spec fn planned_as(r: Result<RegistryAction, ApiError>, o: Result<ActionView, Refusal>) -> bool {
    match o {
        Ok(a) => r matches Ok(x) && x@ == a,
        Err(f) => r matches Err(e) && refused_as(e, f),
    }
}

/// The repository name is refused, or the outcome is `then`.
pub open spec fn with_name(name: Seq<char>, then: Result<ActionView, Refusal>) -> Result<ActionView, Refusal> {
    match repository_name_problem(name) {
        Some(m) => Err(Refusal::BadRequest(m)),
        None => then,
    }
}

/// What a GET (or, with `head`, a HEAD) request on `path` asks for.
pub open spec fn get_or_head_outcome(head: bool, path: Seq<char>) -> Result<ActionView, Refusal> {
    match request_of_path(path) {
        None => Err(Refusal::NotFound(path)),
        Some(RequestView::Manifest { name, reference }) => with_name(
            name,
            match reference_problem(reference) {
                Some(m) => Err(Refusal::BadRequest(m)),
                None => if head {
                    Ok(ActionView::HeadManifest { name, reference })
                } else {
                    Ok(ActionView::GetManifest { name, reference })
                },
            },
        ),
        Some(RequestView::Blob { name, digest }) => with_name(
            name,
            if head {
                Ok(ActionView::HeadBlob { name, digest })
            } else {
                Ok(ActionView::GetBlob { name, digest })
            },
        ),
        Some(RequestView::Upload { name, session_id }) => with_name(
            name,
            Ok(ActionView::UploadStatus { name, session_id }),
        ),
        Some(RequestView::StartUpload { .. }) => Err(Refusal::MethodNotAllowed),
    }
}

/// What a PUT request on `path` asks for, given the `digest` query
/// parameter and whether the body is empty.
pub open spec fn put_outcome(path: Seq<char>, digest: Option<Seq<char>>, body_empty: bool) -> Result<
    ActionView,
    Refusal,
> {
    match request_of_path(path) {
        None => Err(Refusal::NotFound(path)),
        Some(RequestView::Manifest { name, reference }) => with_name(
            name,
            match reference_problem(reference) {
                Some(m) => Err(Refusal::BadRequest(m)),
                None => Ok(ActionView::PutManifest { name, reference }),
            },
        ),
        Some(RequestView::Upload { name, session_id }) => with_name(
            name,
            match digest {
                None => Err(Refusal::BadRequest("Missing digest parameter"@)),
                Some(d) => Ok(
                    ActionView::CompleteUpload { name, session_id, digest: d, append_body: !body_empty },
                ),
            },
        ),
        _ => Err(Refusal::MethodNotAllowed),
    }
}

/// What a POST request on `path` asks for, given the `mount` and `from`
/// query parameters: a mount when both are present and valid.
pub open spec fn post_outcome(path: Seq<char>, mount: Option<Seq<char>>, from: Option<Seq<char>>) -> Result<
    ActionView,
    Refusal,
> {
    match request_of_path(path) {
        None => Err(Refusal::NotFound(path)),
        Some(RequestView::StartUpload { name }) => with_name(
            name,
            match (mount, from) {
                (Some(d), Some(f)) => match crate::storage::digest_problem(d) {
                    Some(m) => Err(Refusal::BadRequest("Invalid mount digest: "@ + ("Invalid digest: "@ + m))),
                    None => with_name(f, Ok(ActionView::MountBlob { name, digest: d, from: f })),
                },
                _ => Ok(ActionView::StartUpload { name }),
            },
        ),
        _ => Err(Refusal::MethodNotAllowed),
    }
}

/// What a PATCH request on `path` asks for.
pub open spec fn patch_outcome(path: Seq<char>) -> Result<ActionView, Refusal> {
    match request_of_path(path) {
        None => Err(Refusal::NotFound(path)),
        Some(RequestView::Upload { name, session_id }) => with_name(
            name,
            Ok(ActionView::AppendUpload { name, session_id }),
        ),
        _ => Err(Refusal::MethodNotAllowed),
    }
}

/// Plan a GET (or, with `head`, a HEAD) request on `path`.
#[verifier::spinoff_prover]
#[verifier::rlimit(30)]
pub fn plan_get_or_head(head: bool, path: &str) -> (r: Result<RegistryAction, ApiError>)
    ensures
        planned_as(r, get_or_head_outcome(head, path@)),
{
    let req = match parse_registry_path(path) {
        Some(q) => q,
        None => {
            return Err(ApiError::NotFound(path.to_string()));
        },
    };
    match req {
        RegistryRequest::Manifest { name, reference } => {
            validate_repository_name(name.as_str())?;
            validate_reference(reference.as_str())?;
            if head {
                Ok(RegistryAction::HeadManifest { name, reference })
            } else {
                Ok(RegistryAction::GetManifest { name, reference })
            }
        },
        RegistryRequest::Blob { name, digest } => {
            validate_repository_name(name.as_str())?;
            if head {
                Ok(RegistryAction::HeadBlob { name, digest })
            } else {
                Ok(RegistryAction::GetBlob { name, digest })
            }
        },
        RegistryRequest::Upload { name, session_id } => {
            validate_repository_name(name.as_str())?;
            Ok(RegistryAction::UploadStatus { name, session_id })
        },
        RegistryRequest::StartUpload { .. } => Err(ApiError::MethodNotAllowed),
    }
}

/// Plan a PUT request on `path`.
#[verifier::spinoff_prover]
#[verifier::rlimit(30)]
pub fn plan_put(path: &str, query: &UploadCompleteQuery, body_empty: bool) -> (r: Result<
    RegistryAction,
    ApiError,
>)
    ensures
        planned_as(r, put_outcome(path@, opt_view(query.digest), body_empty)),
{
    let req = match parse_registry_path(path) {
        Some(q) => q,
        None => {
            return Err(ApiError::NotFound(path.to_string()));
        },
    };
    match req {
        RegistryRequest::Manifest { name, reference } => {
            validate_repository_name(name.as_str())?;
            validate_reference(reference.as_str())?;
            Ok(RegistryAction::PutManifest { name, reference })
        },
        RegistryRequest::Upload { name, session_id } => {
            validate_repository_name(name.as_str())?;
            match clone_opt(&query.digest) {
                None => Err(ApiError::BadRequest("Missing digest parameter".to_string())),
                Some(digest) => Ok(
                    RegistryAction::CompleteUpload {
                        name,
                        session_id,
                        digest,
                        append_body: !body_empty,
                    },
                ),
            }
        },
        _ => Err(ApiError::MethodNotAllowed),
    }
}

/// Plan a POST request on `path`.
#[verifier::spinoff_prover]
#[verifier::rlimit(30)]
pub fn plan_post(path: &str, query: &MountQuery) -> (r: Result<RegistryAction, ApiError>)
    ensures
        planned_as(r, post_outcome(path@, opt_view(query.mount), opt_view(query.from))),
{
    let req = match parse_registry_path(path) {
        Some(q) => q,
        None => {
            return Err(ApiError::NotFound(path.to_string()));
        },
    };
    match req {
        RegistryRequest::StartUpload { name } => {
            validate_repository_name(name.as_str())?;
            match (clone_opt(&query.mount), clone_opt(&query.from)) {
                (Some(digest), Some(from)) => {
                    match crate::storage::validate_digest(digest.as_str()) {
                        Ok(()) => {},
                        Err(e) => {
                            let mut m = "Invalid mount digest: ".to_string();
                            let text = e.message();
                            m.append(text.as_str());
                            return Err(ApiError::BadRequest(m));
                        },
                    }
                    validate_repository_name(from.as_str())?;
                    Ok(RegistryAction::MountBlob { name, digest, from })
                },
                _ => Ok(RegistryAction::StartUpload { name }),
            }
        },
        _ => Err(ApiError::MethodNotAllowed),
    }
}

/// Plan a PATCH request on `path`.
#[verifier::spinoff_prover]
#[verifier::rlimit(30)]
pub fn plan_patch(path: &str) -> (r: Result<RegistryAction, ApiError>)
    ensures
        planned_as(r, patch_outcome(path@)),
{
    let req = match parse_registry_path(path) {
        Some(q) => q,
        None => {
            return Err(ApiError::NotFound(path.to_string()));
        },
    };
    match req {
        RegistryRequest::Upload { name, session_id } => {
            validate_repository_name(name.as_str())?;
            Ok(RegistryAction::AppendUpload { name, session_id })
        },
        _ => Err(ApiError::MethodNotAllowed),
    }
}

// ==================== How outcomes are answered ====================

/// How a request is answered: a status and headers. A body, where there is
/// one, is the data that the registry returned.
pub struct ResponsePlan {
    pub status: u16,
    pub headers: Vec<(String, String)>,
}

/// Headers over character sequences.
pub open spec fn header_view(h: Seq<(String, String)>) -> Seq<(Seq<char>, Seq<char>)> {
    h.map_values(|p: (String, String)| (p.0@, p.1@))
}

/// A header with the given name and value.
fn header(name: &str, value: String) -> (h: (String, String))
    ensures
        h.0@ == name@,
        h.1@ == value@,
{
    (name.to_string(), value)
}

/// `/v2/<name><kind><id>`.
pub open spec fn location(name: Seq<char>, kind: Seq<char>, id: Seq<char>) -> Seq<char> {
    "/v2/"@ + name + kind + id
}

fn location_text(name: &str, kind: &str, id: &str) -> (s: String)
    ensures
        s@ == location(name@, kind@, id@),
{
    let mut s = "/v2/".to_string();
    s.append(name);
    s.append(kind);
    s.append(id);
    s
}

/// `0-<n>`.
fn range_text(n: i64) -> (s: String)
    ensures
        s@ == "0-"@ + dec_signed(n as int),
{
    let mut s = "0-".to_string();
    let d = format_i64(n);
    s.append(d.as_str());
    s
}

/// Answer to HEAD on a manifest that exists.
pub fn manifest_head_response(content_type: &str, digest: &str, size: u64) -> (r: ResponsePlan)
    ensures
        r.status == 200,
        header_view(r.headers@) == seq![
            ("content-type"@, content_type@),
            ("content-length"@, dec(size as nat)),
            ("docker-content-digest"@, digest@),
        ],
{
    let mut headers: Vec<(String, String)> = Vec::new();
    headers.push(header("content-type", content_type.to_string()));
    headers.push(header("content-length", format_u64(size)));
    headers.push(header("docker-content-digest", digest.to_string()));
    assert(header_view(headers@) =~= seq![
        ("content-type"@, content_type@),
        ("content-length"@, dec(size as nat)),
        ("docker-content-digest"@, digest@),
    ]);
    ResponsePlan { status: 200, headers }
}

/// Answer to GET on a manifest; the body is the manifest.
pub fn manifest_get_response(content_type: &str, digest: &str) -> (r: ResponsePlan)
    ensures
        r.status == 200,
        header_view(r.headers@) == seq![("content-type"@, content_type@), ("docker-content-digest"@, digest@)],
{
    let mut headers: Vec<(String, String)> = Vec::new();
    headers.push(header("content-type", content_type.to_string()));
    headers.push(header("docker-content-digest", digest.to_string()));
    assert(header_view(headers@) =~= seq![
        ("content-type"@, content_type@),
        ("docker-content-digest"@, digest@),
    ]);
    ResponsePlan { status: 200, headers }
}

/// Answer to HEAD on a blob that exists.
pub fn blob_head_response(digest: &str, size: u64) -> (r: ResponsePlan)
    ensures
        r.status == 200,
        header_view(r.headers@) == seq![
            ("content-type"@, "application/octet-stream"@),
            ("content-length"@, dec(size as nat)),
            ("docker-content-digest"@, digest@),
        ],
{
    let mut headers: Vec<(String, String)> = Vec::new();
    headers.push(header("content-type", "application/octet-stream".to_string()));
    headers.push(header("content-length", format_u64(size)));
    headers.push(header("docker-content-digest", digest.to_string()));
    assert(header_view(headers@) =~= seq![
        ("content-type"@, "application/octet-stream"@),
        ("content-length"@, dec(size as nat)),
        ("docker-content-digest"@, digest@),
    ]);
    ResponsePlan { status: 200, headers }
}

/// How a blob GET is served.
pub enum BlobDelivery {
    /// A temporary redirect to this presigned URL.
    Redirect(String),
    /// The blob streamed from the registry.
    Stream,
}

/// Whether a blob GET asks storage for a presigned URL: only when
/// redirects are enabled and the blob is in the cache; a failed check of
/// the cache counts as absent.
pub fn wants_presigned_url(enable_presigned_redirects: bool, cached: Result<bool, crate::storage::StorageError>) -> (b:
    bool)
    ensures
        b == (enable_presigned_redirects && cached matches Ok(true)),
{
    if !enable_presigned_redirects {
        return false;
    }
    match cached {
        Ok(c) => c,
        Err(_) => false,
    }
}

/// How a blob GET is served once storage has answered for a presigned URL:
/// a URL is redirected to; when the backend makes none, or making one
/// failed, the blob is streamed.
pub fn blob_delivery(presigned: Result<Option<String>, crate::storage::StorageError>) -> (d: BlobDelivery)
    ensures
        match presigned {
            Ok(Some(u)) => d matches BlobDelivery::Redirect(x) && x@ == u@,
            _ => d is Stream,
        },
{
    match presigned {
        Ok(Some(u)) => BlobDelivery::Redirect(u),
        _ => BlobDelivery::Stream,
    }
}

/// Answer to GET on a blob that storage can hand out at a presigned URL:
/// a temporary redirect there.
pub fn blob_redirect_response(url: &str, digest: &str) -> (r: ResponsePlan)
    ensures
        r.status == 307,
        header_view(r.headers@) == seq![
            ("location"@, url@),
            ("docker-content-digest"@, digest@),
            ("cache-control"@, "no-cache"@),
        ],
{
    let mut headers: Vec<(String, String)> = Vec::new();
    headers.push(header("location", url.to_string()));
    headers.push(header("docker-content-digest", digest.to_string()));
    headers.push(header("cache-control", "no-cache".to_string()));
    assert(header_view(headers@) =~= seq![
        ("location"@, url@),
        ("docker-content-digest"@, digest@),
        ("cache-control"@, "no-cache"@),
    ]);
    ResponsePlan { status: 307, headers }
}

/// Answer to GET on a blob that is streamed; the body is the blob. The
/// length is given only when it is known (not 0), else the transfer is
/// chunked.
pub fn blob_stream_response(digest: &str, size: u64) -> (r: ResponsePlan)
    ensures
        r.status == 200,
        header_view(r.headers@) == if size > 0 {
            seq![
                ("content-type"@, "application/octet-stream"@),
                ("content-length"@, dec(size as nat)),
                ("docker-content-digest"@, digest@),
            ]
        } else {
            seq![("content-type"@, "application/octet-stream"@), ("docker-content-digest"@, digest@)]
        },
{
    let mut headers: Vec<(String, String)> = Vec::new();
    headers.push(header("content-type", "application/octet-stream".to_string()));
    if size > 0 {
        headers.push(header("content-length", format_u64(size)));
    }
    headers.push(header("docker-content-digest", digest.to_string()));
    if size > 0 {
        assert(header_view(headers@) =~= seq![
            ("content-type"@, "application/octet-stream"@),
            ("content-length"@, dec(size as nat)),
            ("docker-content-digest"@, digest@),
        ]);
    } else {
        assert(header_view(headers@) =~= seq![
            ("content-type"@, "application/octet-stream"@),
            ("docker-content-digest"@, digest@),
        ]);
    }
    ResponsePlan { status: 200, headers }
}

/// Answer to GET on an upload session: where it is, and the bytes received.
pub fn upload_status_response(name: &str, session_id: &str, bytes_received: i64) -> (r: ResponsePlan)
    ensures
        r.status == 204,
        header_view(r.headers@) == seq![
            ("location"@, location(name@, "/blobs/uploads/"@, session_id@)),
            ("docker-upload-uuid"@, session_id@),
            ("range"@, "0-"@ + dec_signed(bytes_received as int)),
        ],
{
    let mut headers: Vec<(String, String)> = Vec::new();
    headers.push(header("location", location_text(name, "/blobs/uploads/", session_id)));
    headers.push(header("docker-upload-uuid", session_id.to_string()));
    headers.push(header("range", range_text(bytes_received)));
    assert(header_view(headers@) =~= seq![
        ("location"@, location(name@, "/blobs/uploads/"@, session_id@)),
        ("docker-upload-uuid"@, session_id@),
        ("range"@, "0-"@ + dec_signed(bytes_received as int)),
    ]);
    ResponsePlan { status: 204, headers }
}

/// Answer to a stored manifest.
pub fn manifest_created_response(name: &str, digest: &str) -> (r: ResponsePlan)
    ensures
        r.status == 201,
        header_view(r.headers@) == seq![
            ("location"@, location(name@, "/manifests/"@, digest@)),
            ("docker-content-digest"@, digest@),
        ],
{
    let mut headers: Vec<(String, String)> = Vec::new();
    headers.push(header("location", location_text(name, "/manifests/", digest)));
    headers.push(header("docker-content-digest", digest.to_string()));
    assert(header_view(headers@) =~= seq![
        ("location"@, location(name@, "/manifests/"@, digest@)),
        ("docker-content-digest"@, digest@),
    ]);
    ResponsePlan { status: 201, headers }
}

/// Answer to a completed upload or a successful mount.
pub fn blob_created_response(name: &str, digest: &str) -> (r: ResponsePlan)
    ensures
        r.status == 201,
        header_view(r.headers@) == seq![
            ("location"@, location(name@, "/blobs/"@, digest@)),
            ("docker-content-digest"@, digest@),
        ],
{
    let mut headers: Vec<(String, String)> = Vec::new();
    headers.push(header("location", location_text(name, "/blobs/", digest)));
    headers.push(header("docker-content-digest", digest.to_string()));
    assert(header_view(headers@) =~= seq![
        ("location"@, location(name@, "/blobs/"@, digest@)),
        ("docker-content-digest"@, digest@),
    ]);
    ResponsePlan { status: 201, headers }
}

/// Answer to a new upload session.
pub fn upload_started_response(name: &str, session_id: &str) -> (r: ResponsePlan)
    ensures
        r.status == 202,
        header_view(r.headers@) == seq![
            ("location"@, location(name@, "/blobs/uploads/"@, session_id@)),
            ("docker-upload-uuid"@, session_id@),
            ("range"@, "0-0"@),
        ],
{
    let mut headers: Vec<(String, String)> = Vec::new();
    headers.push(header("location", location_text(name, "/blobs/uploads/", session_id)));
    headers.push(header("docker-upload-uuid", session_id.to_string()));
    headers.push(header("range", "0-0".to_string()));
    assert(header_view(headers@) =~= seq![
        ("location"@, location(name@, "/blobs/uploads/"@, session_id@)),
        ("docker-upload-uuid"@, session_id@),
        ("range"@, "0-0"@),
    ]);
    ResponsePlan { status: 202, headers }
}

/// Answer to a chunk appended to an upload, which now holds `new_size`
/// bytes: the range received is `0-<new_size - 1>`.
pub fn upload_progress_response(name: &str, session_id: &str, new_size: i64) -> (r: ResponsePlan)
    requires
        new_size > i64::MIN,
    ensures
        r.status == 202,
        header_view(r.headers@) == seq![
            ("location"@, location(name@, "/blobs/uploads/"@, session_id@)),
            ("docker-upload-uuid"@, session_id@),
            ("range"@, "0-"@ + dec_signed(new_size - 1)),
        ],
{
    let mut headers: Vec<(String, String)> = Vec::new();
    headers.push(header("location", location_text(name, "/blobs/uploads/", session_id)));
    headers.push(header("docker-upload-uuid", session_id.to_string()));
    headers.push(header("range", range_text(new_size - 1)));
    assert(header_view(headers@) =~= seq![
        ("location"@, location(name@, "/blobs/uploads/"@, session_id@)),
        ("docker-upload-uuid"@, session_id@),
        ("range"@, "0-"@ + dec_signed(new_size - 1)),
    ]);
    ResponsePlan { status: 202, headers }
}

// ==================== Laws of tags ====================

/// A character of the tag alphabet `[A-Za-z0-9_.-]`.
pub open spec fn in_tag_alphabet(c: char) -> bool {
    ('a' <= c && c <= 'z') || ('A' <= c && c <= 'Z') || ('0' <= c && c <= '9') || c == '_' || c == '.' || c
        == '-'
}

/// A tag is accepted exactly when it follows `[A-Za-z0-9_][A-Za-z0-9._-]*`,
/// holds no `..`, and (for the length) has 1 to 128 characters: letters
/// of either case, digits, `_`, `.` and `-` are all allowed.
pub proof fn lemma_tag_alphabet(tag: Seq<char>)
    ensures
        ({
            &&& 1 <= tag.len() <= 128
            &&& forall|i: int| 0 <= i < tag.len() ==> in_tag_alphabet(#[trigger] tag[i])
            &&& tag[0] != '.' && tag[0] != '-'
            &&& forall|i: int| 0 <= i && i + 1 < tag.len() ==> !(#[trigger] tag[i] == '.' && tag[i + 1] == '.')
        }) ==> tag_problem(tag) is None,
        tag_problem(tag) is None ==> {
            &&& tag.len() >= 1
            &&& forall|i: int| 0 <= i < tag.len() ==> in_tag_alphabet(#[trigger] tag[i])
            &&& tag[0] != '.' && tag[0] != '-'
            &&& forall|i: int| 0 <= i && i + 1 < tag.len() ==> !(#[trigger] tag[i] == '.' && tag[i + 1] == '.')
        },
{
    reveal_strlit("..");
    assert(".."@.len() == 2 && ".."@[0] == '.' && ".."@[1] == '.');
    if exists|i: int| 0 <= i && i + 1 < tag.len() && #[trigger] tag[i] == '.' && tag[i + 1] == '.' {
        let i = choose|i: int| 0 <= i && i + 1 < tag.len() && #[trigger] tag[i] == '.' && tag[i + 1] == '.';
        assert(tag.subrange(i, i + 2) =~= ".."@);
        assert(occurs_at(tag, i, ".."@));
        assert(contains_seq(tag, ".."@));
    }
    if contains_seq(tag, ".."@) {
        let p = choose|p: int| occurs_at(tag, p, ".."@);
        assert(tag.subrange(p, p + 2)[0] == tag[p]);
        assert(tag.subrange(p, p + 2)[1] == tag[p + 1]);
    }
    if forall|i: int| 0 <= i < tag.len() ==> in_tag_alphabet(#[trigger] tag[i]) {
        assert forall|i: int| 0 <= i < tag.len() implies is_tag_char(#[trigger] tag[i]) by {
            assert(in_tag_alphabet(tag[i]));
        }
        assert(!tag.contains('/')) by {
            if tag.contains('/') {
                let k = choose|k: int| 0 <= k < tag.len() && tag[k] == '/';
                assert(in_tag_alphabet(tag[k]));
            }
        }
        assert(vstd::utf8::is_ascii_chars(tag)) by {
            assert forall|i: int| 0 <= i < tag.len() implies '\0' <= #[trigger] tag[i] <= '\u{7f}' by {
                assert(in_tag_alphabet(tag[i]));
            }
        }
        vstd::utf8::is_ascii_chars_encode_utf8(tag);
    }
    if tag_problem(tag) is None {
        assert forall|i: int| 0 <= i < tag.len() implies in_tag_alphabet(#[trigger] tag[i]) by {
            assert(is_tag_char(tag[i]));
        }
    }
}

/// A character a repository name may hold: `[a-z0-9./_-]`.
pub open spec fn in_name_alphabet(c: char) -> bool {
    ('a' <= c && c <= 'z') || ('0' <= c && c <= '9') || c == '/' || c == '.' || c == '_' || c == '-'
}

/// A repository name is accepted exactly when it has 1 to 256 characters
/// of `[a-z0-9./_-]`, starts and ends with a lowercase letter or digit, and
/// never has two of `/ . _ -` in a row: the grammar
/// `[a-z0-9]+([._-][a-z0-9]+)*(/[a-z0-9]+([._-][a-z0-9]+)*)*`. Capital
/// letters are refused.
pub proof fn lemma_repository_name_grammar(name: Seq<char>)
    ensures
        ({
            &&& 1 <= name.len() <= 256
            &&& forall|i: int| 0 <= i < name.len() ==> in_name_alphabet(#[trigger] name[i])
            &&& ('a' <= name[0] && name[0] <= 'z') || ('0' <= name[0] && name[0] <= '9')
            &&& ('a' <= name.last() && name.last() <= 'z') || ('0' <= name.last() && name.last() <= '9')
            &&& forall|i: int|
                0 <= i && i + 1 < name.len() ==> !((#[trigger] name[i] == '/' || name[i] == '.' || name[i] == '_'
                    || name[i] == '-') && (name[i + 1] == '/' || name[i + 1] == '.' || name[i + 1] == '_' || name[i
                    + 1] == '-'))
        }) ==> repository_name_problem(name) is None,
        repository_name_problem(name) is None ==> {
            &&& name.len() >= 1
            &&& forall|i: int| 0 <= i < name.len() ==> in_name_alphabet(#[trigger] name[i])
            &&& ('a' <= name[0] && name[0] <= 'z') || ('0' <= name[0] && name[0] <= '9')
            &&& ('a' <= name.last() && name.last() <= 'z') || ('0' <= name.last() && name.last() <= '9')
            &&& forall|i: int|
                0 <= i && i + 1 < name.len() ==> !((#[trigger] name[i] == '/' || name[i] == '.' || name[i] == '_'
                    || name[i] == '-') && (name[i + 1] == '/' || name[i + 1] == '.' || name[i + 1] == '_' || name[i
                    + 1] == '-'))
        },
{
    reveal_strlit("..");
    assert(".."@.len() == 2 && ".."@[0] == '.' && ".."@[1] == '.');
    if contains_seq(name, ".."@) {
        let p = choose|p: int| occurs_at(name, p, ".."@);
        assert(name.subrange(p, p + 2)[0] == name[p]);
        assert(name.subrange(p, p + 2)[1] == name[p + 1]);
        assert(is_name_separator(name[p]) && is_name_separator(name[p + 1]));
    }
    if has_adjacent_separators(name) {
        let k = choose|k: int|
            0 <= k && k + 1 < name.len() && is_name_separator(#[trigger] name[k]) && is_name_separator(name[k + 1]);
        assert(is_name_separator(name[k]) && is_name_separator(name[k + 1]));
    }
    if forall|i: int| 0 <= i < name.len() ==> in_name_alphabet(#[trigger] name[i]) {
        assert forall|i: int| 0 <= i < name.len() implies is_name_char(#[trigger] name[i]) by {
            assert(in_name_alphabet(name[i]));
        }
        assert(vstd::utf8::is_ascii_chars(name)) by {
            assert forall|i: int| 0 <= i < name.len() implies '\0' <= #[trigger] name[i] <= '\u{7f}' by {
                assert(in_name_alphabet(name[i]));
            }
        }
        vstd::utf8::is_ascii_chars_encode_utf8(name);
    }
    if repository_name_problem(name) is None {
        assert forall|i: int| 0 <= i < name.len() implies in_name_alphabet(#[trigger] name[i]) by {
            assert(is_name_char(name[i]));
        }
        assert forall|i: int| 0 <= i && i + 1 < name.len() implies !((#[trigger] name[i] == '/' || name[i] == '.'
            || name[i] == '_' || name[i] == '-') && (name[i + 1] == '/' || name[i + 1] == '.' || name[i + 1] == '_'
            || name[i + 1] == '-')) by {
            if is_name_separator(name[i]) && is_name_separator(name[i + 1]) {
                assert(has_adjacent_separators(name));
            }
        }
    }
}

// ==================== Laws of locations ====================

/// A marker that ends with `/`, followed by text without `/`, occurs last
/// where it was put.
proof fn lemma_last_marker(head: Seq<char>, lit: Seq<char>, tail: Seq<char>)
    requires
        lit.len() > 0,
        lit.last() == '/',
        !tail.contains('/'),
    ensures
        last_occurrence(head + lit + tail, lit) == Some(head.len() as int),
{
    let s = head + lit + tail;
    let n = head.len() as int;
    let l = lit.len() as int;
    assert(s.subrange(n, n + l) =~= lit);
    assert forall|q: int| crate::text::occurs_at(s, q, lit) implies q <= n by {
        if q > n {
            assert(s.subrange(q, q + l)[l - 1] == lit[l - 1]);
            assert(s[q + l - 1] == tail[q + l - 1 - n - l]);
            assert(tail.contains('/'));
        }
    }
    let w = choose|p: int|
        crate::text::occurs_at(s, p, lit) && forall|q: int| crate::text::occurs_at(s, q, lit) ==> q <= p;
    assert(crate::text::occurs_at(s, n, lit) && forall|q: int| crate::text::occurs_at(s, q, lit) ==> q <= n);
    assert(w <= n && n <= w);
}

/// A path whose last `/manifests/` is at `i` names a manifest.
proof fn lemma_manifest_request(s: Seq<char>, i: int)
    requires
        last_occurrence(s, "/manifests/"@) == Some(i),
    ensures
        request_of_path(s) == Some(RequestView::Manifest { name: s.take(i), reference: s.skip(i + 11) }),
{
    reveal_strlit("/manifests/");
}

/// A path without `/manifests/` whose last `/blobs/uploads/` is at `i`,
/// with something after it, names an upload.
proof fn lemma_upload_request(s: Seq<char>, i: int)
    requires
        last_occurrence(s, "/manifests/"@) is None,
        last_occurrence(s, "/blobs/uploads/"@) == Some(i),
        i + 15 < s.len(),
    ensures
        request_of_path(s) == Some(RequestView::Upload { name: s.take(i), session_id: s.skip(i + 15) }),
{
    reveal_strlit("/blobs/uploads/");
}

/// `/manifests/` does not occur at `p` in an upload path when none occurs
/// in the repository name followed by `/` and the session id holds no `/`.
proof fn lemma_no_manifest_marker_at(name: Seq<char>, session_id: Seq<char>, p: int)
    requires
        !contains_seq(name + "/"@, "/manifests/"@),
        !session_id.contains('/'),
    ensures
        !crate::text::occurs_at(name + "/blobs/uploads/"@ + session_id, p, "/manifests/"@),
{
    reveal_strlit("/blobs/uploads/");
    reveal_strlit("/manifests/");
    reveal_strlit("/");
    let m = "/manifests/"@;
    let u = "/blobs/uploads/"@;
    let n = name.len() as int;
    let s = name + u + session_id;
    if crate::text::occurs_at(s, p, m) {
        assert(m.len() == 11);
        let w = s.subrange(p, p + 11);
        assert(w == m);
        assert(s[p + 10] == w[10]);
        assert(m[10] == '/');
        if p + 10 >= n + 15 {
            assert(s[p + 10] == session_id[p + 10 - n - 15]);
            assert(session_id.contains('/'));
        } else if p + 11 <= n + 1 {
            let t = name + "/"@;
            assert(t.subrange(p, p + 11) =~= w);
            assert(crate::text::occurs_at(t, p, m));
        } else if p >= n {
            assert(s[p + 1] == w[1]);
            assert(m[1] == 'm');
            assert(s[p] == u[p - n]);
            assert(s[p + 1] == u[p - n + 1]);
            assert(u[0] == '/' && u[1] == 'b' && u[2] == 'l' && u[3] == 'o' && u[4] == 'b');
        } else {
            let k = n - p;
            assert(1 <= k < 10);
            assert(s[p + k] == w[k]);
            assert(s[n] == u[0]);
            assert(u[0] == '/');
            assert(m[1] != '/' && m[2] != '/' && m[3] != '/' && m[4] != '/' && m[5] != '/');
            assert(m[6] != '/' && m[7] != '/' && m[8] != '/' && m[9] != '/');
        }
    }
}

/// No `/manifests/` occurs in an upload path when none occurs in the
/// repository name followed by `/` and the session id holds no `/`.
proof fn lemma_upload_path_has_no_manifest_marker(name: Seq<char>, session_id: Seq<char>)
    requires
        !contains_seq(name + "/"@, "/manifests/"@),
        !session_id.contains('/'),
    ensures
        last_occurrence(name + "/blobs/uploads/"@ + session_id, "/manifests/"@) is None,
{
    assert forall|p: int| !crate::text::occurs_at(name + "/blobs/uploads/"@ + session_id, p, "/manifests/"@) by {
        lemma_no_manifest_marker_at(name, session_id, p);
    }
}

/// A pushed manifest's location names that manifest again: read below
/// `/v2/`, it is the manifest of that repository with that reference, as
/// long as the reference holds no `/` (a digest never does).
pub proof fn lemma_manifest_location_round_trip(name: Seq<char>, reference: Seq<char>)
    requires
        !reference.contains('/'),
    ensures
        request_of_path(location(name, "/manifests/"@, reference).skip(4)) == Some(
            RequestView::Manifest { name, reference },
        ),
{
    reveal_strlit("/v2/");
    reveal_strlit("/manifests/");
    let m = "/manifests/"@;
    let s = name + m + reference;
    assert(location(name, m, reference).skip(4) =~= s);
    lemma_last_marker(name, m, reference);
    lemma_manifest_request(s, name.len() as int);
    assert(s.take(name.len() as int) =~= name);
    assert(s.skip(name.len() + 11int) =~= reference);
}

/// An upload's location names that upload again: read below `/v2/`, it is
/// the upload of that repository and session, as long as the session id is
/// not empty and holds no `/` (a session id never does), and the repository
/// name followed by `/` holds no `/manifests/`.
pub proof fn lemma_upload_location_round_trip(name: Seq<char>, session_id: Seq<char>)
    requires
        !contains_seq(name + "/"@, "/manifests/"@),
        session_id.len() > 0,
        !session_id.contains('/'),
    ensures
        request_of_path(location(name, "/blobs/uploads/"@, session_id).skip(4)) == Some(
            RequestView::Upload { name, session_id },
        ),
{
    reveal_strlit("/v2/");
    reveal_strlit("/blobs/uploads/");
    let u = "/blobs/uploads/"@;
    let s = name + u + session_id;
    assert(location(name, u, session_id).skip(4) =~= s);
    lemma_upload_path_has_no_manifest_marker(name, session_id);
    lemma_last_marker(name, u, session_id);
    lemma_upload_request(s, name.len() as int);
    assert(s.take(name.len() as int) =~= name);
    assert(s.skip(name.len() + 15int) =~= session_id);
}

} // verus!
