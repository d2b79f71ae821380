//! The upstream client's decisions: where each request goes, how a bearer
//! challenge becomes a token request, and how upstream answers are read.

use vstd::prelude::*;

use crate::auth::{all_digits, digits_value, has_sign, int_value, is_digit, unsigned_part};
use crate::errors::ProxyError;
use crate::storage::first_index_of;
use crate::text::{chars_of, has_prefix, join, starts_with, views_of};

verus! {

/// Upstream client configuration.
pub struct HarborClientConfig {
    /// Base URL of the upstream registry.
    pub url: String,
    /// Registry (project) name.
    pub registry: String,
    pub username: Option<String>,
    pub password: Option<String>,
    /// Skip TLS certificate verification.
    pub skip_tls_verify: bool,
}

// ==================== Request URLs ====================

/// `<url>/v2/`: the registry's version check, used as a ping.
pub fn ping_url(config: &HarborClientConfig) -> (u: String)
    ensures
        u@ == config.url@ + "/v2/"@,
{
    let mut u = config.url.clone();
    u.append("/v2/");
    u
}

/// `<url>/v2/<registry>/<repository>/<kind>/<id>`.
pub open spec fn object_url(
    config: HarborClientConfig,
    repository: Seq<char>,
    kind: Seq<char>,
    id: Seq<char>,
) -> Seq<char> {
    config.url@ + "/v2/"@ + config.registry@ + "/"@ + repository + "/"@ + kind + "/"@ + id
}

fn object_url_text(config: &HarborClientConfig, repository: &str, kind: &str, id: &str) -> (u: String)
    ensures
        u@ == object_url(*config, repository@, kind@, id@),
{
    let mut u = config.url.clone();
    u.append("/v2/");
    u.append(config.registry.as_str());
    u.append("/");
    u.append(repository);
    u.append("/");
    u.append(kind);
    u.append("/");
    u.append(id);
    u
}

/// Where a manifest is fetched or pushed.
pub fn manifest_url(config: &HarborClientConfig, repository: &str, reference: &str) -> (u: String)
    ensures
        u@ == object_url(*config, repository@, "manifests"@, reference@),
{
    object_url_text(config, repository, "manifests", reference)
}

/// Where a blob is fetched or checked.
pub fn blob_url(config: &HarborClientConfig, repository: &str, digest: &str) -> (u: String)
    ensures
        u@ == object_url(*config, repository@, "blobs"@, digest@),
{
    object_url_text(config, repository, "blobs", digest)
}

/// Where a blob upload is started.
pub fn uploads_url(config: &HarborClientConfig, repository: &str) -> (u: String)
    ensures
        u@ == config.url@ + "/v2/"@ + config.registry@ + "/"@ + repository@ + "/blobs/uploads/"@,
{
    let mut u = config.url.clone();
    u.append("/v2/");
    u.append(config.registry.as_str());
    u.append("/");
    u.append(repository);
    u.append("/blobs/uploads/");
    u
}

/// The `Location` an upstream gave for a started upload; refused when it
/// gave none.
pub fn upload_location(location: Option<&str>) -> (r: Result<&str, ProxyError>)
    ensures
        match location {
            Some(l) => r == Ok::<&str, ProxyError>(l),
            None => r matches Err(ProxyError::InvalidResponse(m)) && m@ == "Missing Location header"@,
        },
{
    match location {
        Some(l) => Ok(l),
        None => Err(ProxyError::InvalidResponse("Missing Location header".to_string())),
    }
}

/// Where an upload is completed: the `Location` the upstream gave (made
/// absolute against the base URL unless it starts with `http`), with the
/// digest as query.
pub fn upload_completion_url(config: &HarborClientConfig, location: &str, digest: &str) -> (u: String)
    ensures
        u@ == (if has_prefix(location@, "http"@) {
            Seq::empty()
        } else {
            config.url@
        }) + location@ + "?digest="@ + digest@,
{
    let mut u = if starts_with(location, "http") {
        String::new()
    } else {
        config.url.clone()
    };
    u.append(location);
    u.append("?digest=");
    u.append(digest);
    u
}

/// The media types a manifest is asked for in (the `Accept` header).
pub fn manifest_accept() -> (s: &'static str)
    ensures
        s@ == "application/vnd.oci.image.manifest.v1+json, application/vnd.oci.image.index.v1+json, application/vnd.docker.distribution.manifest.v2+json, application/vnd.docker.distribution.manifest.list.v2+json, application/vnd.docker.distribution.manifest.v1+prettyjws"@,
{
    "application/vnd.oci.image.manifest.v1+json, application/vnd.oci.image.index.v1+json, application/vnd.docker.distribution.manifest.v2+json, application/vnd.docker.distribution.manifest.list.v2+json, application/vnd.docker.distribution.manifest.v1+prettyjws"
}

// ==================== Bearer challenges ====================

/// A character that `char::is_whitespace` accepts (Unicode `White_Space`).
pub open spec fn is_white(c: char) -> bool {
    ('\t' <= c && c <= '\r') || c == ' ' || c == '\u{85}' || c == '\u{A0}' || c == '\u{1680}' || (
    '\u{2000}' <= c && c <= '\u{200A}') || c == '\u{2028}' || c == '\u{2029}' || c == '\u{202F}' || c
        == '\u{205F}' || c == '\u{3000}'
}

/// `s` without leading characters that `drop` accepts.
pub open spec fn strip_start(s: Seq<char>, drop: spec_fn(char) -> bool) -> Seq<char>
    decreases s.len(),
{
    if s.len() > 0 && drop(s[0]) {
        strip_start(s.skip(1), drop)
    } else {
        s
    }
}

/// `s` without trailing characters that `drop` accepts.
pub open spec fn strip_end(s: Seq<char>, drop: spec_fn(char) -> bool) -> Seq<char>
    decreases s.len(),
{
    if s.len() > 0 && drop(s.last()) {
        strip_end(s.drop_last(), drop)
    } else {
        s
    }
}

/// `s` without surrounding white space (`str::trim`).
pub open spec fn trimmed(s: Seq<char>) -> Seq<char> {
    strip_end(strip_start(s, |c: char| is_white(c)), |c: char| is_white(c))
}

/// `s` without surrounding double quotes (`str::trim_matches('"')`).
pub open spec fn unquoted(s: Seq<char>) -> Seq<char> {
    strip_end(strip_start(s, |c: char| c == '"'), |c: char| c == '"')
}

/// The key of a `key=value` item, trimmed; none without `=`.
pub open spec fn item_key(item: Seq<char>) -> Option<Seq<char>> {
    match first_index_of(item, '=') {
        Some(i) => Some(trimmed(item.take(i))),
        None => None,
    }
}

/// The value of a `key=value` item, trimmed and unquoted.
pub open spec fn item_value(item: Seq<char>) -> Seq<char> {
    match first_index_of(item, '=') {
        Some(i) => unquoted(trimmed(item.skip(i + 1))),
        None => Seq::empty(),
    }
}

/// The value the last item with this key gives.
pub open spec fn param_value(items: Seq<Seq<char>>, key: Seq<char>) -> Option<Seq<char>>
    decreases items.len(),
{
    if items.len() == 0 {
        None
    } else if item_key(items.last()) == Some(key) {
        Some(item_value(items.last()))
    } else {
        param_value(items.drop_last(), key)
    }
}

/// Where a token is asked for, from a bearer challenge.
pub struct TokenRequest {
    pub realm: String,
    pub service: Option<String>,
    pub scope: Option<String>,
}

/// The first `sep` in `s` from `i` on that stands outside double quotes,
/// where `quoted` says whether `i` lies inside a quoted stretch.
pub open spec fn first_unquoted_from(s: Seq<char>, sep: char, i: int, quoted: bool) -> Option<int>
    decreases s.len() - i,
{
    if i < 0 || i >= s.len() {
        None
    } else if s[i] == '"' {
        first_unquoted_from(s, sep, i + 1, !quoted)
    } else if s[i] == sep && !quoted {
        Some(i)
    } else {
        first_unquoted_from(s, sep, i + 1, quoted)
    }
}

/// `s` split at each `sep` that stands outside double quotes: a quoted
/// value keeps the separators it holds.
pub open spec fn split_unquoted(s: Seq<char>, sep: char) -> Seq<Seq<char>>
    decreases s.len(),
{
    match first_unquoted_from(s, sep, 0, false) {
        None => seq![s],
        Some(i) => if 0 <= i < s.len() {
            seq![s.take(i)] + split_unquoted(s.skip(i + 1), sep)
        } else {
            seq![s]
        },
    }
}

/// Position of the first `sep` in `v` outside double quotes.
fn find_unquoted(v: &Vec<char>, sep: char) -> (r: Option<usize>)
    ensures
        match r {
            Some(i) => first_unquoted_from(v@, sep, 0, false) == Some(i as int) && i < v@.len(),
            None => first_unquoted_from(v@, sep, 0, false) is None,
        },
{
    let mut i: usize = 0;
    let mut quoted = false;
    while i < v.len()
        invariant
            i <= v@.len(),
            first_unquoted_from(v@, sep, i as int, quoted) == first_unquoted_from(v@, sep, 0, false),
        decreases v.len() - i,
    {
        let c = v[i];
        if c == '"' {
            quoted = !quoted;
        } else if c == sep && !quoted {
            return Some(i);
        }
        i = i + 1;
    }
    None
}

/// The pieces of `s` between the occurrences of `sep` outside double
/// quotes, as strings.
pub fn split_unquoted_pieces(s: &str, sep: char) -> (v: Vec<String>)
    ensures
        views_of(v@) == split_unquoted(s@, sep),
    decreases s@.len(),
{
    let cs = chars_of(s);
    let n = cs.len();
    match find_unquoted(&cs, sep) {
        None => {
            let mut v: Vec<String> = Vec::new();
            v.push(s.to_string());
            assert(views_of(v@) =~= seq![s@]);
            v
        },
        Some(i) => {
            let head = s.substring_char(0, i).to_string();
            let tail = s.substring_char(i + 1, n);
            assert(head@ =~= s@.take(i as int));
            assert(tail@ =~= s@.skip(i + 1));
            let mut rest = split_unquoted_pieces(tail, sep);
            let mut v: Vec<String> = Vec::new();
            v.push(head);
            let ghost first = v@;
            v.append(&mut rest);
            assert(views_of(v@) =~= seq![s@.take(i as int)] + split_unquoted(s@.skip(i + 1), sep)) by {
                assert(views_of(first) =~= seq![s@.take(i as int)]);
            }
            v
        },
    }
}

/// The items of a bearer challenge: what follows `Bearer `, split at the
/// commas outside quoted values (a quoted scope such as
/// `"repository:p/r:pull,push"` stays one item).
pub open spec fn challenge_items(www_auth: Seq<char>) -> Seq<Seq<char>> {
    split_unquoted(www_auth.skip(7), ',')
}

/// Whether `c` is white space (`char::is_whitespace`).
fn white_exec(c: char) -> (b: bool)
    ensures
        b == is_white(c),
{
    ('\t' <= c && c <= '\r') || c == ' ' || c == '\u{85}' || c == '\u{A0}' || c == '\u{1680}' || ('\u{2000}'
        <= c && c <= '\u{200A}') || c == '\u{2028}' || c == '\u{2029}' || c == '\u{202F}' || c == '\u{205F}'
        || c == '\u{3000}'
}

/// Whether `c` is dropped: white space, or (`quote`) a double quote.
fn dropped(c: char, quote: bool) -> (b: bool)
    ensures
        quote ==> b == (c == '"'),
        !quote ==> b == is_white(c),
{
    if quote {
        c == '"'
    } else {
        white_exec(c)
    }
}

/// Where `v` starts once leading dropped characters are gone.
fn strip_start_exec(v: &Vec<char>, quote: bool) -> (r: usize)
    ensures
        r <= v@.len(),
        quote ==> v@.skip(r as int) == strip_start(v@, |c: char| c == '"'),
        !quote ==> v@.skip(r as int) == strip_start(v@, |c: char| is_white(c)),
{
    let mut i: usize = 0;
    assert(v@.skip(0) =~= v@);
    while i < v.len()
        invariant
            i <= v@.len(),
            quote ==> strip_start(v@.skip(i as int), |c: char| c == '"') == strip_start(v@, |c: char| c == '"'),
            !quote ==> strip_start(v@.skip(i as int), |c: char| is_white(c)) == strip_start(v@, |c: char| is_white(c)),
        decreases v.len() - i,
    {
        let c = v[i];
        assert(v@.skip(i as int)[0] == c);
        if !dropped(c, quote) {
            return i;
        }
        assert(v@.skip(i as int).skip(1) =~= v@.skip(i + 1));
        i = i + 1;
    }
    i
}

/// Where `v[from..]` ends once trailing dropped characters are gone.
fn strip_end_exec(v: &Vec<char>, from: usize, quote: bool) -> (r: usize)
    requires
        from <= v@.len(),
    ensures
        from <= r <= v@.len(),
        quote ==> v@.subrange(from as int, r as int) == strip_end(v@.skip(from as int), |c: char| c == '"'),
        !quote ==> v@.subrange(from as int, r as int) == strip_end(v@.skip(from as int), |c: char| is_white(c)),
{
    let mut j: usize = v.len();
    assert(v@.subrange(from as int, j as int) =~= v@.skip(from as int));
    while j > from
        invariant
            from <= j <= v@.len(),
            quote ==> strip_end(v@.subrange(from as int, j as int), |c: char| c == '"') == strip_end(
                v@.skip(from as int),
                |c: char| c == '"',
            ),
            !quote ==> strip_end(v@.subrange(from as int, j as int), |c: char| is_white(c)) == strip_end(
                v@.skip(from as int),
                |c: char| is_white(c),
            ),
        decreases j,
    {
        let c = v[j - 1];
        assert(v@.subrange(from as int, j as int).last() == c);
        if !dropped(c, quote) {
            return j;
        }
        assert(v@.subrange(from as int, j as int).drop_last() =~= v@.subrange(from as int, j - 1));
        j = j - 1;
    }
    j
}

/// `s` without what is dropped at both ends.
fn stripped(s: &Vec<char>, quote: bool) -> (r: Vec<char>)
    ensures
        quote ==> r@ == unquoted(s@),
        !quote ==> r@ == trimmed(s@),
{
    let a = strip_start_exec(s, quote);
    let b = strip_end_exec(s, a, quote);
    crate::text::copy_range(s, a, b)
}

/// The key and value of an item, when it has a `=`.
fn split_item(item: &String) -> (r: Option<(Vec<char>, Vec<char>)>)
    ensures
        match item_key(item@) {
            None => r is None,
            Some(k) => r matches Some((a, b)) && a@ == k && b@ == item_value(item@),
        },
{
    let v = chars_of(item.as_str());
    match crate::storage::find_first(&v, '=') {
        None => None,
        Some(i) => {
            let key_raw = crate::text::copy_range(&v, 0, i);
            let value_raw = crate::text::copy_range(&v, i + 1, v.len());
            assert(key_raw@ =~= item@.take(i as int));
            assert(value_raw@ =~= item@.skip(i + 1));
            let key = stripped(&key_raw, false);
            let value_trimmed = stripped(&value_raw, false);
            let value = stripped(&value_trimmed, true);
            Some((key, value))
        },
    }
}

/// The token request a bearer challenge (`WWW-Authenticate`) asks for: its
/// realm, service and scope, each from the last item that gives it.
/// Refused when the challenge is not a bearer one or names no realm.
pub fn parse_bearer_challenge(www_auth: &str) -> (r: Result<TokenRequest, ProxyError>)
    ensures
        !has_prefix(www_auth@, "Bearer "@) ==> (r matches Err(ProxyError::InvalidResponse(m)) && m@
            == "Expected Bearer authentication"@),
        has_prefix(www_auth@, "Bearer "@) ==> match param_value(challenge_items(www_auth@), "realm"@) {
            None => r matches Err(ProxyError::InvalidResponse(m)) && m@ == "Missing realm in WWW-Authenticate"@,
            Some(realm) => r matches Ok(t) && t.realm@ == realm && crate::text::opt_view(t.service)
                == param_value(challenge_items(www_auth@), "service"@) && crate::text::opt_view(t.scope)
                == param_value(challenge_items(www_auth@), "scope"@),
        },
{
    if !starts_with(www_auth, "Bearer ") {
        return Err(ProxyError::InvalidResponse("Expected Bearer authentication".to_string()));
    }
    proof {
        reveal_strlit("Bearer ");
    }
    let n = chars_of(www_auth).len();
    let rest = www_auth.substring_char(7, n);
    assert(rest@ =~= www_auth@.skip(7));
    let items = split_unquoted_pieces(rest, ',');
    let ghost iv = views_of(items@);
    let realm_key = chars_of("realm");
    let service_key = chars_of("service");
    let scope_key = chars_of("scope");
    let mut realm: Option<Vec<char>> = None;
    let mut service: Option<Vec<char>> = None;
    let mut scope: Option<Vec<char>> = None;
    let mut k: usize = 0;
    assert(iv.take(0) =~= Seq::<Seq<char>>::empty());
    proof {
        reveal_strlit("realm");
        reveal_strlit("service");
        reveal_strlit("scope");
        assert("realm"@.len() == 5 && "service"@.len() == 7 && "scope"@.len() == 5);
        assert("realm"@[0] == 'r' && "scope"@[0] == 's');
    }
    while k < items.len()
        invariant
            k <= items@.len(),
            iv == views_of(items@),
            "realm"@ != "service"@ && "realm"@ != "scope"@ && "service"@ != "scope"@,
            realm_key@ == "realm"@,
            service_key@ == "service"@,
            scope_key@ == "scope"@,
            match realm {
                Some(v) => param_value(iv.take(k as int), "realm"@) == Some(v@),
                None => param_value(iv.take(k as int), "realm"@) is None,
            },
            match service {
                Some(v) => param_value(iv.take(k as int), "service"@) == Some(v@),
                None => param_value(iv.take(k as int), "service"@) is None,
            },
            match scope {
                Some(v) => param_value(iv.take(k as int), "scope"@) == Some(v@),
                None => param_value(iv.take(k as int), "scope"@) is None,
            },
        decreases items.len() - k,
    {
        proof {
            assert(iv.take(k + 1).drop_last() =~= iv.take(k as int));
            assert(iv.take(k + 1).last() == items@[k as int]@);
        }
        match split_item(&items[k]) {
            Some((key, value)) => {
                if crate::text::chars_eq(&key, &realm_key) {
                    realm = Some(value);
                } else if crate::text::chars_eq(&key, &service_key) {
                    service = Some(value);
                } else if crate::text::chars_eq(&key, &scope_key) {
                    scope = Some(value);
                }
            },
            None => {},
        }
        k = k + 1;
    }
    assert(iv.take(items.len() as int) =~= iv);
    match realm {
        None => Err(ProxyError::InvalidResponse("Missing realm in WWW-Authenticate".to_string())),
        Some(r) => Ok(
            TokenRequest {
                realm: crate::text::string_from_chars(&r),
                service: match service {
                    Some(v) => Some(crate::text::string_from_chars(&v)),
                    None => None,
                },
                scope: match scope {
                    Some(v) => Some(crate::text::string_from_chars(&v)),
                    None => None,
                },
            },
        ),
    }
}

/// The parameters of a token request, in order.
pub open spec fn token_params(t: TokenRequest) -> Seq<Seq<char>> {
    (match t.service {
        Some(s) => seq!["service="@ + s@],
        None => Seq::empty(),
    }) + (match t.scope {
        Some(s) => seq!["scope="@ + s@],
        None => Seq::empty(),
    })
}

/// The URL a token is asked for at: the realm, with the service and scope
/// as query parameters when given.
pub fn token_url(t: &TokenRequest) -> (u: String)
    ensures
        u@ == if token_params(*t).len() == 0 {
            t.realm@
        } else {
            t.realm@ + "?"@ + join(token_params(*t), "&"@)
        },
{
    let mut params: Vec<String> = Vec::new();
    if let Some(s) = &t.service {
        let mut p = "service=".to_string();
        p.append(s.as_str());
        params.push(p);
    }
    let ghost first = views_of(params@);
    if let Some(s) = &t.scope {
        let mut p = "scope=".to_string();
        p.append(s.as_str());
        params.push(p);
    }
    assert(views_of(params@) =~= token_params(*t));
    let mut u = t.realm.clone();
    if params.len() > 0 {
        u.append("?");
        let j = crate::text::join_strings(&params, "&");
        u.append(j.as_str());
    }
    u
}

/// How the answer to a token request is read: refused, with the body,
/// unless its status is 2xx.
pub fn token_request_failure(status: u16, body: String) -> (r: Option<ProxyError>)
    ensures
        !is_success(status) ==> (r matches Some(ProxyError::UpstreamError { status: s, message }) && s == status
            && message@ == "Token request failed: "@ + body@),
        is_success(status) ==> r is None,
{
    if !(200 <= status && status <= 299) {
        let mut message = "Token request failed: ".to_string();
        message.append(body.as_str());
        return Some(ProxyError::UpstreamError { status, message });
    }
    None
}

/// The credentials sent with a token request: both a user name and a
/// password, or none.
pub fn token_credentials(config: &HarborClientConfig) -> (r: Option<(String, String)>)
    ensures
        match (config.username, config.password) {
            (Some(u), Some(p)) => r matches Some((a, b)) && a == u && b == p,
            _ => r is None,
        },
{
    match (&config.username, &config.password) {
        (Some(u), Some(p)) => Some((u.clone(), p.clone())),
        _ => None,
    }
}

/// The `Authorization` header for a token.
pub fn bearer_header(token: &str) -> (h: String)
    ensures
        h@ == "Bearer "@ + token@,
{
    let mut h = "Bearer ".to_string();
    h.append(token);
    h
}

/// After a first attempt answered with `status`, whether to retry with a
/// token, and where to ask for it: no retry unless the status is 401; then
/// the challenge must be there and be understood.
pub fn retry_with_token(status: u16, www_auth: Option<&str>) -> (r: Result<Option<TokenRequest>, ProxyError>)
    ensures
        status != 401 ==> r matches Ok(None),
        status == 401 ==> match www_auth {
            None => r matches Err(ProxyError::Unauthorized),
            Some(h) => match parse_bearer_challenge_spec(h@) {
                Ok(realm) => r matches Ok(Some(t)) && t.realm@ == realm,
                Err(m) => r matches Err(ProxyError::InvalidResponse(x)) && x@ == m,
            },
        },
{
    if status != 401 {
        return Ok(None);
    }
    match www_auth {
        None => Err(ProxyError::Unauthorized),
        Some(h) => match parse_bearer_challenge(h) {
            Ok(t) => Ok(Some(t)),
            Err(e) => Err(e),
        },
    }
}

/// The realm a bearer challenge names, or why it is refused.
pub open spec fn parse_bearer_challenge_spec(www_auth: Seq<char>) -> Result<Seq<char>, Seq<char>> {
    if !has_prefix(www_auth, "Bearer "@) {
        Err("Expected Bearer authentication"@)
    } else {
        match param_value(challenge_items(www_auth), "realm"@) {
            None => Err("Missing realm in WWW-Authenticate"@),
            Some(realm) => Ok(realm),
        }
    }
}

// ==================== Reading answers ====================

/// A 2xx status.
pub open spec fn is_success(status: u16) -> bool {
    200 <= status <= 299
}

/// How a manifest fetch is answered: 404 means the manifest is missing
/// (named `repository:reference`), another non-2xx status is an upstream
/// error carrying the body.
pub fn manifest_fetch_failure(status: u16, repository: &str, reference: &str, body: String) -> (r: Option<
    ProxyError,
>)
    ensures
        status == 404 ==> (r matches Some(ProxyError::NotFound(m)) && m@ == repository@ + ":"@ + reference@),
        status != 404 && !is_success(status) ==> (r matches Some(ProxyError::UpstreamError { status: s, message })
            && s == status && message@ == body@),
        status != 404 && is_success(status) ==> r is None,
{
    if status == 404 {
        return Some(ProxyError::NotFound(crate::registry::manifest_name(repository, reference)));
    }
    if !(200 <= status && status <= 299) {
        return Some(ProxyError::UpstreamError { status, message: body });
    }
    None
}

/// How a blob fetch is answered: 404 means the blob is missing (named by
/// its digest), another non-2xx status is an upstream error.
pub fn blob_fetch_failure(status: u16, digest: &str, body: String) -> (r: Option<ProxyError>)
    ensures
        status == 404 ==> (r matches Some(ProxyError::NotFound(m)) && m@ == digest@),
        status != 404 && !is_success(status) ==> (r matches Some(ProxyError::UpstreamError { status: s, message })
            && s == status && message@ == body@),
        status != 404 && is_success(status) ==> r is None,
{
    if status == 404 {
        return Some(ProxyError::NotFound(digest.to_string()));
    }
    if !(200 <= status && status <= 299) {
        return Some(ProxyError::UpstreamError { status, message: body });
    }
    None
}

/// How a push is answered: refused unless the status is 2xx (or the
/// `accepted` one: 202 for starting an upload, 201 for completing one).
pub fn push_failure(status: u16, accepted: u16, body: String) -> (r: Option<ProxyError>)
    ensures
        !is_success(status) && status != accepted ==> (r matches Some(ProxyError::UpstreamError { status: s, message })
            && s == status && message@ == body@),
        is_success(status) || status == accepted ==> r is None,
{
    if !(200 <= status && status <= 299) && status != accepted {
        return Some(ProxyError::UpstreamError { status, message: body });
    }
    None
}

/// The content type of a fetched manifest: the one reported, else the OCI
/// image manifest type.
pub fn manifest_content_type(reported: Option<&str>) -> (t: String)
    ensures
        match reported {
            Some(c) => t@ == c@,
            None => t@ == "application/vnd.oci.image.manifest.v1+json"@,
        },
{
    match reported {
        Some(c) => c.to_string(),
        None => "application/vnd.oci.image.manifest.v1+json".to_string(),
    }
}

/// The digest an answer reports, or the empty text when it reports none.
pub fn reported_digest(reported: Option<&str>) -> (d: String)
    ensures
        match reported {
            Some(c) => d@ == c@,
            None => d@ == Seq::<char>::empty(),
        },
{
    match reported {
        Some(c) => c.to_string(),
        None => String::new(),
    }
}

/// The `u64` written in `s`, as `str::parse::<u64>` reads it: an optional
/// `+`, then one or more ASCII digits.
pub open spec fn u64_value(s: Seq<char>) -> Option<u64> {
    if s.len() > 0 && s[0] == '-' {
        None
    } else {
        match int_value(s) {
            Some(v) => if 0 <= v <= u64::MAX {
                Some(v as u64)
            } else {
                None
            },
            None => None,
        }
    }
}

/// Parses a decimal `u64` (see [`u64_value`]).
pub fn parse_u64(s: &str) -> (r: Option<u64>)
    ensures
        r == u64_value(s@),
{
    let v = chars_of(s);
    let n = v.len();
    if n == 0 || v[0] == '-' {
        return None;
    }
    let start: usize = if v[0] == '+' {
        1
    } else {
        0
    };
    if start == n {
        return None;
    }
    let ghost body = v@.skip(start as int);
    assert(body == unsigned_part(s@)) by {
        if !has_sign(s@) {
            assert(v@.skip(0) =~= v@);
        }
    }
    let mut value: u64 = 0;
    let mut k: usize = start;
    let mut overflow = false;
    assert(body.take(0) =~= Seq::<char>::empty());
    #[verifier::loop_isolation(false)]
    while k < n
        invariant
            v@ == s@,
            n == v@.len(),
            start <= k <= n,
            body == v@.skip(start as int),
            forall|i: int| 0 <= i < k - start ==> is_digit(#[trigger] body[i]),
            !overflow ==> value == digits_value(body.take(k - start)),
            overflow ==> digits_value(body.take(k - start)) > u64::MAX,
        decreases n - k,
    {
        let c = v[k];
        if !('0' <= c && c <= '9') {
            assert(!is_digit(body[k - start]));
            return None;
        }
        let d = ((c as u32) - 48) as u64;
        proof {
            assert(body.take(k - start + 1).drop_last() =~= body.take(k - start));
            assert(body.take(k - start + 1).last() == c);
        }
        if !overflow {
            match value.checked_mul(10) {
                Some(m10) => match m10.checked_add(d) {
                    Some(m) => {
                        value = m;
                    },
                    None => {
                        overflow = true;
                    },
                },
                None => {
                    overflow = true;
                },
            }
        } else {
            proof {
                assert(digits_value(body.take(k - start + 1)) >= digits_value(body.take(k - start)) * 10);
            }
        }
        k = k + 1;
    }
    assert(body.take(n - start) =~= body);
    if overflow {
        return None;
    }
    Some(value)
}

/// The size an answer announces in `Content-Length`, or 0 when it
/// announces none that reads as a number.
pub fn announced_length(header: Option<&str>) -> (n: u64)
    ensures
        n == match header {
            Some(h) => match u64_value(h@) {
                Some(v) => v,
                None => 0,
            },
            None => 0,
        },
{
    match header {
        Some(h) => match parse_u64(h) {
            Some(v) => v,
            None => 0,
        },
        None => 0,
    }
}

} // verus!
