//! Management of upstream registries through the API: which names, URLs,
//! registries and route patterns are accepted, which addresses an upstream
//! may not point at, and how a request becomes an upstream's configuration.

use vstd::prelude::*;

use crate::api_types::{
    CreateRouteRequest, CreateUpstreamRequest, UpdateUpstreamRequest, UpstreamProjectResponse,
    UpstreamResponse, UpstreamRouteResponse, TestUpstreamResponse,
};
use crate::config::{UpstreamConfig, UpstreamProjectConfig, UpstreamRouteConfig};
use crate::errors::ApiError;
use crate::numfmt::dec;
use crate::registry_api::is_ascii_alnum;
use crate::storage::utf8_len;
use crate::text::{
    chars_of, contains_exec, contains_seq, count_char, count_occurrences, ends_with, has_suffix,
    lower_text, lowered, str_eq,
};

verus! {

// ==================== Limits ====================

/// Maximum length of an upstream name, in bytes.
pub const MAX_NAME_LENGTH: usize = 64;
/// Minimum length of an upstream name, in bytes.
pub const MIN_NAME_LENGTH: usize = 1;
/// Maximum length of a display name, in bytes.
pub const MAX_DISPLAY_NAME_LENGTH: usize = 128;
/// Maximum length of an upstream URL, in bytes.
pub const MAX_URL_LENGTH: usize = 2048;
/// Maximum length of a registry name, in bytes.
pub const MAX_REGISTRY_LENGTH: usize = 256;
/// Maximum length of a route pattern, in bytes.
pub const MAX_PATTERN_LENGTH: usize = 512;
/// Maximum number of wildcards in a route pattern.
pub const MAX_WILDCARDS_IN_PATTERN: usize = 10;

// ==================== Names ====================

/// A character allowed in an upstream name.
pub open spec fn is_upstream_name_char(c: char) -> bool {
    is_ascii_alnum(c) || c == '-' || c == '_'
}

/// Why an upstream name is refused: 1 to 64 bytes of ASCII letters,
/// digits, `-` and `_`, starting with a letter or digit.
pub open spec fn upstream_name_problem(name: Seq<char>) -> Option<Seq<char>> {
    if utf8_len(name) < 1 {
        Some("Upstream name cannot be empty"@)
    } else if utf8_len(name) > 64 {
        Some("Upstream name exceeds maximum length of 64 characters"@)
    } else if exists|i: int| 0 <= i < name.len() && !is_upstream_name_char(#[trigger] name[i]) {
        Some("Upstream name must contain only alphanumeric characters, dashes, and underscores"@)
    } else if name.len() > 0 && !is_ascii_alnum(name[0]) {
        Some("Upstream name must start with an alphanumeric character"@)
    } else {
        None
    }
}

/// Validate an upstream name (see [`upstream_name_problem`]).
pub fn validate_upstream_name(name: &str) -> (r: Result<(), ApiError>)
    ensures
        match upstream_name_problem(name@) {
            None => r is Ok,
            Some(m) => r matches Err(ApiError::BadRequest(e)) && e@ == m,
        },
{
    if name.len() < MIN_NAME_LENGTH {
        return Err(ApiError::BadRequest("Upstream name cannot be empty".to_string()));
    }
    if name.len() > MAX_NAME_LENGTH {
        return Err(
            ApiError::BadRequest("Upstream name exceeds maximum length of 64 characters".to_string()),
        );
    }
    let v = chars_of(name);
    let mut i: usize = 0;
    #[verifier::loop_isolation(false)]
    while i < v.len()
        invariant
            v@ == name@,
            i <= v.len(),
            forall|j: int| 0 <= j < i ==> is_upstream_name_char(#[trigger] v@[j]),
        decreases v.len() - i,
    {
        let c = v[i];
        if !(('a' <= c && c <= 'z') || ('A' <= c && c <= 'Z') || ('0' <= c && c <= '9') || c == '-'
            || c == '_') {
            assert(!is_upstream_name_char(name@[i as int]));
            return Err(
                ApiError::BadRequest(
                    "Upstream name must contain only alphanumeric characters, dashes, and underscores".to_string(),
                ),
            );
        }
        i = i + 1;
    }
    if v.len() > 0 {
        let first = v[0];
        if !(('a' <= first && first <= 'z') || ('A' <= first && first <= 'Z') || ('0' <= first
            && first <= '9')) {
            return Err(
                ApiError::BadRequest(
                    "Upstream name must start with an alphanumeric character".to_string(),
                ),
            );
        }
    }
    Ok(())
}

/// Why a display name is refused: 1 to 128 bytes, and in lowercase free of
/// `<script`, `javascript:` and `data:`.
pub open spec fn display_name_problem(name: Seq<char>) -> Option<Seq<char>> {
    let lower = lowered(name);
    if name.len() == 0 {
        Some("Display name cannot be empty"@)
    } else if utf8_len(name) > 128 {
        Some("Display name exceeds maximum length of 128 characters"@)
    } else if contains_seq(lower, "<script"@) || contains_seq(lower, "javascript:"@) || contains_seq(
        lower,
        "data:"@,
    ) {
        Some("Display name contains disallowed characters"@)
    } else {
        None
    }
}

/// Validate a display name (see [`display_name_problem`]).
pub fn validate_display_name(name: &str) -> (r: Result<(), ApiError>)
    ensures
        match display_name_problem(name@) {
            None => r is Ok,
            Some(m) => r matches Err(ApiError::BadRequest(e)) && e@ == m,
        },
{
    if name.is_empty() {
        return Err(ApiError::BadRequest("Display name cannot be empty".to_string()));
    }
    if name.len() > MAX_DISPLAY_NAME_LENGTH {
        return Err(
            ApiError::BadRequest("Display name exceeds maximum length of 128 characters".to_string()),
        );
    }
    let lower = lower_text(name);
    let lv = chars_of(lower.as_str());
    let script = chars_of("<script");
    let javascript = chars_of("javascript:");
    let data = chars_of("data:");
    if contains_exec(&lv, &script) || contains_exec(&lv, &javascript) || contains_exec(&lv, &data) {
        return Err(ApiError::BadRequest("Display name contains disallowed characters".to_string()));
    }
    Ok(())
}

/// Why a registry name is refused: it must have 1 to 256 bytes.
pub open spec fn registry_name_problem(registry: Seq<char>) -> Option<Seq<char>> {
    if registry.len() == 0 {
        Some("Registry name cannot be empty"@)
    } else if utf8_len(registry) > 256 {
        Some("Registry name exceeds maximum length of 256 characters"@)
    } else {
        None
    }
}

/// Validate a registry name (see [`registry_name_problem`]).
pub fn validate_registry_name(registry: &str) -> (r: Result<(), ApiError>)
    ensures
        match registry_name_problem(registry@) {
            None => r is Ok,
            Some(m) => r matches Err(ApiError::BadRequest(e)) && e@ == m,
        },
{
    if registry.is_empty() {
        return Err(ApiError::BadRequest("Registry name cannot be empty".to_string()));
    }
    if registry.len() > MAX_REGISTRY_LENGTH {
        return Err(
            ApiError::BadRequest("Registry name exceeds maximum length of 256 characters".to_string()),
        );
    }
    Ok(())
}

/// Why a route pattern is refused: 1 to 512 bytes, at most 10 `*`, no `..`.
pub open spec fn route_pattern_problem(pattern: Seq<char>) -> Option<Seq<char>> {
    if pattern.len() == 0 {
        Some("Route pattern cannot be empty"@)
    } else if utf8_len(pattern) > 512 {
        Some("Route pattern exceeds maximum length of 512 characters"@)
    } else if count_char(pattern, '*') > 10 {
        Some("Route pattern contains too many wildcards (max 10)"@)
    } else if contains_seq(pattern, ".."@) {
        Some("Route pattern cannot contain path traversal sequences"@)
    } else {
        None
    }
}

/// Validate a route pattern (see [`route_pattern_problem`]); the limits keep
/// matching cheap.
pub fn validate_route_pattern(pattern: &str) -> (r: Result<(), ApiError>)
    ensures
        match route_pattern_problem(pattern@) {
            None => r is Ok,
            Some(m) => r matches Err(ApiError::BadRequest(e)) && e@ == m,
        },
{
    if pattern.is_empty() {
        return Err(ApiError::BadRequest("Route pattern cannot be empty".to_string()));
    }
    if pattern.len() > MAX_PATTERN_LENGTH {
        return Err(
            ApiError::BadRequest("Route pattern exceeds maximum length of 512 characters".to_string()),
        );
    }
    if count_occurrences(pattern, '*') > MAX_WILDCARDS_IN_PATTERN {
        return Err(
            ApiError::BadRequest("Route pattern contains too many wildcards (max 10)".to_string()),
        );
    }
    let v = chars_of(pattern);
    let dots = chars_of("..");
    if contains_exec(&v, &dots) {
        return Err(
            ApiError::BadRequest("Route pattern cannot contain path traversal sequences".to_string()),
        );
    }
    Ok(())
}

// ==================== Projects ====================

/// The first project, from `j` on, whose name an earlier project has.
pub open spec fn repeated_project_from(ps: Seq<UpstreamProjectConfig>, j: int) -> Option<int>
    decreases ps.len() - j,
{
    if j < 0 || j >= ps.len() {
        None
    } else if exists|i: int| 0 <= i < j && (#[trigger] ps[i]).name@ == ps[j].name@ {
        Some(j)
    } else {
        repeated_project_from(ps, j + 1)
    }
}

/// How many projects are marked as default.
pub open spec fn default_count(ps: Seq<UpstreamProjectConfig>) -> nat
    decreases ps.len(),
{
    if ps.len() == 0 {
        0
    } else {
        default_count(ps.drop_last()) + if ps.last().is_default {
            1nat
        } else {
            0nat
        }
    }
}

/// Why a list of projects is refused: more than `max` of them, then the
/// first name given twice, then more than one default.
pub open spec fn projects_problem(ps: Seq<UpstreamProjectConfig>, max: nat) -> Option<Seq<char>> {
    if ps.len() > max {
        Some("Too many projects (max "@ + dec(max) + ")"@)
    } else {
        match repeated_project_from(ps, 0) {
            Some(j) => Some("Duplicate project name: '"@ + ps[j].name@ + "'"@),
            None => if default_count(ps) > 1 {
                Some("Only one project can be marked as default"@)
            } else {
                None
            },
        }
    }
}

/// Whether a project before `j` has the name of project `j`.
fn name_seen_before(projects: &Vec<UpstreamProjectConfig>, j: usize) -> (b: bool)
    requires
        j < projects@.len(),
    ensures
        b == exists|i: int| 0 <= i < j && (#[trigger] projects@[i]).name@ == projects@[j as int].name@,
{
    let mut i: usize = 0;
    while i < j
        invariant
            i <= j < projects@.len(),
            forall|k: int| 0 <= k < i ==> (#[trigger] projects@[k]).name@ != projects@[j as int].name@,
        decreases j - i,
    {
        if str_eq(projects[i].name.as_str(), projects[j].name.as_str()) {
            assert(projects@[i as int].name@ == projects@[j as int].name@);
            return true;
        }
        i = i + 1;
    }
    false
}

/// Validate the projects of an upstream (see [`projects_problem`]), with
/// at most `max_projects` of them.
pub fn validate_projects(projects: &Vec<UpstreamProjectConfig>, max_projects: usize) -> (r: Result<(), ApiError>)
    ensures
        match projects_problem(projects@, max_projects as nat) {
            None => r is Ok,
            Some(m) => r matches Err(ApiError::BadRequest(e)) && e@ == m,
        },
{
    if projects.len() > max_projects {
        let mut m = "Too many projects (max ".to_string();
        let n = crate::numfmt::format_u64(max_projects as u64);
        m.append(n.as_str());
        m.append(")");
        return Err(ApiError::BadRequest(m));
    }
    let mut j: usize = 0;
    while j < projects.len()
        invariant
            j <= projects@.len(),
            projects@.len() <= max_projects,
            repeated_project_from(projects@, 0) == repeated_project_from(projects@, j as int),
        decreases projects.len() - j,
    {
        if name_seen_before(projects, j) {
            assert(repeated_project_from(projects@, j as int) == Some(j as int));
            let mut m = "Duplicate project name: '".to_string();
            m.append(projects[j].name.as_str());
            m.append("'");
            return Err(ApiError::BadRequest(m));
        }
        j = j + 1;
    }
    let mut defaults: usize = 0;
    let mut k: usize = 0;
    assert(projects@.take(0) =~= Seq::<UpstreamProjectConfig>::empty());
    while k < projects.len()
        invariant
            k <= projects@.len(),
            defaults == default_count(projects@.take(k as int)),
            defaults <= k,
        decreases projects.len() - k,
    {
        assert(projects@.take(k + 1).drop_last() =~= projects@.take(k as int));
        if projects[k].is_default {
            defaults = defaults + 1;
        }
        k = k + 1;
    }
    assert(projects@.take(k as int) =~= projects@);
    if defaults > 1 {
        return Err(ApiError::BadRequest("Only one project can be marked as default".to_string()));
    }
    Ok(())
}

// ==================== Addresses ====================

/// An IP address: four octets, or eight 16-bit segments.
pub enum IpAddress {
    V4([u8; 4]),
    V6([u16; 8]),
}

/// `127.0.0.0/8`.
pub open spec fn v4_is_loopback(o: Seq<u8>) -> bool {
    o[0] == 127
}

/// `10.0.0.0/8`, `172.16.0.0/12`, `192.168.0.0/16`.
pub open spec fn v4_is_private(o: Seq<u8>) -> bool {
    o[0] == 10 || (o[0] == 172 && 16 <= o[1] && o[1] <= 31) || (o[0] == 192 && o[1] == 168)
}

/// `169.254.0.0/16`.
pub open spec fn v4_is_link_local(o: Seq<u8>) -> bool {
    o[0] == 169 && o[1] == 254
}

/// `255.255.255.255`.
pub open spec fn v4_is_broadcast(o: Seq<u8>) -> bool {
    o[0] == 255 && o[1] == 255 && o[2] == 255 && o[3] == 255
}

/// `0.0.0.0`.
pub open spec fn v4_is_unspecified(o: Seq<u8>) -> bool {
    o[0] == 0 && o[1] == 0 && o[2] == 0 && o[3] == 0
}

/// `192.0.2.0/24`, `198.51.100.0/24`, `203.0.113.0/24`.
pub open spec fn v4_is_documentation(o: Seq<u8>) -> bool {
    (o[0] == 192 && o[1] == 0 && o[2] == 2) || (o[0] == 198 && o[1] == 51 && o[2] == 100) || (o[0]
        == 203 && o[1] == 0 && o[2] == 113)
}

/// An IPv4 address an upstream may not use: loopback, private, link-local,
/// broadcast, unspecified, documentation, or anywhere in `169.0.0.0/8`
/// (cloud metadata services).
pub open spec fn v4_reserved(o: Seq<u8>) -> bool {
    v4_is_loopback(o) || v4_is_private(o) || v4_is_link_local(o) || v4_is_broadcast(o)
        || v4_is_unspecified(o) || o[0] == 169 || v4_is_documentation(o)
}

/// An IP address an upstream may not use. For IPv6: loopback `::1`,
/// unspecified `::`, and IPv4-mapped `::ffff:a.b.c.d` of a reserved IPv4
/// address.
pub open spec fn ip_reserved(ip: IpAddress) -> bool {
    match ip {
        IpAddress::V4(o) => v4_reserved(o@),
        IpAddress::V6(s) => {
            let s = s@;
            ||| (s[0] == 0 && s[1] == 0 && s[2] == 0 && s[3] == 0 && s[4] == 0 && s[5] == 0 && s[6] == 0
                && s[7] == 1)
            ||| (s[0] == 0 && s[1] == 0 && s[2] == 0 && s[3] == 0 && s[4] == 0 && s[5] == 0 && s[6] == 0
                && s[7] == 0)
            ||| (s[0] == 0 && s[1] == 0 && s[2] == 0 && s[3] == 0 && s[4] == 0 && s[5] == 0xffff
                && v4_reserved(seq![(s[6] / 256) as u8, (s[6] % 256) as u8, (s[7] / 256) as u8, (s[7] % 256) as u8]))
        },
    }
}

fn v4_reserved_exec(o: [u8; 4]) -> (b: bool)
    ensures
        b == v4_reserved(o@),
{
    let (a, b, c, d) = (o[0], o[1], o[2], o[3]);
    a == 127 || a == 10 || (a == 172 && 16 <= b && b <= 31) || (a == 192 && b == 168) || (a == 169
        && b == 254) || (a == 255 && b == 255 && c == 255 && d == 255) || (a == 0 && b == 0 && c == 0
        && d == 0) || a == 169 || (a == 192 && b == 0 && c == 2) || (a == 198 && b == 51 && c == 100)
        || (a == 203 && b == 0 && c == 113)
}

/// Whether an IP address is private, loopback or otherwise reserved (see
/// [`ip_reserved`]).
pub fn is_private_or_reserved_ip(ip: &IpAddress) -> (b: bool)
    ensures
        b == ip_reserved(*ip),
{
    match ip {
        IpAddress::V4(o) => v4_reserved_exec(*o),
        IpAddress::V6(s) => {
            let head_zero = s[0] == 0 && s[1] == 0 && s[2] == 0 && s[3] == 0 && s[4] == 0;
            if head_zero && s[5] == 0 && s[6] == 0 && (s[7] == 1 || s[7] == 0) {
                return true;
            }
            if head_zero && s[5] == 0xffff {
                let (x, y) = (s[6], s[7]);
                let mapped: [u8; 4] = [(x >> 8) as u8, (x & 0xff) as u8, (y >> 8) as u8, (y & 0xff) as u8];
                assert((x >> 8) as u8 == (x / 256) as u8 && (x & 0xff) as u8 == (x % 256) as u8) by (bit_vector);
                assert((y >> 8) as u8 == (y / 256) as u8 && (y & 0xff) as u8 == (y % 256) as u8) by (bit_vector);
                assert(mapped@ =~= seq![(x / 256) as u8, (x % 256) as u8, (y / 256) as u8, (y % 256) as u8]);
                return v4_reserved_exec(mapped);
            }
            false
        },
    }
}

// ==================== URLs ====================

/// The parts of an absolute URL that decide whether it may name an upstream.
pub struct ParsedUrl {
    /// The scheme, such as `https`.
    pub scheme: String,
    /// The host as the URL serialises it: a domain, dotted IPv4, or
    /// bracketed IPv6.
    pub host: Option<String>,
    /// The octets, when the host is an IPv4 address.
    pub ipv4: Option<[u8; 4]>,
    /// The explicit port, if it is not the scheme's default.
    pub port: Option<u16>,
}

/// [`ParsedUrl`] over plain values.
pub struct UrlView {
    pub scheme: Seq<char>,
    pub host: Option<Seq<char>>,
    pub ipv4: Option<Seq<u8>>,
    pub port: Option<u16>,
}

impl View for ParsedUrl {
    type V = UrlView;

    open spec fn view(&self) -> UrlView {
        UrlView {
            scheme: self.scheme@,
            host: crate::text::opt_view(self.host),
            ipv4: match self.ipv4 {
                Some(o) => Some(o@),
                None => None,
            },
            port: self.port,
        }
    }
}

/// What the `url` crate makes of `s`: the parts of the URL, or the text of
/// the parse error.
pub uninterp spec fn url_parse(s: Seq<char>) -> Result<UrlView, Seq<char>>;

/// Parses an absolute URL (`url::Url::parse`), keeping its scheme, host,
/// IPv4 address and port; an error is kept as its text.
#[verifier::external_body]
fn parse_url(s: &str) -> (r: Result<ParsedUrl, String>)
    ensures
        url_parse(s@) == match r {
            Ok(u) => Ok::<UrlView, Seq<char>>(u@),
            Err(e) => Err::<UrlView, Seq<char>>(e@),
        },
{
    match url::Url::parse(s) {
        Ok(u) => Ok(ParsedUrl {
            scheme: u.scheme().to_string(),
            host: u.host_str().map(|h| h.to_string()),
            ipv4: match u.host() {
                Some(url::Host::Ipv4(a)) => Some(a.octets()),
                _ => None,
            },
            port: u.port(),
        }),
        Err(e) => Err(e.to_string()),
    }
}

/// Why an upstream URL is refused: it must be at most 2048 bytes, parse,
/// use http or https, have a host, and that host must be neither local,
/// nor an internal name, nor a reserved IPv4 address.
pub open spec fn upstream_url_problem(url: Seq<char>) -> Option<Seq<char>> {
    if utf8_len(url) > 2048 {
        Some("URL exceeds maximum length of 2048 characters"@)
    } else {
        match url_parse(url) {
            Err(e) => Some("Invalid URL format: "@ + e),
            Ok(u) => if u.scheme != "http"@ && u.scheme != "https"@ {
                Some("URL scheme '"@ + u.scheme + "' is not allowed. Only http and https are permitted"@)
            } else {
                match u.host {
                    None => Some("URL must have a host"@),
                    Some(h) => if h == "localhost"@ || h == "127.0.0.1"@ || h == "::1"@ {
                        Some("Localhost URLs are not allowed for security reasons"@)
                    } else if lowered(h) == "metadata"@ || lowered(h) == "metadata.google.internal"@
                        || has_suffix(lowered(h), ".internal"@) || has_suffix(lowered(h), ".local"@) {
                        Some("Internal hostnames are not allowed for security reasons"@)
                    } else if (match u.ipv4 {
                        Some(o) => v4_reserved(o),
                        None => false,
                    }) {
                        Some("Private or reserved IP addresses are not allowed for security reasons"@)
                    } else {
                        None
                    },
                }
            },
        }
    }
}

/// Validate an upstream URL (see [`upstream_url_problem`]); this keeps the
/// cache from being pointed at internal services.
pub fn validate_upstream_url(url: &str) -> (r: Result<(), ApiError>)
    ensures
        match upstream_url_problem(url@) {
            None => r is Ok,
            Some(m) => r matches Err(ApiError::BadRequest(e)) && e@ == m,
        },
{
    if url.len() > MAX_URL_LENGTH {
        return Err(
            ApiError::BadRequest("URL exceeds maximum length of 2048 characters".to_string()),
        );
    }
    let parsed = match parse_url(url) {
        Ok(u) => u,
        Err(e) => {
            let mut m = "Invalid URL format: ".to_string();
            m.append(e.as_str());
            return Err(ApiError::BadRequest(m));
        },
    };
    let scheme = parsed.scheme.as_str();
    if !str_eq(scheme, "http") && !str_eq(scheme, "https") {
        let mut m = "URL scheme '".to_string();
        m.append(scheme);
        m.append("' is not allowed. Only http and https are permitted");
        return Err(ApiError::BadRequest(m));
    }
    let host = match &parsed.host {
        Some(h) => h.as_str(),
        None => {
            return Err(ApiError::BadRequest("URL must have a host".to_string()));
        },
    };
    if str_eq(host, "localhost") || str_eq(host, "127.0.0.1") || str_eq(host, "::1") {
        return Err(
            ApiError::BadRequest("Localhost URLs are not allowed for security reasons".to_string()),
        );
    }
    let lower = lower_text(host);
    let lh = lower.as_str();
    if str_eq(lh, "metadata") || str_eq(lh, "metadata.google.internal") || ends_with(lh, ".internal")
        || ends_with(lh, ".local") {
        return Err(
            ApiError::BadRequest("Internal hostnames are not allowed for security reasons".to_string()),
        );
    }
    if let Some(o) = parsed.ipv4 {
        if v4_reserved_exec(o) {
            return Err(
                ApiError::BadRequest(
                    "Private or reserved IP addresses are not allowed for security reasons".to_string(),
                ),
            );
        }
    }
    Ok(())
}

/// Where a host named in an upstream URL must be looked up: the host and
/// the port (the explicit one, else 443 for https and 80 otherwise). None
/// when the URL has no host or its host is an IPv4 address, which needs no
/// lookup.
pub open spec fn lookup_target(u: UrlView) -> Option<(Seq<char>, u16)> {
    match u.host {
        None => None,
        Some(h) => if u.ipv4 is Some {
            None
        } else {
            Some(
                (
                    h,
                    match u.port {
                        Some(p) => p,
                        None => if u.scheme == "https"@ {
                            443u16
                        } else {
                            80u16
                        },
                    },
                ),
            )
        },
    }
}

/// The host and port whose addresses must be checked before `url` is
/// accepted (see [`lookup_target`]); `Err` when the URL does not parse.
pub fn dns_lookup_target(url: &str) -> (r: Result<Option<(String, u16)>, ApiError>)
    ensures
        match url_parse(url@) {
            Err(e) => r matches Err(ApiError::BadRequest(m)) && m@ == "Invalid URL: "@ + e,
            Ok(u) => match lookup_target(u) {
                None => r matches Ok(None),
                Some((h, p)) => r matches Ok(Some((host, port))) && host@ == h && port == p,
            },
        },
{
    let parsed = match parse_url(url) {
        Ok(u) => u,
        Err(e) => {
            let mut m = "Invalid URL: ".to_string();
            m.append(e.as_str());
            return Err(ApiError::BadRequest(m));
        },
    };
    let ParsedUrl { scheme, host, ipv4, port } = parsed;
    match host {
        None => Ok(None),
        Some(h) => {
            if ipv4.is_some() {
                return Ok(None);
            }
            let p = match port {
                Some(p) => p,
                None => if str_eq(scheme.as_str(), "https") {
                    443
                } else {
                    80
                },
            };
            Ok(Some((h, p)))
        },
    }
}

/// `Hostname '<host>'` followed by `rest`.
pub open spec fn hostname_message(host: Seq<char>, rest: Seq<char>) -> Seq<char> {
    "Hostname '"@ + host + "'"@ + rest
}

/// Whether the addresses a host resolved to are acceptable: there must be
/// some, and none may be reserved.
pub fn check_resolved_addresses(host: &str, resolved: Result<Vec<IpAddress>, String>) -> (r: Result<
    (),
    ApiError,
>)
    ensures
        match resolved {
            Err(e) => r matches Err(ApiError::BadRequest(m)) && m@ == "Failed to resolve hostname '"@ + host@
                + "': "@ + e@,
            Ok(addrs) => if addrs@.len() == 0 {
                r matches Err(ApiError::BadRequest(m)) && m@ == hostname_message(
                    host@,
                    " did not resolve to any IP addresses"@,
                )
            } else if exists|i: int| 0 <= i < addrs@.len() && ip_reserved(#[trigger] addrs@[i]) {
                r matches Err(ApiError::BadRequest(m)) && m@ == hostname_message(
                    host@,
                    " resolves to a private or reserved IP address, which is not allowed for security reasons"@,
                )
            } else {
                r is Ok
            },
        },
{
    let addrs = match resolved {
        Err(e) => {
            let mut m = "Failed to resolve hostname '".to_string();
            m.append(host);
            m.append("': ");
            m.append(e.as_str());
            return Err(ApiError::BadRequest(m));
        },
        Ok(a) => a,
    };
    if addrs.len() == 0 {
        let mut m = "Hostname '".to_string();
        m.append(host);
        m.append("'");
        m.append(" did not resolve to any IP addresses");
        return Err(ApiError::BadRequest(m));
    }
    let mut i: usize = 0;
    #[verifier::loop_isolation(false)]
    while i < addrs.len()
        invariant
            i <= addrs.len(),
            forall|j: int| 0 <= j < i ==> !ip_reserved(#[trigger] addrs@[j]),
        decreases addrs.len() - i,
    {
        if is_private_or_reserved_ip(&addrs[i]) {
            assert(ip_reserved(addrs@[i as int]));
            let mut m = "Hostname '".to_string();
            m.append(host);
            m.append("'");
            m.append(
                " resolves to a private or reserved IP address, which is not allowed for security reasons",
            );
            return Err(ApiError::BadRequest(m));
        }
        i = i + 1;
    }
    Ok(())
}

// ==================== Creating and updating upstreams ====================

/// The first refusal among `checks`, in order.
pub open spec fn first_problem(checks: Seq<Option<Seq<char>>>) -> Option<Seq<char>>
    decreases checks.len(),
{
    if checks.len() == 0 {
        None
    } else {
        match checks[0] {
            Some(m) => Some(m),
            None => first_problem(checks.skip(1)),
        }
    }
}

/// Turns a refusal into the API's `BadRequest`.
pub open spec fn refused_with(r: Result<(), ApiError>, p: Option<Seq<char>>) -> bool {
    match p {
        None => r is Ok,
        Some(m) => r matches Err(ApiError::BadRequest(e)) && e@ == m,
    }
}

/// The checks on a new upstream made before its host is looked up: its
/// name, display name and URL, in that order.
pub fn check_new_upstream(request: &CreateUpstreamRequest) -> (r: Result<(), ApiError>)
    ensures
        refused_with(
            r,
            first_problem(
                seq![
                    upstream_name_problem(request.name@),
                    display_name_problem(request.display_name@),
                    upstream_url_problem(request.url@),
                ],
            ),
        ),
{
    proof {
        reveal_with_fuel(first_problem, 4);
    }
    validate_upstream_name(request.name.as_str())?;
    validate_display_name(request.display_name.as_str())?;
    validate_upstream_url(request.url.as_str())?;
    Ok(())
}

/// The first route of `routes[k..]` whose pattern is refused, and why.
pub open spec fn first_route_problem(routes: Seq<CreateRouteRequest>, k: int) -> Option<Seq<char>>
    decreases routes.len() - k,
{
    if k < 0 || k >= routes.len() {
        None
    } else {
        match route_pattern_problem(routes[k].pattern@) {
            Some(m) => Some(m),
            None => first_route_problem(routes, k + 1),
        }
    }
}

/// The checks on a new upstream made after its host was looked up: its
/// registry, each route pattern in turn, and that no upstream has its name.
pub fn check_new_upstream_rest(request: &CreateUpstreamRequest, name_taken: bool) -> (r: Result<
    (),
    ApiError,
>)
    ensures
        refused_with(
            r,
            first_problem(
                seq![
                    registry_name_problem(request.registry@),
                    first_route_problem(request.routes@, 0),
                    if name_taken {
                        Some("Upstream with name '"@ + request.name@ + "' already exists"@)
                    } else {
                        None
                    },
                ],
            ),
        ),
{
    proof {
        reveal_with_fuel(first_problem, 4);
    }
    validate_registry_name(request.registry.as_str())?;
    let mut k: usize = 0;
    #[verifier::loop_isolation(false)]
    while k < request.routes.len()
        invariant
            k <= request.routes@.len(),
            first_route_problem(request.routes@, 0) == first_route_problem(request.routes@, k as int),
        decreases request.routes.len() - k,
    {
        validate_route_pattern(request.routes[k].pattern.as_str())?;
        k = k + 1;
    }
    if name_taken {
        let mut m = "Upstream with name '".to_string();
        m.append(request.name.as_str());
        m.append("' already exists");
        return Err(ApiError::BadRequest(m));
    }
    Ok(())
}

/// The configuration of a new upstream: the request's settings, its
/// display name kept, no projects, and its routes.
pub fn new_upstream_config(request: CreateUpstreamRequest) -> (c: UpstreamConfig)
    ensures
        c.name == request.name,
        c.display_name == Some(request.display_name),
        c.url == request.url,
        c.registry == request.registry,
        c.projects@.len() == 0,
        c.username == request.username,
        c.password == request.password,
        c.skip_tls_verify == request.skip_tls_verify,
        c.priority == request.priority,
        c.enabled == request.enabled,
        c.cache_isolation == request.cache_isolation,
        c.is_default == request.is_default,
        c.routes@.len() == request.routes@.len(),
        forall|i: int|
            0 <= i < c.routes@.len() ==> (#[trigger] c.routes@[i]).pattern == request.routes@[i].pattern
                && c.routes@[i].priority == request.routes@[i].priority,
{
    let mut routes: Vec<UpstreamRouteConfig> = Vec::new();
    let mut k: usize = 0;
    while k < request.routes.len()
        invariant
            k <= request.routes@.len(),
            routes@.len() == k,
            forall|i: int|
                0 <= i < k ==> (#[trigger] routes@[i]).pattern == request.routes@[i].pattern
                    && routes@[i].priority == request.routes@[i].priority,
        decreases request.routes.len() - k,
    {
        routes.push(
            UpstreamRouteConfig {
                pattern: request.routes[k].pattern.clone(),
                priority: request.routes[k].priority,
            },
        );
        k = k + 1;
    }
    UpstreamConfig {
        name: request.name,
        display_name: Some(request.display_name),
        url: request.url,
        registry: request.registry,
        projects: Vec::new(),
        username: request.username,
        password: request.password,
        skip_tls_verify: request.skip_tls_verify,
        priority: request.priority,
        enabled: request.enabled,
        cache_isolation: request.cache_isolation,
        is_default: request.is_default,
        routes,
    }
}

/// The checks on an upstream update made before a new URL's host is looked
/// up: its display name and URL, when given.
pub fn check_upstream_update(request: &UpdateUpstreamRequest) -> (r: Result<(), ApiError>)
    ensures
        refused_with(
            r,
            first_problem(
                seq![
                    match request.display_name {
                        Some(d) => display_name_problem(d@),
                        None => None,
                    },
                    match request.url {
                        Some(u) => upstream_url_problem(u@),
                        None => None,
                    },
                ],
            ),
        ),
{
    proof {
        reveal_with_fuel(first_problem, 3);
    }
    if let Some(d) = &request.display_name {
        validate_display_name(d.as_str())?;
    }
    if let Some(u) = &request.url {
        validate_upstream_url(u.as_str())?;
    }
    Ok(())
}

/// The check on an upstream update made after a new URL's host was looked
/// up: its registry, when given.
pub fn check_upstream_update_rest(request: &UpdateUpstreamRequest) -> (r: Result<(), ApiError>)
    ensures
        refused_with(
            r,
            match request.registry {
                Some(g) => registry_name_problem(g@),
                None => None,
            },
        ),
{
    if let Some(g) = &request.registry {
        validate_registry_name(g.as_str())?;
    }
    Ok(())
}

/// `o`, or `d` when `o` is none.
pub open spec fn or_else<T>(o: Option<T>, d: T) -> T {
    match o {
        Some(v) => v,
        None => d,
    }
}

/// An upstream after an update: each setting the request gives replaces
/// the existing one; the display name falls back to the existing display
/// name, then to the name; name, projects and routes are kept (projects
/// are replaced when `projects` is given).
pub fn updated_upstream_config(
    existing: UpstreamConfig,
    request: UpdateUpstreamRequest,
    projects: Option<Vec<UpstreamProjectConfig>>,
) -> (c: UpstreamConfig)
    ensures
        c.name == existing.name,
        c.display_name == Some(
            or_else(request.display_name, or_else(existing.display_name, existing.name)),
        ),
        c.url == or_else(request.url, existing.url),
        c.registry == or_else(request.registry, existing.registry),
        c.projects == or_else(projects, existing.projects),
        c.username == (match request.username {
            Some(u) => Some(u),
            None => existing.username,
        }),
        c.password == (match request.password {
            Some(p) => Some(p),
            None => existing.password,
        }),
        c.skip_tls_verify == or_else(request.skip_tls_verify, existing.skip_tls_verify),
        c.priority == or_else(request.priority, existing.priority),
        c.enabled == or_else(request.enabled, existing.enabled),
        c.cache_isolation == or_else(request.cache_isolation, existing.cache_isolation),
        c.is_default == or_else(request.is_default, existing.is_default),
        c.routes == existing.routes,
{
    let UpstreamConfig {
        name,
        display_name,
        url,
        registry,
        projects: old_projects,
        username,
        password,
        skip_tls_verify,
        priority,
        enabled,
        cache_isolation,
        is_default,
        routes,
    } = existing;
    let UpdateUpstreamRequest {
        display_name: new_display_name,
        url: new_url,
        registry: new_registry,
        username: new_username,
        password: new_password,
        skip_tls_verify: new_skip_tls_verify,
        priority: new_priority,
        enabled: new_enabled,
        cache_isolation: new_cache_isolation,
        is_default: new_is_default,
    } = request;
    let display_name = match new_display_name {
        Some(d) => d,
        None => match display_name {
            Some(d) => d,
            None => name.clone(),
        },
    };
    UpstreamConfig {
        name,
        display_name: Some(display_name),
        url: match new_url {
            Some(u) => u,
            None => url,
        },
        registry: match new_registry {
            Some(g) => g,
            None => registry,
        },
        projects: match projects {
            Some(p) => p,
            None => old_projects,
        },
        username: match new_username {
            Some(u) => Some(u),
            None => username,
        },
        password: match new_password {
            Some(p) => Some(p),
            None => password,
        },
        skip_tls_verify: match new_skip_tls_verify {
            Some(b) => b,
            None => skip_tls_verify,
        },
        priority: match new_priority {
            Some(p) => p,
            None => priority,
        },
        enabled: match new_enabled {
            Some(b) => b,
            None => enabled,
        },
        cache_isolation: match new_cache_isolation {
            Some(c) => c,
            None => cache_isolation,
        },
        is_default: match new_is_default {
            Some(b) => b,
            None => is_default,
        },
        routes,
    }
}

// ==================== Responses ====================

/// The pattern a project matches: its own, or `<name>/*`.
pub open spec fn effective_pattern(p: UpstreamProjectConfig) -> Seq<char> {
    match p.pattern {
        Some(pat) => pat@,
        None => p.name@ + "/*"@,
    }
}

/// How a project of an upstream is reported.
pub fn project_response(p: &UpstreamProjectConfig) -> (r: UpstreamProjectResponse)
    ensures
        r.name == p.name,
        r.pattern == p.pattern,
        r.effective_pattern@ == effective_pattern(*p),
        r.priority == p.priority,
        r.is_default == p.is_default,
{
    let effective = match &p.pattern {
        Some(pat) => pat.clone(),
        None => {
            let mut e = p.name.clone();
            e.append("/*");
            e
        },
    };
    UpstreamProjectResponse {
        name: p.name.clone(),
        pattern: match &p.pattern {
            Some(pat) => Some(pat.clone()),
            None => None,
        },
        effective_pattern: effective,
        priority: p.priority,
        is_default: p.is_default,
    }
}

/// How an upstream at position `idx` is reported at time `now` (the
/// configuration keeps no timestamps): credentials only as whether a user
/// name is set.
pub fn upstream_config_to_response(config: &UpstreamConfig, idx: usize, now: &str) -> (r:
    UpstreamResponse)
    requires
        idx <= i64::MAX,
    ensures
        r.id == idx as i64,
        r.name == config.name,
        r.display_name@ == crate::config::display_name_spec(*config),
        r.url == config.url,
        r.registry == config.registry,
        r.projects@.len() == config.projects@.len(),
        forall|i: int|
            0 <= i < r.projects@.len() ==> (#[trigger] r.projects@[i]).name == config.projects@[i].name
                && r.projects@[i].pattern == config.projects@[i].pattern
                && r.projects@[i].effective_pattern@ == effective_pattern(config.projects@[i])
                && r.projects@[i].priority == config.projects@[i].priority
                && r.projects@[i].is_default == config.projects@[i].is_default,
        r.uses_multi_project == (config.projects@.len() > 0),
        r.skip_tls_verify == config.skip_tls_verify,
        r.priority == config.priority,
        r.enabled == config.enabled,
        r.cache_isolation == config.cache_isolation,
        r.is_default == config.is_default,
        r.has_credentials == config.username is Some,
        r.created_at@ == now@,
        r.updated_at@ == now@,
{
    let mut projects: Vec<UpstreamProjectResponse> = Vec::new();
    let mut k: usize = 0;
    while k < config.projects.len()
        invariant
            k <= config.projects@.len(),
            projects@.len() == k,
            forall|i: int|
                0 <= i < k ==> (#[trigger] projects@[i]).name == config.projects@[i].name
                    && projects@[i].pattern == config.projects@[i].pattern
                    && projects@[i].effective_pattern@ == effective_pattern(config.projects@[i])
                    && projects@[i].priority == config.projects@[i].priority
                    && projects@[i].is_default == config.projects@[i].is_default,
        decreases config.projects.len() - k,
    {
        projects.push(project_response(&config.projects[k]));
        k = k + 1;
    }
    UpstreamResponse {
        id: idx as i64,
        name: config.name.clone(),
        display_name: config.display_name().to_string(),
        url: config.url.clone(),
        registry: config.registry.clone(),
        projects,
        uses_multi_project: config.uses_multi_project(),
        skip_tls_verify: config.skip_tls_verify,
        priority: config.priority,
        enabled: config.enabled,
        cache_isolation: config.cache_isolation.clone(),
        is_default: config.is_default,
        has_credentials: config.username.is_some(),
        created_at: now.to_string(),
        updated_at: now.to_string(),
    }
}

/// How route `idx` of an upstream is reported at time `now`.
pub fn route_config_to_response(route: &UpstreamRouteConfig, idx: usize, now: &str) -> (r:
    UpstreamRouteResponse)
    requires
        idx <= i64::MAX,
    ensures
        r.id == idx as i64,
        r.upstream_id == 0,
        r.pattern == route.pattern,
        r.priority == route.priority,
        r.created_at@ == now@,
{
    UpstreamRouteResponse {
        id: idx as i64,
        upstream_id: 0,
        pattern: route.pattern.clone(),
        priority: route.priority,
        created_at: now.to_string(),
    }
}

// ==================== Other decisions ====================

/// Seconds that must pass between two reloads of the upstream configuration.
pub const RELOAD_COOLDOWN_SECS: u64 = 5;

/// Whether a reload may run at time `now` (seconds since the epoch) when the
/// last one ran at `last_reload`: refused, with the seconds left to wait,
/// within the cooldown.
pub fn reload_cooldown(now: u64, last_reload: u64) -> (r: Result<(), ApiError>)
    requires
        last_reload <= now,
    ensures
        if now - last_reload < RELOAD_COOLDOWN_SECS {
            r matches Err(ApiError::BadRequest(m)) && m@ == "Rate limit exceeded. Please wait "@ + dec(
                (RELOAD_COOLDOWN_SECS - (now - last_reload)) as nat,
            ) + " seconds before reloading again."@
        } else {
            r is Ok
        },
{
    if now - last_reload < RELOAD_COOLDOWN_SECS {
        let wait_time = RELOAD_COOLDOWN_SECS - (now - last_reload);
        let mut m = "Rate limit exceeded. Please wait ".to_string();
        crate::numfmt::push_decimal(&mut m, wait_time);
        m.append(" seconds before reloading again.");
        return Err(ApiError::BadRequest(m));
    }
    Ok(())
}

/// The error for an upstream that does not exist.
pub fn upstream_not_found(name: &str) -> (e: ApiError)
    ensures
        e matches ApiError::NotFound(m) && m@ == "Upstream: "@ + name@,
{
    let mut m = "Upstream: ".to_string();
    m.append(name);
    ApiError::NotFound(m)
}

/// How a failure to change the stored upstreams is reported: as the
/// upstream missing when its message says "not found", else as internal.
pub fn config_change_failure(message: String, name: &str) -> (e: ApiError)
    ensures
        if contains_seq(message@, "not found"@) {
            e matches ApiError::NotFound(m) && m@ == "Upstream: "@ + name@
        } else {
            e matches ApiError::Internal(m) && m@ == message@
        },
{
    let mv = chars_of(message.as_str());
    let nf = chars_of("not found");
    if contains_exec(&mv, &nf) {
        upstream_not_found(name)
    } else {
        ApiError::Internal(message)
    }
}

/// How a failed health check of an upstream is reported: as the upstream
/// missing when its message says "not found" or "NotFound", else as
/// internal.
pub fn health_check_failure(message: String, name: &str) -> (e: ApiError)
    ensures
        if contains_seq(message@, "not found"@) || contains_seq(message@, "NotFound"@) {
            e matches ApiError::NotFound(m) && m@ == "Upstream: "@ + name@
        } else {
            e matches ApiError::Internal(m) && m@ == message@
        },
{
    let mv = chars_of(message.as_str());
    let nf = chars_of("not found");
    let nf2 = chars_of("NotFound");
    if contains_exec(&mv, &nf) || contains_exec(&mv, &nf2) {
        upstream_not_found(name)
    } else {
        ApiError::Internal(message)
    }
}

/// How an upstream's health is reported (upstreams are not numbered).
pub fn health_response(h: &crate::upstream_manager::UpstreamHealth) -> (r: crate::api_types::UpstreamHealthResponse)
    ensures
        r.upstream_id == 0,
        r.name == h.name,
        r.healthy == h.healthy,
        r.last_check == h.last_check,
        r.last_error == h.last_error,
        r.consecutive_failures == h.consecutive_failures,
{
    crate::api_types::UpstreamHealthResponse {
        upstream_id: 0,
        name: h.name.clone(),
        healthy: h.healthy,
        last_check: h.last_check.clone(),
        last_error: match &h.last_error {
            Some(e) => Some(e.clone()),
            None => None,
        },
        consecutive_failures: h.consecutive_failures,
    }
}

/// Removes route `idx` of an upstream; refused when there is no such route.
pub fn remove_route(upstream: &mut UpstreamConfig, idx: usize) -> (r: Result<(), ApiError>)
    ensures
        if idx < old(upstream).routes@.len() {
            &&& r is Ok
            &&& final(upstream).routes@ == old(upstream).routes@.remove(idx as int)
        } else {
            &&& r matches Err(ApiError::NotFound(m)) && m@ == "Route: "@ + dec(idx as nat)
            &&& final(upstream).routes@ == old(upstream).routes@
        },
        final(upstream).name == old(upstream).name,
        final(upstream).url == old(upstream).url,
        final(upstream).registry == old(upstream).registry,
        final(upstream).projects == old(upstream).projects,
        final(upstream).priority == old(upstream).priority,
        final(upstream).enabled == old(upstream).enabled,
        final(upstream).is_default == old(upstream).is_default,
{
    if idx >= upstream.routes.len() {
        let mut m = "Route: ".to_string();
        crate::numfmt::push_decimal(&mut m, idx as u64);
        return Err(ApiError::NotFound(m));
    }
    upstream.routes.remove(idx);
    Ok(())
}

/// The outcome of testing a connection to an upstream, as reported: whether
/// the client could be made, then whether it answered a ping.
pub fn connection_test_response(outcome: Result<Result<bool, String>, String>) -> (r: TestUpstreamResponse)
    ensures
        match outcome {
            Err(e) => !r.success && r.message@ == "Failed to create client: "@ + e@,
            Ok(Err(e)) => !r.success && r.message@ == "Connection failed: "@ + e@,
            Ok(Ok(true)) => r.success && r.message@ == "Connection successful"@,
            Ok(Ok(false)) => !r.success && r.message@ == "Ping returned false"@,
        },
{
    match outcome {
        Err(e) => {
            let mut m = "Failed to create client: ".to_string();
            m.append(e.as_str());
            TestUpstreamResponse { success: false, message: m }
        },
        Ok(Err(e)) => {
            let mut m = "Connection failed: ".to_string();
            m.append(e.as_str());
            TestUpstreamResponse { success: false, message: m }
        },
        Ok(Ok(true)) => TestUpstreamResponse { success: true, message: "Connection successful".to_string() },
        Ok(Ok(false)) => TestUpstreamResponse { success: false, message: "Ping returned false".to_string() },
    }
}

} // verus!
