//! Data models shared by the cache, the registry service and the API.

use vstd::prelude::*;

verus! {

/// Upstream route pattern, as stored.
pub struct UpstreamRoute {
    pub id: i64,
    pub upstream_id: i64,
    /// Pattern to match repository paths (supports glob patterns)
    pub pattern: String,
    /// Priority for this route (lower = higher priority)
    pub priority: i32,
    /// Creation time, seconds since the Unix epoch
    pub created_at: i64,
}

} // verus!
