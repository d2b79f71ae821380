//! Cache policy: limits, how much must be freed, which entries are evicted
//! or expire, and how hits and misses are counted.

use vstd::prelude::*;

use crate::db::CacheStats;
use crate::errors::CoreError;
use crate::storage::StorageError;
use crate::text::{lower_text, lowered, str_eq};

verus! {

/// Error of parsing an eviction policy: the text that was not understood.
#[derive(Debug)]
pub struct ParseEvictionPolicyError(pub String);

impl ParseEvictionPolicyError {
    /// The error's message.
    pub fn message(&self) -> (m: String)
        ensures
            m@ == "Invalid eviction policy: "@ + self.0@,
    {
        let mut m = "Invalid eviction policy: ".to_string();
        m.append(self.0.as_str());
        m
    }
}

/// Eviction policy for cache management.
#[derive(Clone, Copy, Debug, PartialEq, Eq, Structural)]
pub enum EvictionPolicy {
    /// Least recently used first.
    Lru,
    /// Least frequently used first.
    Lfu,
    /// Oldest first.
    Fifo,
}

impl Default for EvictionPolicy {
    fn default() -> (p: Self)
        ensures
            p == EvictionPolicy::Lru,
    {
        EvictionPolicy::Lru
    }
}

impl EvictionPolicy {
    /// The policy's name.
    pub open spec fn name(&self) -> Seq<char> {
        match self {
            EvictionPolicy::Lru => "lru"@,
            EvictionPolicy::Lfu => "lfu"@,
            EvictionPolicy::Fifo => "fifo"@,
        }
    }

    /// The policy's name.
    pub fn as_str(&self) -> (s: &'static str)
        ensures
            s@ == self.name(),
    {
        match self {
            EvictionPolicy::Lru => "lru",
            EvictionPolicy::Lfu => "lfu",
            EvictionPolicy::Fifo => "fifo",
        }
    }

    /// The policy named by `s`, in any case.
    pub fn from_str(s: &str) -> (r: Result<EvictionPolicy, ParseEvictionPolicyError>)
        ensures
            match r {
                Ok(p) => p.name() == lowered(s@),
                Err(e) => e.0@ == s@ && lowered(s@) != "lru"@ && lowered(s@) != "lfu"@ && lowered(s@)
                    != "fifo"@,
            },
    {
        let lower = lower_text(s);
        let l = lower.as_str();
        if str_eq(l, "lru") {
            Ok(EvictionPolicy::Lru)
        } else if str_eq(l, "lfu") {
            Ok(EvictionPolicy::Lfu)
        } else if str_eq(l, "fifo") {
            Ok(EvictionPolicy::Fifo)
        } else {
            Err(ParseEvictionPolicyError(s.to_string()))
        }
    }
}

/// Reading back the name of a policy gives the policy: each name is its
/// own lowercase form, and no two policies share a name, so
/// `EvictionPolicy::from_str(p.as_str())` is `Ok(p)`.
pub proof fn lemma_policy_name_round_trip(p: EvictionPolicy)
    ensures
        lowered(p.name()) == p.name(),
        forall|q: EvictionPolicy| #[trigger] q.name() == p.name() ==> q == p,
{
    reveal_strlit("lru");
    reveal_strlit("lfu");
    reveal_strlit("fifo");
    crate::text::lemma_lowered_of_small_ascii(p.name());
    assert("lru"@[1] != "lfu"@[1]);
    assert("lru"@.len() != "fifo"@.len());
    assert("lfu"@.len() != "fifo"@.len());
}

/// Limits of the cache.
pub struct CacheConfig {
    /// Maximum cache size in bytes.
    pub max_size: u64,
    /// Days an entry is kept after its last access.
    pub retention_days: u32,
    pub eviction_policy: EvictionPolicy,
}

impl Default for CacheConfig {
    /// 10 GiB, 30 days, least recently used first.
    fn default() -> (c: Self)
        ensures
            c.max_size == 10737418240,
            c.retention_days == 30,
            c.eviction_policy == EvictionPolicy::Lru,
    {
        CacheConfig { max_size: 10737418240, retention_days: 30, eviction_policy: EvictionPolicy::Lru }
    }
}

/// How many entries are listed, in the policy's order (see
/// [`eviction_candidates_sql`]), to choose what to evict.
pub const EVICTION_BATCH: i64 = 100;

impl EvictionPolicy {
    /// The column eviction candidates are listed by, smallest first: last
    /// access for least recently used, access count for least frequently
    /// used, creation time for first in, first out.
    pub open spec fn order_column_spec(&self) -> Seq<char> {
        match self {
            EvictionPolicy::Lru => "last_accessed_at"@,
            EvictionPolicy::Lfu => "access_count"@,
            EvictionPolicy::Fifo => "created_at"@,
        }
    }

    /// The column eviction candidates are listed by, smallest first.
    pub fn order_column(&self) -> (c: &'static str)
        ensures
            c@ == self.order_column_spec(),
    {
        match self {
            EvictionPolicy::Lru => "last_accessed_at",
            EvictionPolicy::Lfu => "access_count",
            EvictionPolicy::Fifo => "created_at",
        }
    }
}

/// The query that lists up to `?` (bound to [`EVICTION_BATCH`]) cache
/// entries in the order the policy evicts them.
pub fn eviction_candidates_sql(policy: EvictionPolicy) -> (s: String)
    ensures
        s@ == "SELECT id, entry_type, repository, reference, digest, content_type, size, created_at, last_accessed_at, access_count, storage_path FROM cache_entries ORDER BY "@
            + policy.order_column_spec() + " ASC LIMIT ?"@,
{
    let mut s =
        "SELECT id, entry_type, repository, reference, digest, content_type, size, created_at, last_accessed_at, access_count, storage_path FROM cache_entries ORDER BY ".to_string();
    s.append(policy.order_column());
    s.append(" ASC LIMIT ?");
    s
}

/// How many entries are listed when the cache is cleared or expired.
pub const MAINTENANCE_BATCH: i64 = 10000;

/// The bytes to free before `required` more bytes fit under `max_size`
/// when `current` bytes are cached: none when they fit.
pub fn space_to_free(current: u64, required: u64, max_size: u64) -> (n: u64)
    requires
        current + required <= u64::MAX,
    ensures
        n == if current + required <= max_size {
            0
        } else {
            current + required - max_size
        },
{
    if current + required <= max_size {
        0
    } else {
        current + required - max_size
    }
}

/// The bytes by which `current` exceeds `max_size`.
pub fn size_overage(current: u64, max_size: u64) -> (n: u64)
    ensures
        n == if current <= max_size {
            0
        } else {
            current - max_size
        },
{
    if current <= max_size {
        0
    } else {
        current - max_size
    }
}

/// The sum of `sizes`.
pub open spec fn total(sizes: Seq<u64>) -> nat
    decreases sizes.len(),
{
    if sizes.len() == 0 {
        0
    } else {
        total(sizes.drop_last()) + sizes.last() as nat
    }
}

proof fn lemma_total_prefix(sizes: Seq<u64>, k: int)
    requires
        0 <= k < sizes.len(),
    ensures
        total(sizes.take(k + 1)) == total(sizes.take(k)) + sizes[k],
        total(sizes.take(k)) <= total(sizes),
    decreases sizes.len() - k,
{
    assert(sizes.take(k + 1).drop_last() =~= sizes.take(k));
    if k + 1 < sizes.len() {
        lemma_total_prefix(sizes, k + 1);
    } else {
        assert(sizes.take(k + 1) =~= sizes);
    }
}

/// How many entries to evict, and the bytes that frees: entries are
/// evicted in list order while less than `need` bytes have been freed.
pub fn eviction_plan(sizes: &Vec<u64>, need: u64) -> (r: (usize, u64))
    requires
        total(sizes@) <= u64::MAX,
    ensures
        r.0 <= sizes@.len(),
        r.1 == total(sizes@.take(r.0 as int)),
        r.0 < sizes@.len() ==> r.1 >= need,
        forall|j: int| 0 <= j < r.0 ==> total(sizes@.take(j)) < need,
        total(sizes@) >= need ==> r.1 >= need,
{
    let mut freed: u64 = 0;
    let mut k: usize = 0;
    assert(sizes@.take(0) =~= Seq::<u64>::empty());
    while k < sizes.len() && freed < need
        invariant
            k <= sizes@.len(),
            total(sizes@) <= u64::MAX,
            freed == total(sizes@.take(k as int)),
            forall|j: int| 0 <= j < k ==> total(sizes@.take(j)) < need,
        decreases sizes.len() - k,
    {
        proof {
            lemma_total_prefix(sizes@, k as int);
            if k + 1 < sizes@.len() {
                lemma_total_prefix(sizes@, k + 1);
            } else {
                assert(sizes@.take(k + 1) =~= sizes@);
            }
        }
        freed = freed + sizes[k];
        k = k + 1;
    }
    if k == sizes.len() {
        assert(sizes@.take(k as int) =~= sizes@);
    }
    (k, freed)
}

/// The moment before which an entry last accessed has expired: `now`
/// less the retention period, in seconds.
pub fn expiry_cutoff(now_secs: i64, retention_days: u32) -> (c: i64)
    requires
        now_secs - retention_days * 86400 >= i64::MIN,
    ensures
        c == now_secs - retention_days * 86400,
{
    now_secs - (retention_days as i64) * 86400
}

/// The positions, in order, of the times in `ts` before `cutoff`.
pub open spec fn positions_before(ts: Seq<i64>, cutoff: i64) -> Seq<int>
    decreases ts.len(),
{
    if ts.len() == 0 {
        Seq::empty()
    } else if ts.last() < cutoff {
        positions_before(ts.drop_last(), cutoff).push(ts.len() - 1)
    } else {
        positions_before(ts.drop_last(), cutoff)
    }
}

/// The positions of the entries, last accessed at the given times, that
/// expired before `cutoff`.
pub fn expired_entries(last_accessed: &Vec<i64>, cutoff: i64) -> (r: Vec<usize>)
    ensures
        r@.map_values(|i: usize| i as int) == positions_before(last_accessed@, cutoff),
{
    let mut r: Vec<usize> = Vec::new();
    let mut k: usize = 0;
    assert(last_accessed@.take(0) =~= Seq::<i64>::empty());
    assert(r@.map_values(|i: usize| i as int) =~= Seq::<int>::empty());
    while k < last_accessed.len()
        invariant
            k <= last_accessed@.len(),
            r@.map_values(|i: usize| i as int) == positions_before(last_accessed@.take(k as int), cutoff),
        decreases last_accessed.len() - k,
    {
        let ghost before = r@;
        proof {
            let t = last_accessed@.take(k + 1);
            assert(t.drop_last() =~= last_accessed@.take(k as int));
            assert(t.last() == last_accessed@[k as int]);
        }
        if last_accessed[k] < cutoff {
            r.push(k);
            assert(r@.map_values(|i: usize| i as int) =~= before.map_values(|i: usize| i as int).push(k as int));
        }
        k = k + 1;
    }
    assert(last_accessed@.take(last_accessed@.len() as int) =~= last_accessed@);
    r
}

/// Statistics with the stored totals, when they could be read, over the
/// counted ones; hits and misses are always the counted ones.
pub fn merged_stats(counted: &CacheStats, stored: Option<CacheStats>) -> (s: CacheStats)
    ensures
        s.hit_count == counted.hit_count,
        s.miss_count == counted.miss_count,
        match stored {
            Some(d) => s.total_size == d.total_size && s.entry_count == d.entry_count && s.manifest_count
                == d.manifest_count && s.blob_count == d.blob_count,
            None => s.total_size == counted.total_size && s.entry_count == counted.entry_count
                && s.manifest_count == counted.manifest_count && s.blob_count == counted.blob_count,
        },
{
    match stored {
        Some(d) => CacheStats {
            total_size: d.total_size,
            entry_count: d.entry_count,
            manifest_count: d.manifest_count,
            blob_count: d.blob_count,
            hit_count: counted.hit_count,
            miss_count: counted.miss_count,
        },
        None => CacheStats {
            total_size: counted.total_size,
            entry_count: counted.entry_count,
            manifest_count: counted.manifest_count,
            blob_count: counted.blob_count,
            hit_count: counted.hit_count,
            miss_count: counted.miss_count,
        },
    }
}

/// Counts a hit.
pub fn record_hit(stats: &mut CacheStats)
    requires
        old(stats).hit_count < i64::MAX,
    ensures
        *final(stats) == (CacheStats { hit_count: (old(stats).hit_count + 1) as i64, ..*old(stats) }),
{
    stats.hit_count = stats.hit_count + 1;
}

/// Counts a miss.
pub fn record_miss(stats: &mut CacheStats)
    requires
        old(stats).miss_count < i64::MAX,
    ensures
        *final(stats) == (CacheStats { miss_count: (old(stats).miss_count + 1) as i64, ..*old(stats) }),
{
    stats.miss_count = stats.miss_count + 1;
}

/// What reading a cached object's data came to.
pub enum CacheRead {
    /// The data was read: count a hit and touch the entry.
    Hit,
    /// The entry has no data in storage: delete the entry and count a miss.
    Stale,
    /// Storage failed.
    Failed(CoreError),
}

/// What a read from storage of an entry that the database lists means.
pub fn cache_read_outcome(read: Result<(), StorageError>) -> (r: CacheRead)
    ensures
        match read {
            Ok(()) => r is Hit,
            Err(StorageError::NotFound(_)) => r is Stale,
            Err(e) => r == CacheRead::Failed(CoreError::Storage(e)),
        },
{
    match read {
        Ok(()) => CacheRead::Hit,
        Err(StorageError::NotFound(_)) => CacheRead::Stale,
        Err(e) => CacheRead::Failed(CoreError::Storage(e)),
    }
}

/// Distinct eviction policies have distinct names.
pub proof fn lemma_policy_names_distinct(a: EvictionPolicy, b: EvictionPolicy)
    requires
        a.name() == b.name(),
    ensures
        a == b,
{
    reveal_strlit("lru");
    reveal_strlit("lfu");
    reveal_strlit("fifo");
    assert("lru"@[1] != "lfu"@[1]);
}

/// Freeing the bytes [`space_to_free`] asks for makes room: what stays plus
/// what is added fits under the limit.
pub proof fn lemma_space_to_free_makes_room(current: nat, required: nat, max_size: nat)
    ensures
        ({
            let n = if current + required <= max_size {
                0
            } else {
                current + required - max_size
            };
            &&& n <= current + required
            &&& current + required - n <= max_size
        }),
{
}

} // verus!
