//! The table of loaded upstreams: which upstream serves a repository, how
//! health is tracked, and how the table is rebuilt from configuration.
//!
//! Clients for the upstreams are kept beside this table, by name.

use vstd::prelude::*;

use crate::config::{display_name_spec, UpstreamConfig};
use crate::errors::CoreError;
use crate::models::UpstreamRoute;
use crate::router::{first_match_from, route_spec_of, sort_by_priority, RouteMatcher};

verus! {

/// Health of an upstream.
pub struct UpstreamHealth {
    /// The upstream's name.
    pub upstream_name: String,
    /// The upstream's display name.
    pub name: String,
    pub healthy: bool,
    /// When the health was last checked (RFC 3339).
    pub last_check: String,
    pub last_error: Option<String>,
    pub consecutive_failures: u32,
}

/// Why an upstream was chosen.
pub enum MatchReason {
    /// One of its routes matched, with this pattern and priority.
    RouteMatch { pattern: String, priority: i32 },
    /// It is the default, or the first available one.
    DefaultFallback,
    /// It was asked for by name.
    ExplicitName(String),
}

/// A chosen upstream: its configuration and why it was chosen.
pub struct UpstreamInfo<'a> {
    pub config: &'a UpstreamConfig,
    pub match_reason: MatchReason,
}

/// A loaded upstream and its health.
pub struct UpstreamEntry {
    pub config: UpstreamConfig,
    pub health: UpstreamHealth,
}

/// The loaded upstreams, their routes, and the default upstream's name.
pub struct UpstreamManager {
    entries: Vec<UpstreamEntry>,
    route_matcher: RouteMatcher,
    default_upstream_name: Option<String>,
}

/// Index of the first entry named `name`.
pub open spec fn entry_named(es: Seq<UpstreamEntry>, name: Seq<char>) -> Option<int> {
    if exists|i: int| 0 <= i < es.len() && (#[trigger] es[i]).config.name@ == name {
        Some(choose|i: int| 0 <= i < es.len() && (#[trigger] es[i]).config.name@ == name)
    } else {
        None
    }
}

/// No two entries share a name.
pub open spec fn names_distinct(es: Seq<UpstreamEntry>) -> bool {
    forall|i: int, j: int|
        0 <= i < j < es.len() ==> (#[trigger] es[i]).config.name@ != (#[trigger] es[j]).config.name@
}

/// An upstream may serve requests while healthy, and until its third
/// failure in a row.
pub open spec fn available(e: UpstreamEntry) -> bool {
    e.health.healthy || e.health.consecutive_failures < 3
}

/// `u` has a route with this pattern.
pub open spec fn has_route(u: UpstreamConfig, pattern: Seq<char>) -> bool {
    exists|k: int| 0 <= k < u.routes@.len() && (#[trigger] u.routes@[k]).pattern@ == pattern
}

/// Index of the first entry from `k` on that is available and has a route
/// with this pattern.
pub open spec fn route_owner_from(es: Seq<UpstreamEntry>, pattern: Seq<char>, k: int) -> Option<int>
    decreases es.len() - k,
{
    if k < 0 || k >= es.len() {
        None
    } else if has_route(es[k].config, pattern) && available(es[k]) {
        Some(k)
    } else {
        route_owner_from(es, pattern, k + 1)
    }
}

/// Index of the first available entry from `k` on.
pub open spec fn first_available_from(es: Seq<UpstreamEntry>, k: int) -> Option<int>
    decreases es.len() - k,
{
    if k < 0 || k >= es.len() {
        None
    } else if available(es[k]) {
        Some(k)
    } else {
        first_available_from(es, k + 1)
    }
}

/// Which entry serves a repository, and whether by route (with the
/// matched pattern and priority) or as fallback: the first route that
/// matches, served by the first available upstream having that pattern;
/// failing that the default upstream; failing that the first available one.
pub open spec fn selection(
    es: Seq<UpstreamEntry>,
    routes: Seq<crate::router::RouteSpec>,
    default_name: Option<Seq<char>>,
    repository: Seq<char>,
) -> Option<(int, Option<(Seq<char>, i32)>)> {
    let by_route = match first_match_from(routes, repository, 0) {
        Some(m) => match route_owner_from(es, routes[m].pattern, 0) {
            Some(k) => Some((k, Some((routes[m].pattern, routes[m].priority)))),
            None => None,
        },
        None => None,
    };
    if by_route is Some {
        by_route
    } else {
        let by_default = match default_name {
            Some(n) => match entry_named(es, n) {
                Some(k) => Some((k, None::<(Seq<char>, i32)>)),
                None => None,
            },
            None => None,
        };
        if by_default is Some {
            by_default
        } else {
            match first_available_from(es, 0) {
                Some(k) => Some((k, None::<(Seq<char>, i32)>)),
                None => None,
            }
        }
    }
}

/// The health of a freshly loaded upstream: assumed healthy, checked at
/// `now`.
pub open spec fn fresh_health(h: UpstreamHealth, u: UpstreamConfig, now: Seq<char>) -> bool {
    &&& h.upstream_name == u.name
    &&& h.name@ == display_name_spec(u)
    &&& h.healthy
    &&& h.last_check@ == now
    &&& h.last_error is None
    &&& h.consecutive_failures == 0
}

/// The entries after loading `u`: it replaces an entry of the same name,
/// else it is appended.
pub open spec fn load_one(es: Seq<UpstreamEntry>, e: UpstreamEntry) -> Seq<UpstreamEntry> {
    match entry_named(es, e.config.name@) {
        Some(i) => es.update(i, e),
        None => es.push(e),
    }
}

/// The routes of upstreams as the matcher receives them: in order, each
/// numbered by its position.
pub open spec fn all_routes(us: Seq<UpstreamConfig>) -> Seq<(Seq<char>, i32)>
    decreases us.len(),
{
    if us.len() == 0 {
        Seq::empty()
    } else {
        all_routes(us.drop_last()) + us.last().routes@.map_values(
            |r: crate::config::UpstreamRouteConfig| (r.pattern@, r.priority),
        )
    }
}

/// The name of the last upstream marked as default.
pub open spec fn last_default(us: Seq<UpstreamConfig>) -> Option<Seq<char>>
    decreases us.len(),
{
    if us.len() == 0 {
        None
    } else if us.last().is_default {
        Some(us.last().name@)
    } else {
        last_default(us.drop_last())
    }
}

/// The upstreams that are enabled, in order.
pub open spec fn enabled_only(us: Seq<UpstreamConfig>) -> Seq<UpstreamConfig>
    decreases us.len(),
{
    if us.len() == 0 {
        Seq::empty()
    } else if us.last().enabled {
        enabled_only(us.drop_last()).push(us.last())
    } else {
        enabled_only(us.drop_last())
    }
}

/// Every upstream [`enabled_only`] keeps is enabled.
proof fn lemma_enabled_only_enabled(us: Seq<UpstreamConfig>)
    ensures
        forall|i: int| 0 <= i < enabled_only(us).len() ==> (#[trigger] enabled_only(us)[i]).enabled,
    decreases us.len(),
{
    if us.len() > 0 {
        lemma_enabled_only_enabled(us.drop_last());
    }
}

/// The enabled upstreams of a configuration, in order: those a reload
/// makes clients for.
pub fn enabled_upstreams(configs: Vec<UpstreamConfig>) -> (r: Vec<UpstreamConfig>)
    ensures
        r@ == enabled_only(configs@),
        forall|i: int| 0 <= i < r@.len() ==> (#[trigger] r@[i]).enabled,
{
    proof {
        lemma_enabled_only_enabled(configs@);
    }
    let mut configs = configs;
    let mut rev: Vec<UpstreamConfig> = Vec::new();
    let ghost all = configs@;
    while configs.len() > 0
        invariant
            configs@ == all.take(configs@.len() as int),
            configs@.len() <= all.len(),
            enabled_only(all) == enabled_only(configs@) + rev@.reverse(),
        decreases configs.len(),
    {
        let ghost before = configs@;
        let u = configs.pop().unwrap();
        assert(before.drop_last() =~= configs@);
        if u.enabled {
            let ghost r0 = rev@;
            rev.push(u);
            assert(rev@.reverse() =~= seq![u] + r0.reverse());
            assert(enabled_only(before) == enabled_only(configs@).push(u));
            assert(enabled_only(configs@).push(u) + r0.reverse() =~= enabled_only(configs@) + rev@.reverse());
        }
        assert(configs@ =~= all.take(configs@.len() as int));
    }
    let mut r: Vec<UpstreamConfig> = Vec::new();
    let ghost tail = rev@.reverse();
    assert(enabled_only(configs@) =~= Seq::<UpstreamConfig>::empty());
    while rev.len() > 0
        invariant
            r@ + rev@.reverse() == tail,
        decreases rev.len(),
    {
        let ghost before = rev@;
        let u = rev.pop().unwrap();
        assert(before.reverse() =~= seq![u] + rev@.reverse());
        assert(r@.push(u) + rev@.reverse() =~= r@ + before.reverse());
        r.push(u);
    }
    assert(r@ =~= r@ + rev@.reverse());
    r
}

/// The upstreams whose clients could be built, in order: `built[i]` says
/// whether the client of `us[i]` was built. An upstream whose client fails
/// is left out of a reload, routes and all.
pub open spec fn with_clients(us: Seq<UpstreamConfig>, built: Seq<bool>) -> Seq<UpstreamConfig>
    decreases us.len(),
{
    if us.len() == 0 || built.len() == 0 {
        Seq::empty()
    } else if built.last() {
        with_clients(us.drop_last(), built.drop_last()).push(us.last())
    } else {
        with_clients(us.drop_last(), built.drop_last())
    }
}

/// Leaving out upstreams keeps every one enabled when all were.
proof fn lemma_with_clients_enabled(us: Seq<UpstreamConfig>, built: Seq<bool>)
    requires
        forall|i: int| 0 <= i < us.len() ==> (#[trigger] us[i]).enabled,
    ensures
        forall|i: int| 0 <= i < with_clients(us, built).len() ==> (#[trigger] with_clients(us, built)[i]).enabled,
    decreases us.len(),
{
    if us.len() > 0 && built.len() > 0 {
        let d = us.drop_last();
        assert forall|i: int| 0 <= i < d.len() implies (#[trigger] d[i]).enabled by {
            assert(d[i] == us[i]);
        }
        lemma_with_clients_enabled(d, built.drop_last());
    }
}

/// The upstreams to reload, given for each whether its client was built:
/// those whose client failed are skipped.
pub fn upstreams_with_clients(configs: Vec<UpstreamConfig>, built: Vec<bool>) -> (r: Vec<UpstreamConfig>)
    requires
        built@.len() == configs@.len(),
    ensures
        r@ == with_clients(configs@, built@),
        (forall|i: int| 0 <= i < configs@.len() ==> (#[trigger] configs@[i]).enabled) ==> forall|i: int|
            0 <= i < r@.len() ==> (#[trigger] r@[i]).enabled,
{
    proof {
        if forall|i: int| 0 <= i < configs@.len() ==> (#[trigger] configs@[i]).enabled {
            lemma_with_clients_enabled(configs@, built@);
        }
    }
    let mut configs = configs;
    let mut built = built;
    let mut rev: Vec<UpstreamConfig> = Vec::new();
    let ghost all = configs@;
    let ghost flags = built@;
    while configs.len() > 0
        invariant
            configs@.len() == built@.len(),
            configs@ == all.take(configs@.len() as int),
            built@ == flags.take(built@.len() as int),
            configs@.len() <= all.len(),
            all.len() == flags.len(),
            with_clients(all, flags) == with_clients(configs@, built@) + rev@.reverse(),
        decreases configs.len(),
    {
        let ghost before = configs@;
        let ghost fbefore = built@;
        let u = configs.pop().unwrap();
        let ok = built.pop().unwrap();
        assert(before.drop_last() =~= configs@);
        assert(fbefore.drop_last() =~= built@);
        if ok {
            let ghost r0 = rev@;
            rev.push(u);
            assert(rev@.reverse() =~= seq![u] + r0.reverse());
            assert(with_clients(before, fbefore) == with_clients(configs@, built@).push(u));
            assert(with_clients(configs@, built@).push(u) + r0.reverse() =~= with_clients(configs@, built@)
                + rev@.reverse());
        } else {
            assert(with_clients(before, fbefore) == with_clients(configs@, built@));
        }
        assert(configs@ =~= all.take(configs@.len() as int));
        assert(built@ =~= flags.take(built@.len() as int));
    }
    let mut r: Vec<UpstreamConfig> = Vec::new();
    let ghost tail = rev@.reverse();
    assert(with_clients(configs@, built@) =~= Seq::<UpstreamConfig>::empty());
    while rev.len() > 0
        invariant
            r@ + rev@.reverse() == tail,
        decreases rev.len(),
    {
        let ghost before = rev@;
        let u = rev.pop().unwrap();
        assert(before.reverse() =~= seq![u] + rev@.reverse());
        assert(r@.push(u) + rev@.reverse() =~= r@ + before.reverse());
        r.push(u);
    }
    assert(r@ =~= r@ + rev@.reverse());
    r
}

/// The configurations of entries.
pub open spec fn configs_of(es: Seq<UpstreamEntry>) -> Seq<UpstreamConfig> {
    es.map_values(|e: UpstreamEntry| e.config)
}

/// Index of a configuration named `name`.
pub open spec fn config_named(cs: Seq<UpstreamConfig>, name: Seq<char>) -> Option<int> {
    if exists|i: int| 0 <= i < cs.len() && (#[trigger] cs[i]).name@ == name {
        Some(choose|i: int| 0 <= i < cs.len() && (#[trigger] cs[i]).name@ == name)
    } else {
        None
    }
}

/// The upstreams held after loading `us` in order: each replaces one of the
/// same name, else is appended.
pub open spec fn load_configs(us: Seq<UpstreamConfig>) -> Seq<UpstreamConfig>
    decreases us.len(),
{
    if us.len() == 0 {
        Seq::empty()
    } else {
        let cs = load_configs(us.drop_last());
        match config_named(cs, us.last().name@) {
            Some(i) => cs.update(i, us.last()),
            None => cs.push(us.last()),
        }
    }
}

/// The route specs the matcher is built from.
pub open spec fn route_specs(rs: Seq<(Seq<char>, i32)>) -> Seq<crate::router::RouteSpec> {
    rs.map_values(|r: (Seq<char>, i32)| crate::router::RouteSpec { upstream_id: 0, pattern: r.0, priority: r.1 })
}

/// Distinct names among configurations.
pub open spec fn config_names_distinct(cs: Seq<UpstreamConfig>) -> bool {
    forall|i: int, j: int| 0 <= i < j < cs.len() ==> (#[trigger] cs[i]).name@ != (#[trigger] cs[j]).name@
}

impl UpstreamManager {
    /// The loaded upstreams, in order.
    pub closed spec fn entries(&self) -> Seq<UpstreamEntry> {
        self.entries@
    }

    /// The routes, as the matcher orders them.
    pub closed spec fn routes(&self) -> Seq<crate::router::RouteSpec> {
        self.route_matcher@
    }

    /// The name of the default upstream.
    pub closed spec fn default_name(&self) -> Option<Seq<char>> {
        crate::text::opt_view(self.default_upstream_name)
    }

    /// No two loaded upstreams share a name.
    pub open spec fn wf(&self) -> bool {
        config_names_distinct(configs_of(self.entries()))
    }

    /// A table with no upstreams.
    pub fn new() -> (m: Self)
        ensures
            m.wf(),
            m.entries().len() == 0,
            m.routes().len() == 0,
            m.default_name() is None,
    {
        let m = UpstreamManager {
            entries: Vec::new(),
            route_matcher: RouteMatcher::new(Vec::new()),
            default_upstream_name: None,
        };
        assert(configs_of(m.entries@) =~= Seq::<UpstreamConfig>::empty());
        m
    }

    /// Position of the entry named `name`.
    fn position(&self, name: &String) -> (r: Option<usize>)
        requires
            self.wf(),
        ensures
            match r {
                Some(i) => i < self.entries().len() && entry_named(self.entries(), name@) == Some(i as int)
                    && config_named(configs_of(self.entries()), name@) == Some(i as int),
                None => entry_named(self.entries(), name@) is None && config_named(
                    configs_of(self.entries()),
                    name@,
                ) is None,
            },
    {
        let ghost cs = configs_of(self.entries@);
        let mut i: usize = 0;
        while i < self.entries.len()
            invariant
                i <= self.entries@.len(),
                cs == configs_of(self.entries@),
                config_names_distinct(cs),
                forall|j: int| 0 <= j < i ==> (#[trigger] self.entries@[j]).config.name@ != name@,
            decreases self.entries.len() - i,
        {
            if self.entries[i].config.name == *name {
                proof {
                    let w = choose|k: int|
                        0 <= k < self.entries@.len() && (#[trigger] self.entries@[k]).config.name@ == name@;
                    assert(0 <= i < self.entries@.len() && self.entries@[i as int].config.name@ == name@);
                    assert(cs[i as int] == self.entries@[i as int].config);
                    assert(cs[w] == self.entries@[w].config);
                    assert(w == i) by {
                        if w != i {
                            if w < i {
                                assert(cs[w].name@ != cs[i as int].name@);
                            } else {
                                assert(cs[i as int].name@ != cs[w].name@);
                            }
                        }
                    }
                    let w2 = choose|k: int| 0 <= k < cs.len() && (#[trigger] cs[k]).name@ == name@;
                    assert(0 <= i < cs.len() && cs[i as int].name@ == name@);
                    assert(w2 == i) by {
                        if w2 != i {
                            if w2 < i {
                                assert(cs[w2].name@ != cs[i as int].name@);
                            } else {
                                assert(cs[i as int].name@ != cs[w2].name@);
                            }
                        }
                    }
                }
                return Some(i);
            }
            i = i + 1;
        }
        assert forall|k: int| 0 <= k < cs.len() implies (#[trigger] cs[k]).name@ != name@ by {
            assert(cs[k] == self.entries@[k].config);
        }
        None
    }

    /// Rebuild the table from the upstreams that got clients, in
    /// configuration order, at time `now` (RFC 3339; `now_secs` in seconds).
    /// Each upstream replaces one of the same name; each starts healthy; the
    /// default is the last one marked so; every upstream's routes, in order,
    /// make up the router.
    pub fn reload(&mut self, loaded: Vec<UpstreamConfig>, now: &str, now_secs: i64)
        requires
            forall|i: int| 0 <= i < loaded@.len() ==> (#[trigger] loaded@[i]).enabled,
            all_routes(loaded@).len() <= i64::MAX,
        ensures
            final(self).wf(),
            configs_of(final(self).entries()) == load_configs(loaded@),
            forall|i: int|
                0 <= i < final(self).entries().len() ==> fresh_health(
                    (#[trigger] final(self).entries()[i]).health,
                    final(self).entries()[i].config,
                    now@,
                ),
            final(self).default_name() == last_default(loaded@),
            final(self).routes() == sort_by_priority(route_specs(all_routes(loaded@))),
    {
        let mut rest = loaded;
        let total = rest.len();
        let ghost all = rest@;
        let mut entries: Vec<UpstreamEntry> = Vec::new();
        let mut routes: Vec<UpstreamRoute> = Vec::new();
        let mut default_name: Option<String> = None;
        let mut k: usize = 0;
        proof {
            assert(all.len() == total);
            assert(all.take(0) =~= Seq::<UpstreamConfig>::empty());
            assert(configs_of(entries@) =~= Seq::<UpstreamConfig>::empty());
            assert(routes@.map_values(|r: UpstreamRoute| route_spec_of(r)) =~= route_specs(all_routes(all.take(0))));
        }
        while rest.len() > 0
            invariant
                k <= all.len(),
                all.len() <= usize::MAX,
                rest@ == all.skip(k as int),
                all_routes(all).len() <= i64::MAX,
                configs_of(entries@) == load_configs(all.take(k as int)),
                config_names_distinct(configs_of(entries@)),
                forall|i: int|
                    0 <= i < entries@.len() ==> fresh_health((#[trigger] entries@[i]).health, entries@[i].config, now@),
                crate::text::opt_view(default_name) == last_default(all.take(k as int)),
                routes@.map_values(|r: UpstreamRoute| route_spec_of(r)) == route_specs(all_routes(all.take(k as int))),
                routes@.len() == all_routes(all.take(k as int)).len(),
            decreases rest.len(),
        {
            let u = rest.remove(0);
            let ghost prefix = all.take(k as int);
            let ghost next = all.take(k + 1);
            proof {
                assert(rest@ =~= all.skip(k + 1));
                assert(u == all[k as int]);
                assert(next.drop_last() =~= prefix);
                assert(next.last() == u);
                lemma_all_routes_prefix(all, k as int);
            }
            // collect the routes
            let ghost before_routes = routes@;
            let mut j: usize = 0;
            while j < u.routes.len()
                invariant
                    j <= u.routes@.len(),
                    routes@.len() == before_routes.len() + j,
                    before_routes.len() + u.routes@.len() <= i64::MAX,
                    routes@.map_values(|r: UpstreamRoute| route_spec_of(r)) == before_routes.map_values(
                        |r: UpstreamRoute| route_spec_of(r),
                    ) + route_specs(
                        u.routes@.take(j as int).map_values(
                            |r: crate::config::UpstreamRouteConfig| (r.pattern@, r.priority),
                        ),
                    ),
                decreases u.routes.len() - j,
            {
                let id = routes.len() as i64;
                let ghost old_routes = routes@;
                routes.push(
                    UpstreamRoute {
                        id,
                        upstream_id: 0,
                        pattern: u.routes[j].pattern.clone(),
                        priority: u.routes[j].priority,
                        created_at: now_secs,
                    },
                );
                proof {
                    let f = |r: UpstreamRoute| route_spec_of(r);
                    assert(routes@.map_values(f) =~= old_routes.map_values(f).push(
                        route_spec_of(routes@.last()),
                    ));
                    let g = |r: crate::config::UpstreamRouteConfig| (r.pattern@, r.priority);
                    assert(u.routes@.take(j + 1).map_values(g) =~= u.routes@.take(j as int).map_values(g).push(
                        g(u.routes@[j as int]),
                    ));
                    assert(route_specs(u.routes@.take(j + 1).map_values(g)) =~= route_specs(
                        u.routes@.take(j as int).map_values(g),
                    ).push(route_spec_of(routes@.last())));
                }
                j = j + 1;
            }
            proof {
                let g = |r: crate::config::UpstreamRouteConfig| (r.pattern@, r.priority);
                assert(u.routes@.take(u.routes@.len() as int) =~= u.routes@);
                assert(all_routes(next) == all_routes(prefix) + u.routes@.map_values(g));
                assert(route_specs(all_routes(next)) =~= route_specs(all_routes(prefix)) + route_specs(
                    u.routes@.map_values(g),
                ));
            }
            if u.is_default {
                default_name = Some(u.name.clone());
            }
            let health = UpstreamHealth {
                upstream_name: u.name.clone(),
                name: u.display_name().to_string(),
                healthy: true,
                last_check: now.to_string(),
                last_error: None,
                consecutive_failures: 0,
            };
            let tmp = UpstreamManager {
                entries,
                route_matcher: RouteMatcher::new(Vec::new()),
                default_upstream_name: None,
            };
            let found = tmp.position(&u.name);
            entries = tmp.entries;
            let ghost cs = configs_of(entries@);
            let e = UpstreamEntry { config: u, health };
            match found {
                Some(i) => {
                    entries.set(i, e);
                    proof {
                        assert(configs_of(entries@) =~= cs.update(i as int, e.config));
                    }
                },
                None => {
                    entries.push(e);
                    proof {
                        assert(configs_of(entries@) =~= cs.push(e.config));
                    }
                },
            }
            k = k + 1;
        }
        proof {
            assert(all.take(k as int) =~= all);
        }
        self.entries = entries;
        self.route_matcher = RouteMatcher::new(routes);
        self.default_upstream_name = default_name;
    }
}

/// The routes of a longer prefix are those of the shorter one followed by
/// the routes of the next upstream.
proof fn lemma_all_routes_prefix(us: Seq<UpstreamConfig>, k: int)
    requires
        0 <= k < us.len(),
    ensures
        all_routes(us.take(k + 1)) == all_routes(us.take(k)) + us[k].routes@.map_values(
            |r: crate::config::UpstreamRouteConfig| (r.pattern@, r.priority),
        ),
        all_routes(us.take(k)).len() + us[k].routes@.len() <= all_routes(us).len(),
{
    assert(us.take(k + 1).drop_last() =~= us.take(k));
    lemma_all_routes_len(us, k + 1);
}

/// The routes of a prefix are no more than all the routes.
proof fn lemma_all_routes_len(us: Seq<UpstreamConfig>, k: int)
    requires
        0 <= k <= us.len(),
    ensures
        all_routes(us.take(k)).len() <= all_routes(us).len(),
    decreases us.len() - k,
{
    if k < us.len() {
        lemma_all_routes_len(us, k + 1);
        assert(us.take(k + 1).drop_last() =~= us.take(k));
    } else {
        assert(us.take(k) =~= us);
    }
}

/// `info` is the entry `k` of `es`, chosen for `reason` (a route's pattern
/// and priority, or none for a fallback).
pub open spec fn chosen_as(info: UpstreamInfo, es: Seq<UpstreamEntry>, k: int, reason: Option<(Seq<char>, i32)>) -> bool {
    &&& *info.config == es[k].config
    &&& match reason {
        Some((p, pr)) => info.match_reason matches MatchReason::RouteMatch { pattern, priority } && pattern@ == p
            && priority == pr,
        None => info.match_reason is DefaultFallback,
    }
}

/// The health after a failure: unhealthy with this error, one more
/// failure in a row, otherwise as before.
pub open spec fn failed_health(before: UpstreamHealth, after: UpstreamHealth, error: Seq<char>) -> bool {
    &&& after.upstream_name == before.upstream_name
    &&& after.name == before.name
    &&& !after.healthy
    &&& after.last_check == before.last_check
    &&& after.last_error matches Some(e) && e@ == error
    &&& after.consecutive_failures == before.consecutive_failures + 1
}

/// The health after a success: healthy, no error, no failures in a row,
/// otherwise as before.
pub open spec fn recovered_health(before: UpstreamHealth, after: UpstreamHealth) -> bool {
    &&& after.upstream_name == before.upstream_name
    &&& after.name == before.name
    &&& after.healthy
    &&& after.last_check == before.last_check
    &&& after.last_error is None
    &&& after.consecutive_failures == 0
}

/// `after` is `before` with entry `i` given health satisfying `h`, and
/// everything else kept.
pub open spec fn health_changed(
    before: UpstreamManager,
    after: UpstreamManager,
    i: int,
    h: spec_fn(UpstreamHealth, UpstreamHealth) -> bool,
) -> bool {
    &&& after.entries().len() == before.entries().len()
    &&& forall|j: int| 0 <= j < before.entries().len() && j != i ==> after.entries()[j] == before.entries()[j]
    &&& after.entries()[i].config == before.entries()[i].config
    &&& h(before.entries()[i].health, after.entries()[i].health)
    &&& after.routes() == before.routes()
    &&& after.default_name() == before.default_name()
}

impl UpstreamManager {
    /// Whether `u` has a route with this pattern.
    fn has_route_exec(u: &UpstreamConfig, pattern: &String) -> (b: bool)
        ensures
            b == has_route(*u, pattern@),
    {
        let mut k: usize = 0;
        while k < u.routes.len()
            invariant
                k <= u.routes@.len(),
                forall|j: int| 0 <= j < k ==> (#[trigger] u.routes@[j]).pattern@ != pattern@,
            decreases u.routes.len() - k,
        {
            if u.routes[k].pattern == *pattern {
                return true;
            }
            k = k + 1;
        }
        false
    }

    /// Whether the entry may serve requests.
    fn available_exec(e: &UpstreamEntry) -> (b: bool)
        ensures
            b == available(*e),
    {
        e.health.healthy || e.health.consecutive_failures < 3
    }

    /// Find the upstream for a repository path (see [`selection`]).
    pub fn find_upstream<'a>(&'a self, repository: &str) -> (r: Option<UpstreamInfo<'a>>)
        requires
            self.wf(),
        ensures
            match selection(self.entries(), self.routes(), self.default_name(), repository@) {
                None => r is None,
                Some((k, reason)) => r matches Some(info) && chosen_as(info, self.entries(), k, reason),
            },
    {
        let ghost es = self.entries@;
        if let Some(m) = self.route_matcher.find_match(repository) {
            let mut k: usize = 0;
            #[verifier::loop_isolation(false)]
            while k < self.entries.len()
                invariant
                    es == self.entries@,
                    k <= es.len(),
                    route_owner_from(es, m.pattern@, 0) == route_owner_from(es, m.pattern@, k as int),
                decreases self.entries.len() - k,
            {
                let e = &self.entries[k];
                if Self::has_route_exec(&e.config, &m.pattern) && Self::available_exec(e) {
                    return Some(
                        UpstreamInfo {
                            config: &e.config,
                            match_reason: MatchReason::RouteMatch { pattern: m.pattern, priority: m.priority },
                        },
                    );
                }
                k = k + 1;
            }
        }
        if let Some(name) = &self.default_upstream_name {
            if let Some(i) = self.position(name) {
                return Some(UpstreamInfo { config: &self.entries[i].config, match_reason: MatchReason::DefaultFallback });
            }
        }
        let mut k: usize = 0;
        #[verifier::loop_isolation(false)]
        while k < self.entries.len()
            invariant
                es == self.entries@,
                k <= es.len(),
                first_available_from(es, 0) == first_available_from(es, k as int),
            decreases self.entries.len() - k,
        {
            if Self::available_exec(&self.entries[k]) {
                return Some(UpstreamInfo { config: &self.entries[k].config, match_reason: MatchReason::DefaultFallback });
            }
            k = k + 1;
        }
        None
    }

    /// The upstream named `name`, chosen by name.
    pub fn get_upstream_by_name<'a>(&'a self, name: &str) -> (r: Option<UpstreamInfo<'a>>)
        requires
            self.wf(),
        ensures
            match entry_named(self.entries(), name@) {
                None => r is None,
                Some(k) => r matches Some(info) && *info.config == self.entries()[k].config
                    && (info.match_reason matches MatchReason::ExplicitName(n) && n@ == name@),
            },
    {
        let n = name.to_string();
        match self.position(&n) {
            Some(i) => Some(UpstreamInfo { config: &self.entries[i].config, match_reason: MatchReason::ExplicitName(n) }),
            None => None,
        }
    }

    /// The default upstream, chosen by its name.
    pub fn get_default_upstream<'a>(&'a self) -> (r: Option<UpstreamInfo<'a>>)
        requires
            self.wf(),
        ensures
            match self.default_name() {
                None => r is None,
                Some(d) => match entry_named(self.entries(), d) {
                    None => r is None,
                    Some(k) => r matches Some(info) && *info.config == self.entries()[k].config
                        && (info.match_reason matches MatchReason::ExplicitName(n) && n@ == d),
                },
            },
    {
        match &self.default_upstream_name {
            Some(d) => self.get_upstream_by_name(d.as_str()),
            None => None,
        }
    }

    /// The configurations of the loaded upstreams.
    pub fn list_upstreams(&self) -> (r: Vec<&UpstreamConfig>)
        ensures
            r@.len() == self.entries().len(),
            forall|i: int| 0 <= i < r@.len() ==> *(#[trigger] r@[i]) == self.entries()[i].config,
    {
        let mut r: Vec<&UpstreamConfig> = Vec::new();
        let mut k: usize = 0;
        while k < self.entries.len()
            invariant
                k <= self.entries@.len(),
                r@.len() == k,
                forall|i: int| 0 <= i < k ==> *(#[trigger] r@[i]) == self.entries@[i].config,
            decreases self.entries.len() - k,
        {
            r.push(&self.entries[k].config);
            k = k + 1;
        }
        r
    }

    /// The health of every loaded upstream.
    pub fn get_health_status(&self) -> (r: Vec<&UpstreamHealth>)
        ensures
            r@.len() == self.entries().len(),
            forall|i: int| 0 <= i < r@.len() ==> *(#[trigger] r@[i]) == self.entries()[i].health,
    {
        let mut r: Vec<&UpstreamHealth> = Vec::new();
        let mut k: usize = 0;
        while k < self.entries.len()
            invariant
                k <= self.entries@.len(),
                r@.len() == k,
                forall|i: int| 0 <= i < k ==> *(#[trigger] r@[i]) == self.entries@[i].health,
            decreases self.entries.len() - k,
        {
            r.push(&self.entries[k].health);
            k = k + 1;
        }
        r
    }

    /// The health of the upstream named `name`.
    pub fn get_upstream_health(&self, name: &str) -> (r: Option<&UpstreamHealth>)
        requires
            self.wf(),
        ensures
            match entry_named(self.entries(), name@) {
                None => r is None,
                Some(k) => r matches Some(h) && *h == self.entries()[k].health,
            },
    {
        let n = name.to_string();
        match self.position(&n) {
            Some(i) => Some(&self.entries[i].health),
            None => None,
        }
    }

    /// The number of loaded upstreams.
    pub fn upstream_count(&self) -> (n: usize)
        ensures
            n == self.entries().len(),
    {
        self.entries.len()
    }

    /// Whether the upstream named `name` keeps a cache of its own.
    pub fn uses_isolated_cache(&self, name: &str) -> (b: bool)
        requires
            self.wf(),
        ensures
            b == match entry_named(self.entries(), name@) {
                Some(k) => self.entries()[k].config.cache_isolation@ == "isolated"@,
                None => false,
            },
    {
        let n = name.to_string();
        match self.position(&n) {
            Some(i) => self.entries[i].config.uses_isolated_cache(),
            None => false,
        }
    }

    /// The name under which the upstream's cache entries are kept: its own
    /// name when its cache is isolated, none when shared.
    pub fn get_cache_upstream_name(&self, name: &str) -> (r: Option<String>)
        requires
            self.wf(),
        ensures
            match entry_named(self.entries(), name@) {
                Some(k) if self.entries()[k].config.cache_isolation@ == "isolated"@ => r matches Some(n)
                    && n@ == name@,
                _ => r is None,
            },
    {
        if self.uses_isolated_cache(name) {
            Some(name.to_string())
        } else {
            None
        }
    }

    /// Replaces the health of entry `i`.
    fn set_health(&mut self, i: usize, health: UpstreamHealth)
        requires
            old(self).wf(),
            i < old(self).entries().len(),
        ensures
            final(self).wf(),
            final(self).entries() == old(self).entries().update(
                i as int,
                UpstreamEntry { config: old(self).entries()[i as int].config, health },
            ),
            final(self).routes() == old(self).routes(),
            final(self).default_name() == old(self).default_name(),
    {
        let e = self.entries.remove(i);
        let ghost removed = self.entries@;
        let UpstreamEntry { config, health: _ } = e;
        self.entries.insert(i, UpstreamEntry { config, health });
        proof {
            assert(self.entries@ =~= old(self).entries@.update(
                i as int,
                UpstreamEntry { config: old(self).entries@[i as int].config, health },
            ));
            assert(configs_of(self.entries@) =~= configs_of(old(self).entries@));
        }
    }

    /// Records a failure of the upstream named `name`.
    pub fn mark_unhealthy(&mut self, name: &str, error: &str)
        requires
            old(self).wf(),
            entry_named(old(self).entries(), name@) matches Some(k) ==> old(self).entries()[k].health.consecutive_failures < u32::MAX,
        ensures
            final(self).wf(),
            match entry_named(old(self).entries(), name@) {
                None => final(self).entries() == old(self).entries() && final(self).routes() == old(self).routes()
                    && final(self).default_name() == old(self).default_name(),
                Some(k) => health_changed(
                    *old(self),
                    *final(self),
                    k,
                    |b: UpstreamHealth, a: UpstreamHealth| failed_health(b, a, error@),
                ),
            },
    {
        let n = name.to_string();
        if let Some(i) = self.position(&n) {
            let h = &self.entries[i].health;
            let health = UpstreamHealth {
                upstream_name: h.upstream_name.clone(),
                name: h.name.clone(),
                healthy: false,
                last_check: h.last_check.clone(),
                last_error: Some(error.to_string()),
                consecutive_failures: h.consecutive_failures + 1,
            };
            self.set_health(i, health);
        }
    }

    /// Records a success of the upstream named `name`.
    pub fn mark_healthy(&mut self, name: &str)
        requires
            old(self).wf(),
        ensures
            final(self).wf(),
            match entry_named(old(self).entries(), name@) {
                None => final(self).entries() == old(self).entries() && final(self).routes() == old(self).routes()
                    && final(self).default_name() == old(self).default_name(),
                Some(k) => health_changed(
                    *old(self),
                    *final(self),
                    k,
                    |b: UpstreamHealth, a: UpstreamHealth| recovered_health(b, a),
                ),
            },
    {
        let n = name.to_string();
        if let Some(i) = self.position(&n) {
            let h = &self.entries[i].health;
            let health = UpstreamHealth {
                upstream_name: h.upstream_name.clone(),
                name: h.name.clone(),
                healthy: true,
                last_check: h.last_check.clone(),
                last_error: None,
                consecutive_failures: 0,
            };
            self.set_health(i, health);
        }
    }

    /// Records the outcome of a health check of the upstream named `name`
    /// at time `now`: healthy exactly when the ping answered yes; the error
    /// otherwise; failures in a row reset or counted. Refused when no such
    /// upstream is loaded.
    pub fn record_health_check(&mut self, name: &str, ping: Result<bool, String>, now: &str) -> (r: Result<(), CoreError>)
        requires
            old(self).wf(),
            entry_named(old(self).entries(), name@) matches Some(k) ==> old(self).entries()[k].health.consecutive_failures < u32::MAX,
        ensures
            final(self).wf(),
            match entry_named(old(self).entries(), name@) {
                None => r matches Err(CoreError::NotFound(m)) && m@ == "Upstream "@ + name@
                    && final(self).entries() == old(self).entries(),
                Some(k) => r is Ok && health_changed(
                    *old(self),
                    *final(self),
                    k,
                    |b: UpstreamHealth, a: UpstreamHealth| {
                        &&& a.upstream_name == b.upstream_name
                        &&& a.name == b.name
                        &&& a.last_check@ == now@
                        &&& a.healthy == (ping == Ok::<bool, String>(true))
                        &&& match ping {
                            Ok(true) => a.last_error is None && a.consecutive_failures == 0,
                            Ok(false) => (a.last_error matches Some(e) && e@ == "Ping returned false"@)
                                && a.consecutive_failures == b.consecutive_failures + 1,
                            Err(x) => (a.last_error matches Some(e) && e@ == x@) && a.consecutive_failures
                                == b.consecutive_failures + 1,
                        }
                    },
                ),
            },
    {
        let n = name.to_string();
        match self.position(&n) {
            None => {
                let mut m = "Upstream ".to_string();
                m.append(name);
                Err(CoreError::NotFound(m))
            },
            Some(i) => {
                let (healthy, error): (bool, Option<String>) = match ping {
                    Ok(true) => (true, None),
                    Ok(false) => (false, Some("Ping returned false".to_string())),
                    Err(e) => (false, Some(e)),
                };
                let h = &self.entries[i].health;
                let failures = if healthy {
                    0
                } else {
                    h.consecutive_failures + 1
                };
                let health = UpstreamHealth {
                    upstream_name: h.upstream_name.clone(),
                    name: h.name.clone(),
                    healthy,
                    last_check: now.to_string(),
                    last_error: error,
                    consecutive_failures: failures,
                };
                self.set_health(i, health);
                Ok(())
            },
        }
    }
}

// ==================== Laws of upstream selection ====================

/// What [`route_owner_from`] answers: an available entry from `k` on that
/// has a route with the pattern, the first such one.
pub proof fn lemma_route_owner_from(es: Seq<UpstreamEntry>, pattern: Seq<char>, k: int)
    requires
        0 <= k,
    ensures
        match route_owner_from(es, pattern, k) {
            Some(j) => k <= j < es.len() && has_route(es[j].config, pattern) && available(es[j]),
            None => forall|i: int| k <= i < es.len() ==> !(has_route(#[trigger] es[i].config, pattern) && available(es[i])),
        },
    decreases es.len() - k,
{
    if k < es.len() && !(has_route(es[k].config, pattern) && available(es[k])) {
        lemma_route_owner_from(es, pattern, k + 1);
    }
}

/// What [`first_available_from`] answers: the first available entry from
/// `k` on.
pub proof fn lemma_first_available_from(es: Seq<UpstreamEntry>, k: int)
    requires
        0 <= k,
    ensures
        match first_available_from(es, k) {
            Some(j) => k <= j < es.len() && available(es[j]),
            None => forall|i: int| k <= i < es.len() ==> !available(#[trigger] es[i]),
        },
    decreases es.len() - k,
{
    if k < es.len() && !available(es[k]) {
        lemma_first_available_from(es, k + 1);
    }
}

/// An upstream chosen by route can serve requests and owns the matched
/// pattern, and that pattern (with its priority) is the first route of the
/// router that matches the repository.
pub proof fn lemma_route_choice_is_sound(
    es: Seq<UpstreamEntry>,
    routes: Seq<crate::router::RouteSpec>,
    default_name: Option<Seq<char>>,
    repository: Seq<char>,
    k: int,
    pattern: Seq<char>,
    priority: i32,
)
    requires
        selection(es, routes, default_name, repository) == Some((k, Some((pattern, priority)))),
    ensures
        0 <= k < es.len(),
        available(es[k]),
        has_route(es[k].config, pattern),
        exists|m: int|
            first_match_from(routes, repository, 0) == Some(m) && routes[m].pattern == pattern
                && routes[m].priority == priority && crate::router::route_matches(pattern, repository),
{
    match first_match_from(routes, repository, 0) {
        Some(m) => {
            crate::router::lemma_first_match_from(routes, repository, 0);
            lemma_route_owner_from(es, routes[m].pattern, 0);
            if route_owner_from(es, routes[m].pattern, 0) is None {
                // Then the fallbacks answer with no pattern at all.
                assert(false);
            }
        },
        None => {
            assert(false);
        },
    }
}

/// When no route that matches the repository is served by an available
/// upstream, and an upstream of the default name is loaded, that default
/// upstream is chosen, as a fallback, before any other available one.
pub proof fn lemma_default_chosen_without_route(
    es: Seq<UpstreamEntry>,
    routes: Seq<crate::router::RouteSpec>,
    n: Seq<char>,
    repository: Seq<char>,
)
    requires
        exists|i: int| 0 <= i < es.len() && (#[trigger] es[i]).config.name@ == n,
        forall|m: int, i: int|
            0 <= m < routes.len() && 0 <= i < es.len() && crate::router::route_matches(
                #[trigger] routes[m].pattern,
                repository,
            ) ==> !(has_route(#[trigger] es[i].config, routes[m].pattern) && available(es[i])),
    ensures
        selection(es, routes, Some(n), repository) matches Some((k, reason)) && reason is None && 0 <= k
            < es.len() && es[k].config.name@ == n,
{
    crate::router::lemma_first_match_from(routes, repository, 0);
    if let Some(m) = first_match_from(routes, repository, 0) {
        lemma_route_owner_from(es, routes[m].pattern, 0);
        if let Some(j) = route_owner_from(es, routes[m].pattern, 0) {
            assert(!(has_route(es[j].config, routes[m].pattern) && available(es[j])));
        }
    }
    let j = choose|i: int| 0 <= i < es.len() && (#[trigger] es[i]).config.name@ == n;
    assert(0 <= j < es.len() && es[j].config.name@ == n);
}

/// [`route_owner_from`] answers the first owner from `k` on.
proof fn lemma_route_owner_first(es: Seq<UpstreamEntry>, pattern: Seq<char>, k: int)
    requires
        0 <= k,
    ensures
        route_owner_from(es, pattern, k) matches Some(j) ==> forall|i: int|
            k <= i < j ==> !(has_route(#[trigger] es[i].config, pattern) && available(es[i])),
    decreases es.len() - k,
{
    if k < es.len() && !(has_route(es[k].config, pattern) && available(es[k])) {
        lemma_route_owner_first(es, pattern, k + 1);
    }
}

/// [`first_available_from`] answers the first available entry from `k` on.
proof fn lemma_first_available_first(es: Seq<UpstreamEntry>, k: int)
    requires
        0 <= k,
    ensures
        first_available_from(es, k) matches Some(j) ==> forall|i: int| k <= i < j ==> !available(#[trigger] es[i]),
    decreases es.len() - k,
{
    if k < es.len() && !available(es[k]) {
        lemma_first_available_first(es, k + 1);
    }
}

/// The first route of the router that matches the repository decides
/// whenever an available upstream has it: the choice is by that route, of
/// the first available upstream having the route's pattern.
pub proof fn lemma_matching_route_wins(
    es: Seq<UpstreamEntry>,
    routes: Seq<crate::router::RouteSpec>,
    default_name: Option<Seq<char>>,
    repository: Seq<char>,
    m: int,
    j: int,
)
    requires
        first_match_from(routes, repository, 0) == Some(m),
        0 <= j < es.len(),
        has_route(es[j].config, routes[m].pattern),
        available(es[j]),
    ensures
        selection(es, routes, default_name, repository) matches Some((k, Some((pattern, priority)))) && pattern
            == routes[m].pattern && priority == routes[m].priority && 0 <= k <= j && has_route(
            es[k].config,
            pattern,
        ) && available(es[k]) && forall|i: int|
            0 <= i < k ==> !(has_route(#[trigger] es[i].config, pattern) && available(es[i])),
{
    crate::router::lemma_first_match_from(routes, repository, 0);
    lemma_route_owner_from(es, routes[m].pattern, 0);
    lemma_route_owner_first(es, routes[m].pattern, 0);
    if let Some(o) = route_owner_from(es, routes[m].pattern, 0) {
        if o > j {
            assert(!(has_route(es[j].config, routes[m].pattern) && available(es[j])));
        }
    }
}

/// With no route that an available upstream serves and no default
/// upstream loaded, the first available upstream is chosen, as a fallback.
pub proof fn lemma_first_available_without_default(
    es: Seq<UpstreamEntry>,
    routes: Seq<crate::router::RouteSpec>,
    default_name: Option<Seq<char>>,
    repository: Seq<char>,
    j: int,
)
    requires
        default_name matches Some(n) ==> forall|i: int| 0 <= i < es.len() ==> (#[trigger] es[i]).config.name@ != n,
        forall|m: int, i: int|
            0 <= m < routes.len() && 0 <= i < es.len() && crate::router::route_matches(
                #[trigger] routes[m].pattern,
                repository,
            ) ==> !(has_route(#[trigger] es[i].config, routes[m].pattern) && available(es[i])),
        0 <= j < es.len(),
        available(es[j]),
        forall|i: int| 0 <= i < j ==> !available(#[trigger] es[i]),
    ensures
        selection(es, routes, default_name, repository) == Some((j, None::<(Seq<char>, i32)>)),
{
    crate::router::lemma_first_match_from(routes, repository, 0);
    if let Some(m) = first_match_from(routes, repository, 0) {
        lemma_route_owner_from(es, routes[m].pattern, 0);
        if let Some(o) = route_owner_from(es, routes[m].pattern, 0) {
            assert(!(has_route(es[o].config, routes[m].pattern) && available(es[o])));
        }
    }
    lemma_first_available_from(es, 0);
    lemma_first_available_first(es, 0);
    if let Some(f) = first_available_from(es, 0) {
        if f < j {
            assert(!available(es[f]));
        } else if f > j {
            assert(!available(es[j]));
        }
    }
}

/// An upstream chosen as a fallback is the default upstream, or, when no
/// default is loaded, one that can serve requests.
pub proof fn lemma_fallback_choice_is_sound(
    es: Seq<UpstreamEntry>,
    routes: Seq<crate::router::RouteSpec>,
    default_name: Option<Seq<char>>,
    repository: Seq<char>,
    k: int,
)
    requires
        selection(es, routes, default_name, repository) == Some((k, None::<(Seq<char>, i32)>)),
    ensures
        0 <= k < es.len(),
        (default_name matches Some(n) && es[k].config.name@ == n) || available(es[k]),
{
    lemma_first_available_from(es, 0);
    match first_match_from(routes, repository, 0) {
        Some(m) => {
            lemma_route_owner_from(es, routes[m].pattern, 0);
        },
        None => {},
    }
    match default_name {
        Some(n) => {
            if entry_named(es, n) is Some {
                let j = choose|i: int| 0 <= i < es.len() && (#[trigger] es[i]).config.name@ == n;
                assert(0 <= j < es.len() && es[j].config.name@ == n);
            }
        },
        None => {},
    }
}

/// A repository always finds an upstream while one of them can serve
/// requests.
pub proof fn lemma_selection_found(
    es: Seq<UpstreamEntry>,
    routes: Seq<crate::router::RouteSpec>,
    default_name: Option<Seq<char>>,
    repository: Seq<char>,
    j: int,
)
    requires
        0 <= j < es.len(),
        available(es[j]),
    ensures
        selection(es, routes, default_name, repository) is Some,
{
    lemma_first_available_from(es, 0);
}

/// Health rules: a failure leaves an upstream available only while it has
/// failed fewer than three times in a row; a success makes it available
/// again.
pub proof fn lemma_failures_and_recovery(config: UpstreamConfig, before: UpstreamHealth, after: UpstreamHealth, error: Seq<char>)
    ensures
        failed_health(before, after, error) ==> (available(UpstreamEntry { config, health: after })
            <==> before.consecutive_failures < 2),
        recovered_health(before, after) ==> available(UpstreamEntry { config, health: after }),
{
}

/// An upstream loaded and not followed by another of the same name is held
/// after loading.
pub proof fn lemma_load_configs_keeps(us: Seq<UpstreamConfig>, i: int)
    requires
        0 <= i < us.len(),
        forall|j: int| i < j < us.len() ==> (#[trigger] us[j]).name@ != us[i].name@,
    ensures
        exists|k: int| 0 <= k < load_configs(us).len() && load_configs(us)[k] == us[i],
    decreases us.len(),
{
    let cs = load_configs(us.drop_last());
    let last = us.last();
    if i == us.len() - 1 {
        match config_named(cs, last.name@) {
            Some(x) => {
                let w = choose|t: int| 0 <= t < cs.len() && (#[trigger] cs[t]).name@ == last.name@;
                assert(0 <= w < cs.len());
                assert(load_configs(us)[w] == us[i]);
            },
            None => {
                assert(load_configs(us)[cs.len() as int] == us[i]);
            },
        }
    } else {
        let prefix = us.drop_last();
        assert forall|j: int| i < j < prefix.len() implies (#[trigger] prefix[j]).name@ != prefix[i].name@ by {
            assert(prefix[j] == us[j]);
        }
        lemma_load_configs_keeps(prefix, i);
        let k = choose|k: int| 0 <= k < cs.len() && cs[k] == prefix[i];
        assert(last.name@ != us[i].name@) by {
            assert(us[us.len() - 1] == last);
        }
        match config_named(cs, last.name@) {
            Some(x) => {
                let w = choose|t: int| 0 <= t < cs.len() && (#[trigger] cs[t]).name@ == last.name@;
                assert(w != k);
                assert(load_configs(us)[k] == us[i]);
            },
            None => {
                assert(load_configs(us)[k] == us[i]);
            },
        }
    }
}

/// After a reload, each upstream that was loaded, and not followed by
/// another of the same name, is found by its name with its configuration.
pub proof fn lemma_reload_then_lookup(m: UpstreamManager, loaded: Seq<UpstreamConfig>, i: int)
    requires
        m.wf(),
        configs_of(m.entries()) == load_configs(loaded),
        0 <= i < loaded.len(),
        forall|j: int| i < j < loaded.len() ==> (#[trigger] loaded[j]).name@ != loaded[i].name@,
    ensures
        entry_named(m.entries(), loaded[i].name@) matches Some(k) && m.entries()[k].config == loaded[i],
{
    lemma_load_configs_keeps(loaded, i);
    let es = m.entries();
    let k = choose|k: int| 0 <= k < load_configs(loaded).len() && load_configs(loaded)[k] == loaded[i];
    assert(configs_of(es)[k] == es[k].config);
    assert(es[k].config.name@ == loaded[i].name@);
    let w = choose|t: int| 0 <= t < es.len() && (#[trigger] es[t]).config.name@ == loaded[i].name@;
    assert(0 <= w < es.len() && es[w].config.name@ == loaded[i].name@);
    if w != k {
        assert(configs_of(es)[w] == es[w].config);
        if w < k {
            assert(configs_of(es)[w].name@ != configs_of(es)[k].name@);
        } else {
            assert(configs_of(es)[k].name@ != configs_of(es)[w].name@);
        }
    }
}

} // verus!
