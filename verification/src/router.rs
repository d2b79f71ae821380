//! Route matching for multi-upstream support.
//!
//! A route pattern is a glob over repository paths: `*` stands for the
//! characters up to the next `/` (or the end), `**` for any run of characters.
//! Patterns are compiled once into parts; matching is a bounded backtracking
//! search that gives up (answers "no match") after a fixed number of steps.

use vstd::prelude::*;

use crate::models::UpstreamRoute;
use crate::text::{chars_of, copy_range, occurs_at, occurs_at_exec, string_from_range};

verus! {

/// Maximum number of matching steps for one pattern and one path.
pub const MAX_MATCH_ITERATIONS: usize = 10000;

// ==================== Specification ====================

/// A compiled pattern part, as a mathematical value.
pub enum PartSpec {
    /// Literal text that must occur exactly.
    Lit(Seq<char>),
    /// `*`: the characters up to the next `/`, or to the end.
    One,
    /// `**`: any run of characters.
    Many,
}

/// End of the run of non-`*` characters of `p` that starts at `i`.
pub open spec fn run_end(p: Seq<char>, i: int) -> int
    decreases p.len() - i,
{
    if i >= p.len() || i < 0 || p[i] == '*' {
        i
    } else {
        run_end(p, i + 1)
    }
}

/// A run ends within the pattern, at or after its start.
pub proof fn lemma_run_end_bounds(p: Seq<char>, i: int)
    requires
        0 <= i <= p.len(),
    ensures
        i <= run_end(p, i) <= p.len(),
    decreases p.len() - i,
{
    if i < p.len() && p[i] != '*' {
        lemma_run_end_bounds(p, i + 1);
    }
}

/// The parts of pattern `p` from position `i` on: maximal literal runs,
/// `**` for two adjacent stars and `*` for a lone one, left to right.
pub open spec fn compile_from(p: Seq<char>, i: int) -> Seq<PartSpec>
    decreases p.len() - i, 0int,
{
    if i < 0 || i >= p.len() {
        Seq::empty()
    } else if p[i] == '*' {
        if i + 1 < p.len() && p[i + 1] == '*' {
            seq![PartSpec::Many] + compile_from(p, i + 2)
        } else {
            seq![PartSpec::One] + compile_from(p, i + 1)
        }
    } else {
        let j = run_end(p, i);
        proof {
            lemma_run_end_bounds(p, i);
        }
        if j <= i {
            Seq::empty()
        } else {
            seq![PartSpec::Lit(p.subrange(i, j))] + compile_from(p, j)
        }
    }
}

/// The compiled form of a whole pattern.
pub open spec fn compile_spec(p: Seq<char>) -> Seq<PartSpec> {
    compile_from(p, 0)
}

/// Position of the first `/` in `s` at or after `pos`, or `s.len()` if none.
pub open spec fn next_slash(s: Seq<char>, pos: int) -> int
    decreases s.len() - pos,
{
    if pos >= s.len() || pos < 0 {
        s.len() as int
    } else if s[pos] == '/' {
        pos
    } else {
        next_slash(s, pos + 1)
    }
}

/// The bounded matching search: matches `parts[pi..]` against `path[pos..]`
/// having already spent `used` steps; returns the answer and the steps spent.
/// A step is refused (answer `false`) once `used` reaches the bound.
pub open spec fn match_rec(parts: Seq<PartSpec>, path: Seq<char>, pi: nat, pos: nat, used: nat) -> (bool, nat)
    decreases parts.len() - pi, 1nat, 0nat,
{
    if used >= MAX_MATCH_ITERATIONS {
        (false, used)
    } else if pi >= parts.len() {
        (pos >= path.len(), used + 1)
    } else {
        match parts[pi as int] {
            PartSpec::Lit(l) => {
                if occurs_at(path, pos as int, l) {
                    match_rec(parts, path, pi + 1, pos + l.len(), used + 1)
                } else {
                    (false, used + 1)
                }
            },
            PartSpec::One => {
                let q = next_slash(path, pos as int);
                if q < pos {
                    (false, used + 1)
                } else {
                    match_rec(parts, path, pi + 1, q as nat, used + 1)
                }
            },
            PartSpec::Many => {
                if pi + 1 >= parts.len() {
                    (true, used + 1)
                } else {
                    many_loop(parts, path, pi, pos, 0, used + 1)
                }
            },
        }
    }
}

/// The search of a `**` at `parts[pi]`: tries to continue at `pos + i`,
/// `pos + i + 1`, ..., `path.len()`, and stops at the first success.
pub open spec fn many_loop(parts: Seq<PartSpec>, path: Seq<char>, pi: nat, pos: nat, i: nat, used: nat) -> (bool, nat)
    decreases parts.len() - pi, 0nat, path.len() + 1 - pos - i,
{
    if pi + 1 >= parts.len() || pos + i > path.len() {
        (false, used)
    } else {
        let r = match_rec(parts, path, pi + 1, pos + i, used);
        if r.0 {
            (true, r.1)
        } else {
            many_loop(parts, path, pi, pos, i + 1, r.1)
        }
    }
}

/// Glob semantics of the parts, without any bound on the search.
pub open spec fn glob(parts: Seq<PartSpec>, path: Seq<char>, pi: nat, pos: nat) -> bool
    decreases parts.len() - pi, 1nat, 0nat,
{
    if pi >= parts.len() {
        pos >= path.len()
    } else {
        match parts[pi as int] {
            PartSpec::Lit(l) => occurs_at(path, pos as int, l) && glob(parts, path, pi + 1, pos + l.len()),
            PartSpec::One => {
                let q = next_slash(path, pos as int);
                q >= pos && glob(parts, path, pi + 1, q as nat)
            },
            PartSpec::Many => pi + 1 >= parts.len() || glob_any(parts, path, pi, pos, 0),
        }
    }
}

/// Some continuation point `pos + j` with `j >= i` (within the path) lets
/// `parts[pi + 1..]` match.
pub open spec fn glob_any(parts: Seq<PartSpec>, path: Seq<char>, pi: nat, pos: nat, i: nat) -> bool
    decreases parts.len() - pi, 0nat, path.len() + 1 - pos - i,
{
    if pi + 1 >= parts.len() || pos + i > path.len() {
        false
    } else {
        glob(parts, path, pi + 1, pos + i) || glob_any(parts, path, pi, pos, i + 1)
    }
}

/// A route as a mathematical value.
pub struct RouteSpec {
    pub upstream_id: i64,
    pub pattern: Seq<char>,
    pub priority: i32,
}

/// The answer of the bounded search for pattern `pattern` on `path`.
pub open spec fn route_matches(pattern: Seq<char>, path: Seq<char>) -> bool {
    match_rec(compile_spec(pattern), path, 0, 0, 0).0
}

/// Index of the first route of `routes[k..]` whose pattern matches `path`.
pub open spec fn first_match_from(routes: Seq<RouteSpec>, path: Seq<char>, k: int) -> Option<int>
    decreases routes.len() - k,
{
    if k < 0 || k >= routes.len() {
        None
    } else if route_matches(routes[k].pattern, path) {
        Some(k)
    } else {
        first_match_from(routes, path, k + 1)
    }
}

/// Inserts `r` into `s` after every element whose priority is at most `r`'s.
pub open spec fn insert_by_priority(s: Seq<RouteSpec>, r: RouteSpec) -> Seq<RouteSpec>
    decreases s.len(),
{
    if s.len() == 0 {
        seq![r]
    } else if s.last().priority <= r.priority {
        s.push(r)
    } else {
        insert_by_priority(s.drop_last(), r).push(s.last())
    }
}

/// Stable sort by priority (lower first; equal priorities keep their order).
pub open spec fn sort_by_priority(s: Seq<RouteSpec>) -> Seq<RouteSpec>
    decreases s.len(),
{
    if s.len() == 0 {
        s
    } else {
        insert_by_priority(sort_by_priority(s.drop_last()), s.last())
    }
}

/// The route described by a stored upstream route.
pub open spec fn route_spec_of(r: UpstreamRoute) -> RouteSpec {
    RouteSpec { upstream_id: r.upstream_id, pattern: r.pattern@, priority: r.priority }
}

} // verus!

verus! {

// ==================== Implementation ====================

/// Result of a route match.
pub struct RouteMatch {
    /// The upstream ID that matched
    pub upstream_id: i64,
    /// The pattern that matched
    pub pattern: String,
    /// The priority of the match
    pub priority: i32,
}

/// A compiled pattern part.
enum PatternPart {
    /// Literal text that must match exactly
    Literal(Vec<char>),
    /// Single path segment wildcard (*)
    SingleWildcard,
    /// Multi-segment wildcard (**)
    MultiWildcard,
}

impl View for PatternPart {
    type V = PartSpec;

    closed spec fn view(&self) -> PartSpec {
        match self {
            PatternPart::Literal(l) => PartSpec::Lit(l@),
            PatternPart::SingleWildcard => PartSpec::One,
            PatternPart::MultiWildcard => PartSpec::Many,
        }
    }
}

spec fn parts_view(parts: Seq<PatternPart>) -> Seq<PartSpec> {
    parts.map_values(|p: PatternPart| p@)
}

struct CompiledRoute {
    upstream_id: i64,
    pattern: String,
    priority: i32,
    /// Pre-compiled pattern parts for matching
    parts: Vec<PatternPart>,
}

spec fn compiled_spec(c: CompiledRoute) -> RouteSpec {
    RouteSpec { upstream_id: c.upstream_id, pattern: c.pattern@, priority: c.priority }
}

spec fn compiled_wf(c: CompiledRoute) -> bool {
    parts_view(c.parts@) == compile_spec(c.pattern@)
}

/// Route matcher for upstream selection: routes kept in priority order.
pub struct RouteMatcher {
    routes: Vec<CompiledRoute>,
}

impl View for RouteMatcher {
    type V = Seq<RouteSpec>;

    closed spec fn view(&self) -> Seq<RouteSpec> {
        routes_view(self.routes@)
    }
}

spec fn routes_view(v: Seq<CompiledRoute>) -> Seq<RouteSpec> {
    v.map_values(|c: CompiledRoute| compiled_spec(c))
}

impl RouteMatcher {
    #[verifier::type_invariant]
    spec fn inv(self) -> bool {
        forall|k: int| 0 <= k < self.routes@.len() ==> #[trigger] compiled_wf(self.routes@[k])
    }

    /// Compile a glob-like pattern into parts.
    fn compile_pattern(pattern: &str) -> (parts: Vec<PatternPart>)
        ensures
            parts_view(parts@) == compile_spec(pattern@),
    {
        let chars = chars_of(pattern);
        let mut parts: Vec<PatternPart> = Vec::new();
        let mut i: usize = 0;
        while i < chars.len()
            invariant
                i <= chars.len(),
                chars@ == pattern@,
                parts_view(parts@) + compile_from(chars@, i as int) == compile_spec(chars@),
            decreases chars.len() - i,
        {
            let ghost old_parts = parts@;
            if chars[i] == '*' {
                if i + 1 < chars.len() && chars[i + 1] == '*' {
                    parts.push(PatternPart::MultiWildcard);
                    assert(parts_view(parts@) == parts_view(old_parts).push(PartSpec::Many));
                    assert(parts_view(parts@) + compile_from(chars@, i + 2) =~= parts_view(old_parts)
                        + compile_from(chars@, i as int));
                    i = i + 2;
                } else {
                    parts.push(PatternPart::SingleWildcard);
                    assert(parts_view(parts@) == parts_view(old_parts).push(PartSpec::One));
                    assert(parts_view(parts@) + compile_from(chars@, i + 1) =~= parts_view(old_parts)
                        + compile_from(chars@, i as int));
                    i = i + 1;
                }
            } else {
                let mut j: usize = i + 1;
                while j < chars.len() && chars[j] != '*'
                    invariant
                        i < j <= chars.len(),
                        chars@[i as int] != '*',
                        run_end(chars@, i as int) == run_end(chars@, j as int),
                    decreases chars.len() - j,
                {
                    j = j + 1;
                }
                assert(run_end(chars@, j as int) == j);
                let lit = copy_range(&chars, i, j);
                parts.push(PatternPart::Literal(lit));
                assert(parts_view(parts@) == parts_view(old_parts).push(
                    PartSpec::Lit(chars@.subrange(i as int, j as int)),
                ));
                assert(parts_view(parts@) + compile_from(chars@, j as int) =~= parts_view(old_parts)
                    + compile_from(chars@, i as int));
                i = j;
            }
        }
        assert(parts_view(parts@) + compile_from(chars@, i as int) =~= parts_view(parts@));
        parts
    }

    /// Position of the first `/` at or after `pos`, or the end of `path`.
    fn find_slash_from(path: &Vec<char>, pos: usize) -> (q: usize)
        requires
            pos <= path.len(),
        ensures
            q == next_slash(path@, pos as int),
            pos <= q <= path.len(),
    {
        let mut k = pos;
        while k < path.len() && path[k] != '/'
            invariant
                pos <= k <= path.len(),
                next_slash(path@, pos as int) == next_slash(path@, k as int),
            decreases path.len() - k,
        {
            k = k + 1;
        }
        k
    }

    /// One step of the bounded matching search (see `match_rec`).
    fn match_recursive(
        parts: &Vec<PatternPart>,
        path: &Vec<char>,
        part_idx: usize,
        path_pos: usize,
        iterations: &mut usize,
    ) -> (r: bool)
        requires
            part_idx <= parts.len(),
            path_pos <= path.len(),
            *old(iterations) <= MAX_MATCH_ITERATIONS,
        ensures
            (r, *final(iterations) as nat) == match_rec(
                parts_view(parts@),
                path@,
                part_idx as nat,
                path_pos as nat,
                *old(iterations) as nat,
            ),
            *final(iterations) <= MAX_MATCH_ITERATIONS,
        decreases parts.len() - part_idx,
    {
        let ghost orig = *iterations as nat;
        // Prevent runaway backtracking by bounding the number of steps
        if *iterations >= MAX_MATCH_ITERATIONS {
            return false;
        }
        *iterations = *iterations + 1;
        if part_idx >= parts.len() {
            // Pattern exhausted, check if path is also exhausted
            return path_pos >= path.len();
        }
        let ghost pv = parts_view(parts@);
        assert(pv[part_idx as int] == parts@[part_idx as int]@);
        match &parts[part_idx] {
            PatternPart::Literal(lit) => {
                if occurs_at_exec(path, path_pos, lit) {
                    Self::match_recursive(parts, path, part_idx + 1, path_pos + lit.len(), iterations)
                } else {
                    false
                }
            },
            PatternPart::SingleWildcard => {
                // Match any characters until the next '/' or end
                let q = Self::find_slash_from(path, path_pos);
                Self::match_recursive(parts, path, part_idx + 1, q, iterations)
            },
            PatternPart::MultiWildcard => {
                if part_idx + 1 >= parts.len() {
                    // ** at end matches everything
                    return true;
                }
                let rem = path.len() - path_pos;
                let ghost target = many_loop(pv, path@, part_idx as nat, path_pos as nat, 0, *iterations as nat);
                assert(match_rec(pv, path@, part_idx as nat, path_pos as nat, orig) == target);
                // Try matching the rest at each position
                let mut i: usize = 0;
                while i < rem
                    invariant
                        part_idx + 1 < parts.len(),
                        path_pos + rem == path.len(),
                        pv == parts_view(parts@),
                        *iterations <= MAX_MATCH_ITERATIONS,
                        i <= rem,
                        many_loop(pv, path@, part_idx as nat, path_pos as nat, i as nat, *iterations as nat) == target,
                        match_rec(pv, path@, part_idx as nat, path_pos as nat, orig) == target,
                        orig == *old(iterations) as nat,
                    decreases rem - i,
                {
                    let ghost before = *iterations as nat;
                    let found = Self::match_recursive(parts, path, part_idx + 1, path_pos + i, iterations);
                    assert(many_loop(pv, path@, part_idx as nat, path_pos as nat, i as nat, before) == if found {
                        (true, *iterations as nat)
                    } else {
                        many_loop(pv, path@, part_idx as nat, path_pos as nat, (i + 1) as nat, *iterations as nat)
                    });
                    if found {
                        return true;
                    }
                    i = i + 1;
                }
                let ghost before = *iterations as nat;
                let found = Self::match_recursive(parts, path, part_idx + 1, path_pos + rem, iterations);
                assert(many_loop(pv, path@, part_idx as nat, path_pos as nat, (rem + 1) as nat, *iterations as nat).0 == false);
                assert(many_loop(pv, path@, part_idx as nat, path_pos as nat, rem as nat, before) == if found {
                    (true, *iterations as nat)
                } else {
                    many_loop(pv, path@, part_idx as nat, path_pos as nat, (rem + 1) as nat, *iterations as nat)
                });
                found
            },
        }
    }

    /// Create a new route matcher from a list of routes, ordered by
    /// priority (lower = higher priority; ties keep their given order).
    pub fn new(routes: Vec<UpstreamRoute>) -> (m: Self)
        ensures
            m@ == sort_by_priority(routes@.map_values(|r: UpstreamRoute| route_spec_of(r))),
    {
        let ghost input = routes@.map_values(|r: UpstreamRoute| route_spec_of(r));
        let mut compiled: Vec<CompiledRoute> = Vec::new();
        let mut idx: usize = 0;
        assert(input.take(0) =~= Seq::<RouteSpec>::empty());
        while idx < routes.len()
            invariant
                idx <= routes.len(),
                input == routes@.map_values(|r: UpstreamRoute| route_spec_of(r)),
                routes_view(compiled@) == sort_by_priority(input.take(idx as int)),
                forall|k: int| 0 <= k < compiled@.len() ==> #[trigger] compiled_wf(compiled@[k]),
            decreases routes.len() - idx,
        {
            let r = &routes[idx];
            let c = CompiledRoute {
                upstream_id: r.upstream_id,
                pattern: r.pattern.clone(),
                priority: r.priority,
                parts: Self::compile_pattern(r.pattern.as_str()),
            };
            assert(compiled_spec(c) == input[idx as int]);
            Self::insert_sorted(&mut compiled, c);
            assert(input.take(idx + 1).drop_last() =~= input.take(idx as int));
            assert(input.take(idx + 1).last() == input[idx as int]);
            idx = idx + 1;
        }
        assert(input.take(idx as int) =~= input);
        RouteMatcher { routes: compiled }
    }

    /// Inserts `c` after every route whose priority is at most its own.
    fn insert_sorted(v: &mut Vec<CompiledRoute>, c: CompiledRoute)
        requires
            compiled_wf(c),
            forall|k: int| 0 <= k < old(v)@.len() ==> #[trigger] compiled_wf(old(v)@[k]),
        ensures
            routes_view(final(v)@) == insert_by_priority(routes_view(old(v)@), compiled_spec(c)),
            forall|k: int| 0 <= k < final(v)@.len() ==> #[trigger] compiled_wf(final(v)@[k]),
    {
        let ghost vv = routes_view(v@);
        let ghost cs = compiled_spec(c);
        let mut k = v.len();
        assert(vv.take(k as int) =~= vv);
        assert(vv.skip(k as int) =~= Seq::<RouteSpec>::empty());
        assert(insert_by_priority(vv, cs) + vv.skip(k as int) =~= insert_by_priority(vv, cs));
        while k > 0 && v[k - 1].priority > c.priority
            invariant
                k <= v.len(),
                vv == routes_view(v@),
                cs == compiled_spec(c),
                insert_by_priority(vv, cs) == insert_by_priority(vv.take(k as int), cs) + vv.skip(k as int),
            decreases k,
        {
            assert(vv.take(k as int).drop_last() =~= vv.take(k - 1));
            assert(vv.take(k as int).last() == vv[k - 1]);
            assert(vv[k - 1].priority == v@[k - 1].priority);
            assert(insert_by_priority(vv.take(k as int), cs) == insert_by_priority(vv.take(k - 1), cs).push(vv[k - 1]));
            assert(insert_by_priority(vv.take(k - 1), cs).push(vv[k - 1]) + vv.skip(k as int) =~= insert_by_priority(
                vv.take(k - 1),
                cs,
            ) + vv.skip(k - 1));
            k = k - 1;
        }
        if k > 0 {
            assert(vv[k - 1].priority == v@[k - 1].priority);
            assert(vv.take(k as int).last() == vv[k - 1]);
            assert(insert_by_priority(vv.take(k as int), cs) == vv.take(k as int).push(cs));
        } else {
            assert(vv.take(0) =~= Seq::<RouteSpec>::empty());
        }
        v.insert(k, c);
        assert(routes_view(v@) =~= vv.take(k as int).push(cs) + vv.skip(k as int));
    }

    /// Find the best matching route for a repository path: the first route,
    /// in priority order, whose pattern matches.
    pub fn find_match(&self, repository: &str) -> (r: Option<RouteMatch>)
        ensures
            match first_match_from(self@, repository@, 0) {
                Some(k) => r matches Some(m) && m.upstream_id == self@[k].upstream_id
                    && m.pattern@ == self@[k].pattern && m.priority == self@[k].priority,
                None => r is None,
            },
    {
        proof {
            use_type_invariant(self);
        }
        let path = chars_of(repository);
        let mut k: usize = 0;
        while k < self.routes.len()
            invariant
                k <= self.routes@.len(),
                path@ == repository@,
                forall|j: int| 0 <= j < self.routes@.len() ==> #[trigger] compiled_wf(self.routes@[j]),
                first_match_from(self@, repository@, 0) == first_match_from(self@, repository@, k as int),
            decreases self.routes.len() - k,
        {
            let route = &self.routes[k];
            assert(compiled_wf(self.routes@[k as int]));
            assert(self@[k as int] == compiled_spec(self.routes@[k as int]));
            if Self::matches_pattern(&route.parts, &path) {
                return Some(
                    RouteMatch {
                        upstream_id: route.upstream_id,
                        pattern: route.pattern.clone(),
                        priority: route.priority,
                    },
                );
            }
            k = k + 1;
        }
        None
    }

    /// Check if a pattern matches a repository path.
    fn matches_pattern(parts: &Vec<PatternPart>, path: &Vec<char>) -> (r: bool)
        ensures
            r == match_rec(parts_view(parts@), path@, 0, 0, 0).0,
    {
        let mut iterations: usize = 0;
        Self::match_recursive(parts, path, 0, 0, &mut iterations)
    }
}

} // verus!

verus! {

// ==================== Laws ====================

/// The bounded search never spends fewer steps than it started with; an
/// answer of "match" is always a glob match; and when the search ends within
/// its step bound, its answer is exactly the glob semantics.
pub proof fn lemma_bounded_search_agrees_with_glob(
    parts: Seq<PartSpec>,
    path: Seq<char>,
    pi: nat,
    pos: nat,
    used: nat,
)
    ensures
        ({
            let r = match_rec(parts, path, pi, pos, used);
            &&& r.1 >= used
            &&& r.0 ==> glob(parts, path, pi, pos)
            &&& r.1 < MAX_MATCH_ITERATIONS ==> r.0 == glob(parts, path, pi, pos)
        }),
    decreases parts.len() - pi, 1nat, 0nat,
{
    if used >= MAX_MATCH_ITERATIONS {
    } else if pi >= parts.len() {
    } else {
        match parts[pi as int] {
            PartSpec::Lit(l) => {
                if occurs_at(path, pos as int, l) {
                    lemma_bounded_search_agrees_with_glob(parts, path, pi + 1, pos + l.len(), used + 1);
                }
            },
            PartSpec::One => {
                let q = next_slash(path, pos as int);
                if q >= pos {
                    lemma_bounded_search_agrees_with_glob(parts, path, pi + 1, q as nat, used + 1);
                }
            },
            PartSpec::Many => {
                if pi + 1 < parts.len() {
                    lemma_many_loop_agrees_with_glob(parts, path, pi, pos, 0, used + 1);
                }
            },
        }
    }
}

/// The `**` search agrees with `glob_any`, in the same sense as
/// `lemma_bounded_search_agrees_with_glob`.
pub proof fn lemma_many_loop_agrees_with_glob(
    parts: Seq<PartSpec>,
    path: Seq<char>,
    pi: nat,
    pos: nat,
    i: nat,
    used: nat,
)
    ensures
        ({
            let r = many_loop(parts, path, pi, pos, i, used);
            &&& r.1 >= used
            &&& r.0 ==> glob_any(parts, path, pi, pos, i)
            &&& r.1 < MAX_MATCH_ITERATIONS ==> r.0 == glob_any(parts, path, pi, pos, i)
        }),
    decreases parts.len() - pi, 0nat, path.len() + 1 - pos - i,
{
    if pi + 1 >= parts.len() || pos + i > path.len() {
    } else {
        lemma_bounded_search_agrees_with_glob(parts, path, pi + 1, pos + i, used);
        let r = match_rec(parts, path, pi + 1, pos + i, used);
        if !r.0 {
            lemma_many_loop_agrees_with_glob(parts, path, pi, pos, i + 1, r.1);
        }
    }
}

/// `glob_any` says that some continuation point at or after `pos + i`,
/// within the path, lets the rest of the pattern match.
pub proof fn lemma_glob_any_is_exists(parts: Seq<PartSpec>, path: Seq<char>, pi: nat, pos: nat, i: nat)
    requires
        pi + 1 < parts.len(),
    ensures
        glob_any(parts, path, pi, pos, i) <==> exists|j: nat|
            j >= i && pos + j <= path.len() && #[trigger] glob(parts, path, pi + 1, pos + j),
    decreases path.len() + 1 - pos - i,
{
    if pos + i <= path.len() {
        lemma_glob_any_is_exists(parts, path, pi, pos, i + 1);
        if glob(parts, path, pi + 1, pos + i) {
            assert(i >= i && pos + i <= path.len() && glob(parts, path, pi + 1, pos + i));
        }
        if exists|j: nat| j >= i && pos + j <= path.len() && #[trigger] glob(parts, path, pi + 1, pos + j) {
            let j = choose|j: nat| j >= i && pos + j <= path.len() && #[trigger] glob(parts, path, pi + 1, pos + j);
            if j != i {
                assert(j >= i + 1 && pos + j <= path.len() && glob(parts, path, pi + 1, pos + j));
            }
        }
    }
}

/// Routes in nondecreasing priority order.
pub open spec fn sorted_by_priority(s: Seq<RouteSpec>) -> bool {
    forall|i: int, j: int| 0 <= i < j < s.len() ==> s[i].priority <= s[j].priority
}

proof fn lemma_contains_push<A>(s: Seq<A>, a: A, x: A)
    ensures
        s.push(a).contains(x) <==> (s.contains(x) || x == a),
{
    if s.push(a).contains(x) {
        let i = choose|i: int| 0 <= i < s.push(a).len() && s.push(a)[i] == x;
        if i < s.len() {
            assert(s[i] == x);
        }
    }
    if s.contains(x) {
        let i = choose|i: int| 0 <= i < s.len() && s[i] == x;
        assert(s.push(a)[i] == x);
    }
    if x == a {
        assert(s.push(a)[s.len() as int] == x);
    }
}

proof fn lemma_contains_drop_last<A>(s: Seq<A>, x: A)
    requires
        s.len() > 0,
    ensures
        s.contains(x) <==> (s.drop_last().contains(x) || x == s.last()),
{
    assert(s.drop_last().push(s.last()) =~= s);
    lemma_contains_push(s.drop_last(), s.last(), x);
}

/// Inserting keeps order and adds exactly the inserted route.
proof fn lemma_insert_by_priority(s: Seq<RouteSpec>, r: RouteSpec)
    ensures
        insert_by_priority(s, r).len() == s.len() + 1,
        forall|x: RouteSpec| #[trigger] insert_by_priority(s, r).contains(x) <==> (s.contains(x) || x == r),
        sorted_by_priority(s) ==> sorted_by_priority(insert_by_priority(s, r)),
    decreases s.len(),
{
    let t = insert_by_priority(s, r);
    if s.len() == 0 {
        assert forall|x: RouteSpec| #[trigger] t.contains(x) <==> (s.contains(x) || x == r) by {
            assert(t[0] == r);
        }
    } else if s.last().priority <= r.priority {
        assert forall|x: RouteSpec| #[trigger] t.contains(x) <==> (s.contains(x) || x == r) by {
            lemma_contains_push(s, r, x);
        }
    } else {
        let u = insert_by_priority(s.drop_last(), r);
        lemma_insert_by_priority(s.drop_last(), r);
        assert forall|x: RouteSpec| #[trigger] t.contains(x) <==> (s.contains(x) || x == r) by {
            lemma_contains_push(u, s.last(), x);
            lemma_contains_drop_last(s, x);
        }
        if sorted_by_priority(s) {
            assert(sorted_by_priority(s.drop_last()));
            assert forall|i: int, j: int| 0 <= i < j < t.len() implies t[i].priority <= t[j].priority by {
                if j == t.len() - 1 {
                    let x = u[i];
                    assert(u.contains(x));
                    if x != r {
                        let k = choose|k: int| 0 <= k < s.drop_last().len() && s.drop_last()[k] == x;
                        assert(s[k] == x);
                    }
                }
            }
        }
    }
}

/// The stable sort keeps exactly the given routes and orders them.
pub proof fn lemma_sort_by_priority(s: Seq<RouteSpec>)
    ensures
        sorted_by_priority(sort_by_priority(s)),
        sort_by_priority(s).len() == s.len(),
        forall|x: RouteSpec| #[trigger] sort_by_priority(s).contains(x) <==> s.contains(x),
    decreases s.len(),
{
    if s.len() > 0 {
        lemma_sort_by_priority(s.drop_last());
        lemma_insert_by_priority(sort_by_priority(s.drop_last()), s.last());
        assert forall|x: RouteSpec| #[trigger] sort_by_priority(s).contains(x) <==> s.contains(x) by {
            lemma_contains_drop_last(s, x);
        }
    }
}

/// What [`first_match_from`] answers: the first matching route from `k` on.
pub proof fn lemma_first_match_from(routes: Seq<RouteSpec>, path: Seq<char>, k: int)
    requires
        0 <= k,
    ensures
        match first_match_from(routes, path, k) {
            Some(j) => k <= j < routes.len() && route_matches(routes[j].pattern, path) && forall|i: int|
                k <= i < j ==> !route_matches(#[trigger] routes[i].pattern, path),
            None => forall|i: int| k <= i < routes.len() ==> !route_matches(#[trigger] routes[i].pattern, path),
        },
    decreases routes.len() - k,
{
    if k < routes.len() && !route_matches(routes[k].pattern, path) {
        lemma_first_match_from(routes, path, k + 1);
    }
}

/// Among the routes a matcher is built from, its answer for a path is a route
/// that matches and has the lowest priority of all matching routes; it
/// answers nothing exactly when no route matches.
pub proof fn lemma_match_has_lowest_priority(routes: Seq<RouteSpec>, path: Seq<char>)
    ensures
        ({
            let sorted = sort_by_priority(routes);
            match first_match_from(sorted, path, 0) {
                Some(k) => {
                    &&& routes.contains(sorted[k])
                    &&& route_matches(sorted[k].pattern, path)
                    &&& forall|r: RouteSpec|
                        routes.contains(r) && route_matches(r.pattern, path) ==> sorted[k].priority <= r.priority
                },
                None => forall|r: RouteSpec| routes.contains(r) ==> !route_matches(r.pattern, path),
            }
        }),
{
    let sorted = sort_by_priority(routes);
    lemma_sort_by_priority(routes);
    lemma_first_match_from(sorted, path, 0);
    match first_match_from(sorted, path, 0) {
        Some(k) => {
            assert(sorted.contains(sorted[k]));
            assert forall|r: RouteSpec| routes.contains(r) && route_matches(r.pattern, path) implies sorted[k].priority
                <= r.priority by {
                assert(sorted.contains(r));
                let m = choose|m: int| 0 <= m < sorted.len() && sorted[m] == r;
                if m < k {
                    assert(!route_matches(sorted[m].pattern, path));
                }
            }
        },
        None => {
            assert forall|r: RouteSpec| routes.contains(r) implies !route_matches(r.pattern, path) by {
                assert(sorted.contains(r));
                let m = choose|m: int| 0 <= m < sorted.len() && sorted[m] == r;
                assert(!route_matches(sorted[m].pattern, path));
            }
        },
    }
}

/// `routes[a]` is the route a lookup of `path` should pick: it matches, no
/// matching route has a lower priority, and no earlier matching route has
/// the same priority.
pub open spec fn is_best_match(routes: Seq<RouteSpec>, path: Seq<char>, a: int) -> bool {
    &&& 0 <= a < routes.len()
    &&& route_matches(routes[a].pattern, path)
    &&& forall|b: int|
        0 <= b < routes.len() && route_matches(#[trigger] routes[b].pattern, path) ==> routes[a].priority
            <= routes[b].priority
    &&& forall|b: int|
        0 <= b < a && route_matches(#[trigger] routes[b].pattern, path) ==> routes[b].priority != routes[a].priority
}

/// Inserting `x` puts it after a prefix and before a suffix of `t` whose
/// priorities all exceed its own; in a sorted `t` the prefix's priorities
/// are at most its own.
proof fn lemma_insert_split(t: Seq<RouteSpec>, x: RouteSpec) -> (m: int)
    ensures
        0 <= m <= t.len(),
        insert_by_priority(t, x) == t.take(m) + seq![x] + t.skip(m),
        forall|i: int| m <= i < t.len() ==> #[trigger] t[i].priority > x.priority,
        sorted_by_priority(t) ==> forall|i: int| 0 <= i < m ==> #[trigger] t[i].priority <= x.priority,
    decreases t.len(),
{
    if t.len() == 0 {
        assert(insert_by_priority(t, x) =~= t.take(0) + seq![x] + t.skip(0));
        0
    } else if t.last().priority <= x.priority {
        let n = t.len() as int;
        assert(insert_by_priority(t, x) =~= t.take(n) + seq![x] + t.skip(n));
        if sorted_by_priority(t) {
            assert forall|i: int| 0 <= i < n implies #[trigger] t[i].priority <= x.priority by {
                if i < n - 1 {
                    assert(t[i].priority <= t[n - 1].priority);
                }
            }
        }
        n
    } else {
        let d = t.drop_last();
        let m = lemma_insert_split(d, x);
        assert(insert_by_priority(t, x) =~= t.take(m) + seq![x] + t.skip(m)) by {
            assert(d.take(m) =~= t.take(m));
            assert(d.skip(m).push(t.last()) =~= t.skip(m));
        }
        assert forall|i: int| m <= i < t.len() implies #[trigger] t[i].priority > x.priority by {
            if i < t.len() - 1 {
                assert(t[i] == d[i]);
            }
        }
        if sorted_by_priority(t) {
            assert(sorted_by_priority(d));
            assert forall|i: int| 0 <= i < m implies #[trigger] t[i].priority <= x.priority by {
                assert(t[i] == d[i]);
            }
        }
        m
    }
}

/// The route a lookup answers with, found in the given routes: the best
/// match of [`is_best_match`], by index.
proof fn lemma_sorted_lookup(s: Seq<RouteSpec>, path: Seq<char>) -> (a: int)
    ensures
        match first_match_from(sort_by_priority(s), path, 0) {
            Some(k) => is_best_match(s, path, a) && sort_by_priority(s)[k] == s[a],
            None => forall|b: int| 0 <= b < s.len() ==> !route_matches(#[trigger] s[b].pattern, path),
        },
    decreases s.len(),
{
    let u = sort_by_priority(s);
    lemma_first_match_from(u, path, 0);
    if s.len() == 0 {
        return 0;
    }
    let d = s.drop_last();
    let x = s.last();
    let lx = s.len() - 1;
    let t = sort_by_priority(d);
    lemma_sort_by_priority(d);
    let a1 = lemma_sorted_lookup(d, path);
    lemma_first_match_from(t, path, 0);
    let m = lemma_insert_split(t, x);
    assert(u == t.take(m) + seq![x] + t.skip(m));
    assert(u.len() == t.len() + 1);
    assert(forall|i: int| 0 <= i < m ==> #[trigger] u[i] == t[i]);
    assert(u[m] == x);
    assert(forall|i: int| m < i < u.len() ==> #[trigger] u[i] == t[i - 1]);
    assert(forall|b: int| 0 <= b < lx ==> #[trigger] s[b] == d[b]);
    assert(s[lx] == x);
    let xm = route_matches(x.pattern, path);
    match first_match_from(t, path, 0) {
        None => {
            if xm {
                assert(first_match_from(u, path, 0) == Some(m)) by {
                    match first_match_from(u, path, 0) {
                        Some(j) => {
                            if j < m {
                                assert(u[j] == t[j]);
                            } else if j > m {
                                assert(route_matches(u[m].pattern, path));
                            }
                        },
                        None => {
                            assert(route_matches(u[m].pattern, path));
                        },
                    }
                }
                assert forall|b: int| 0 <= b < s.len() && route_matches(#[trigger] s[b].pattern, path) implies b == lx by {
                    if b < lx {
                        assert(s[b] == d[b]);
                    }
                }
                lx
            } else {
                assert(first_match_from(u, path, 0) is None) by {
                    if let Some(j) = first_match_from(u, path, 0) {
                        if j < m {
                            assert(u[j] == t[j]);
                        } else if j > m {
                            assert(u[j] == t[j - 1]);
                        }
                    }
                }
                assert forall|b: int| 0 <= b < s.len() implies !route_matches(#[trigger] s[b].pattern, path) by {
                    if b < lx {
                        assert(s[b] == d[b]);
                    }
                }
                0
            }
        },
        Some(k1) => {
            let e = t[k1];
            assert(e == d[a1]);
            if xm && x.priority < e.priority {
                assert(k1 >= m) by {
                    if k1 < m {
                        assert(t[k1].priority <= x.priority);
                    }
                }
                assert(first_match_from(u, path, 0) == Some(m)) by {
                    match first_match_from(u, path, 0) {
                        Some(j) => {
                            if j < m {
                                assert(u[j] == t[j]);
                            } else if j > m {
                                assert(route_matches(u[m].pattern, path));
                            }
                        },
                        None => {
                            assert(route_matches(u[m].pattern, path));
                        },
                    }
                }
                assert forall|b: int|
                    0 <= b < s.len() && route_matches(#[trigger] s[b].pattern, path) implies s[lx].priority
                    <= s[b].priority && (b < lx ==> s[b].priority != s[lx].priority) by {
                    if b < lx {
                        assert(s[b] == d[b]);
                        assert(d[a1].priority <= d[b].priority);
                    }
                }
                lx
            } else {
                let j = if k1 < m {
                    k1
                } else {
                    k1 + 1
                };
                assert(u[j] == e);
                assert(xm ==> k1 < m) by {
                    if xm && k1 >= m {
                        assert(t[k1].priority > x.priority);
                    }
                }
                assert(first_match_from(u, path, 0) == Some(j)) by {
                    match first_match_from(u, path, 0) {
                        Some(j2) => {
                            if j2 < j {
                                if j2 < m {
                                    assert(u[j2] == t[j2]);
                                } else if j2 > m {
                                    assert(u[j2] == t[j2 - 1]);
                                }
                            } else if j2 > j {
                                assert(route_matches(u[j].pattern, path));
                            }
                        },
                        None => {
                            assert(route_matches(u[j].pattern, path));
                        },
                    }
                }
                assert(s[a1] == d[a1]);
                assert forall|b: int|
                    0 <= b < s.len() && route_matches(#[trigger] s[b].pattern, path) implies s[a1].priority
                    <= s[b].priority && (b < a1 ==> s[b].priority != s[a1].priority) by {
                    if b < lx {
                        assert(s[b] == d[b]);
                    }
                }
                a1
            }
        },
    }
}

/// A lookup in a matcher built from `routes` answers with the best match:
/// the matching route of lowest priority, and among matching routes of
/// equal priority the one given first. It answers nothing exactly when no
/// route matches.
pub proof fn lemma_equal_priority_earliest_wins(routes: Seq<RouteSpec>, path: Seq<char>)
    ensures
        match first_match_from(sort_by_priority(routes), path, 0) {
            Some(k) => exists|a: int| is_best_match(routes, path, a) && sort_by_priority(routes)[k] == routes[a],
            None => forall|b: int| 0 <= b < routes.len() ==> !route_matches(#[trigger] routes[b].pattern, path),
        },
{
    let a = lemma_sorted_lookup(routes, path);
    if let Some(k) = first_match_from(sort_by_priority(routes), path, 0) {
        assert(is_best_match(routes, path, a) && sort_by_priority(routes)[k] == routes[a]);
    }
}

/// A run of non-`*` characters from `i` ends at the first `*` after it.
proof fn lemma_run_end_at_star(p: Seq<char>, i: int, j: int)
    requires
        0 <= i <= j < p.len(),
        p[j] == '*',
        forall|k: int| i <= k < j ==> p[k] != '*',
    ensures
        run_end(p, i) == j,
    decreases j - i,
{
    if i < j {
        lemma_run_end_at_star(p, i + 1, j);
    }
}

/// The first `/` from `pos` on is at the end exactly when there is none.
proof fn lemma_next_slash(s: Seq<char>, pos: int)
    requires
        0 <= pos <= s.len(),
    ensures
        pos <= next_slash(s, pos) <= s.len(),
        next_slash(s, pos) == s.len() <==> forall|k: int| pos <= k < s.len() ==> s[k] != '/',
    decreases s.len() - pos,
{
    if pos < s.len() && s[pos] != '/' {
        lemma_next_slash(s, pos + 1);
    }
}

/// The compiled form of a literal followed by `*` (or by `**` when `many`).
proof fn lemma_compile_literal_then_star(lit: Seq<char>, many: bool)
    requires
        lit.len() > 0,
        !lit.contains('*'),
    ensures
        compile_spec(lit + (if many { seq!['*', '*'] } else { seq!['*'] })) == seq![
            PartSpec::Lit(lit),
            if many { PartSpec::Many } else { PartSpec::One },
        ],
{
    let tail = if many { seq!['*', '*'] } else { seq!['*'] };
    let p = lit + tail;
    let n = lit.len() as int;
    assert forall|k: int| 0 <= k < n implies p[k] != '*' by {
        assert(p[k] == lit[k]);
        if p[k] == '*' {
            assert(lit.contains('*'));
        }
    }
    assert(p[n] == '*');
    lemma_run_end_at_star(p, 0, n);
    assert(p.subrange(0, n) =~= lit);
    assert(p[0] != '*');
    if many {
        assert(p[n + 1] == '*');
        assert(compile_from(p, n + 2) == Seq::<PartSpec>::empty());
        assert(compile_from(p, n) =~= seq![PartSpec::Many]);
    } else {
        assert(compile_from(p, n + 1) == Seq::<PartSpec>::empty());
        assert(compile_from(p, n) =~= seq![PartSpec::One]);
    }
    assert(compile_from(p, 0) =~= seq![PartSpec::Lit(lit)] + compile_from(p, n));
}

/// `*` covers one path segment: a literal followed by `*` matches a path
/// that begins with the literal exactly when the rest holds no `/` (so
/// `library/*` matches `library/nginx` but not `library/a/b`).
pub proof fn lemma_single_wildcard_stays_in_segment(lit: Seq<char>, rest: Seq<char>)
    requires
        lit.len() > 0,
        !lit.contains('*'),
    ensures
        route_matches(lit + seq!['*'], lit + rest) <==> !rest.contains('/'),
{
    lemma_compile_literal_then_star(lit, false);
    let parts = seq![PartSpec::Lit(lit), PartSpec::One];
    let path = lit + rest;
    let n = lit.len();
    assert(path.subrange(0, n as int) =~= lit);
    assert(occurs_at(path, 0, lit));
    lemma_next_slash(path, n as int);
    let q = next_slash(path, n as int);
    assert(match_rec(parts, path, 2, q as nat, 2) == (q >= path.len(), 3nat));
    assert(match_rec(parts, path, 1, n, 1) == match_rec(parts, path, 2, q as nat, 2));
    assert(match_rec(parts, path, 0, 0, 0) == match_rec(parts, path, 1, 0 + lit.len(), 1));
    if rest.contains('/') {
        let k = choose|k: int| 0 <= k < rest.len() && rest[k] == '/';
        assert(path[n + k] == '/');
    } else {
        assert forall|k: int| n <= k < path.len() implies path[k] != '/' by {
            assert(path[k] == rest[k - n]);
        }
    }
}

/// `**` covers any number of segments: a literal followed by `**` matches
/// every path that begins with the literal (so `team-a/**` matches
/// `team-a/project/image`).
pub proof fn lemma_multi_wildcard_spans_segments(lit: Seq<char>, rest: Seq<char>)
    requires
        lit.len() > 0,
        !lit.contains('*'),
    ensures
        route_matches(lit + seq!['*', '*'], lit + rest),
{
    lemma_compile_literal_then_star(lit, true);
    let parts = seq![PartSpec::Lit(lit), PartSpec::Many];
    let path = lit + rest;
    assert(path.subrange(0, lit.len() as int) =~= lit);
    assert(occurs_at(path, 0, lit));
    assert(match_rec(parts, path, 1, lit.len(), 1) == (true, 2nat));
    assert(match_rec(parts, path, 0, 0, 0) == match_rec(parts, path, 1, 0 + lit.len(), 1));
}

/// The first `/` from `pos` on: none before it, and it is a `/` unless it
/// is the end of the path.
proof fn lemma_next_slash_exact(s: Seq<char>, pos: int)
    requires
        0 <= pos <= s.len(),
    ensures
        pos <= next_slash(s, pos) <= s.len(),
        forall|k: int| pos <= k < next_slash(s, pos) ==> s[k] != '/',
        next_slash(s, pos) < s.len() ==> s[next_slash(s, pos)] == '/',
    decreases s.len() - pos,
{
    if pos < s.len() && s[pos] != '/' {
        lemma_next_slash_exact(s, pos + 1);
    }
}

/// A run of a pattern placed after `a` ends where it ends on its own,
/// shifted by `a`'s length.
proof fn lemma_run_end_shift(a: Seq<char>, b: Seq<char>, i: int)
    requires
        0 <= i <= b.len(),
    ensures
        run_end(a + b, a.len() + i) == a.len() + run_end(b, i),
    decreases b.len() - i,
{
    if i < b.len() && b[i] != '*' {
        assert((a + b)[a.len() + i] == b[i]);
        lemma_run_end_shift(a, b, i + 1);
    } else if i < b.len() {
        assert((a + b)[a.len() + i] == b[i]);
    }
}

/// Compiling the text after `a` gives what compiling it alone gives: the
/// parts of a pattern do not depend on what stands before them.
proof fn lemma_compile_shift(a: Seq<char>, b: Seq<char>, i: int)
    requires
        0 <= i,
    ensures
        compile_from(a + b, a.len() + i) == compile_from(b, i),
    decreases b.len() - i,
{
    let p = a + b;
    let n = a.len() as int;
    if i >= b.len() {
    } else if b[i] == '*' {
        assert(p[n + i] == '*');
        if i + 1 < b.len() {
            assert(p[n + i + 1] == b[i + 1]);
        }
        if i + 1 < b.len() && b[i + 1] == '*' {
            lemma_compile_shift(a, b, i + 2);
            assert(compile_from(p, n + i + 2) == compile_from(b, i + 2));
        } else {
            lemma_compile_shift(a, b, i + 1);
            assert(compile_from(p, n + i + 1) == compile_from(b, i + 1));
        }
    } else {
        assert(p[n + i] == b[i]);
        lemma_run_end_shift(a, b, i);
        lemma_run_end_bounds(b, i);
        let j = run_end(b, i);
        assert(run_end(p, n + i) == n + j);
        if j > i {
            assert(p.subrange(n + i, n + j) =~= b.subrange(i, j));
            lemma_compile_shift(a, b, j);
            assert(compile_from(p, n + j) == compile_from(b, j));
        }
    }
}

/// The parts of `lit + "*" + rest` (no `*` in `lit`, `rest` not starting
/// with `*`): the literal, if any, a one-segment wildcard, and the parts of
/// `rest`.
proof fn lemma_compile_lone_star(lit: Seq<char>, rest: Seq<char>)
    requires
        !lit.contains('*'),
        rest.len() == 0 || rest[0] != '*',
    ensures
        compile_spec(lit + seq!['*'] + rest) == (if lit.len() > 0 {
            seq![PartSpec::Lit(lit)]
        } else {
            Seq::<PartSpec>::empty()
        }) + seq![PartSpec::One] + compile_spec(rest),
{
    let head = lit + seq!['*'];
    let p = lit + seq!['*'] + rest;
    assert(p =~= head + rest);
    let n = lit.len() as int;
    lemma_compile_shift(head, rest, 0);
    assert(compile_from(p, n + 1) == compile_spec(rest));
    assert(p[n] == '*');
    if n + 1 < p.len() {
        assert(p[n + 1] == rest[0]);
    }
    assert(compile_from(p, n) =~= seq![PartSpec::One] + compile_spec(rest));
    if n > 0 {
        assert forall|k: int| 0 <= k < n implies p[k] != '*' by {
            assert(p[k] == lit[k]);
            if p[k] == '*' {
                assert(lit.contains('*'));
            }
        }
        lemma_run_end_at_star(p, 0, n);
        assert(p.subrange(0, n) =~= lit);
        assert(p[0] != '*');
        assert(compile_from(p, 0) =~= seq![PartSpec::Lit(lit)] + compile_from(p, n));
    }
}

/// Matching the parts after a prefix `x` of parts is matching them alone.
proof fn lemma_glob_shift(x: Seq<PartSpec>, r: Seq<PartSpec>, path: Seq<char>, pi: nat, pos: nat)
    ensures
        glob(x + r, path, x.len() + pi, pos) == glob(r, path, pi, pos),
    decreases r.len() - pi, 1nat, 0nat,
{
    let xr = x + r;
    if pi < r.len() {
        assert(xr[x.len() + pi as int] == r[pi as int]);
        match r[pi as int] {
            PartSpec::Lit(l) => {
                lemma_glob_shift(x, r, path, pi + 1, pos + l.len());
            },
            PartSpec::One => {
                let q = next_slash(path, pos as int);
                if q >= pos {
                    lemma_glob_shift(x, r, path, pi + 1, q as nat);
                }
            },
            PartSpec::Many => {
                if pi + 1 < r.len() {
                    lemma_glob_any_shift(x, r, path, pi, pos, 0);
                }
            },
        }
    }
}

/// The `**` search after a prefix `x` of parts is the search alone.
proof fn lemma_glob_any_shift(x: Seq<PartSpec>, r: Seq<PartSpec>, path: Seq<char>, pi: nat, pos: nat, i: nat)
    ensures
        glob_any(x + r, path, x.len() + pi, pos, i) == glob_any(r, path, pi, pos, i),
    decreases r.len() - pi, 0nat, path.len() + 1 - pos - i,
{
    if pi + 1 < r.len() && pos + i <= path.len() {
        lemma_glob_shift(x, r, path, pi + 1, pos + i);
        lemma_glob_any_shift(x, r, path, pi, pos, i + 1);
    }
}

/// A lone `*` covers exactly one path segment wherever it stands in a
/// pattern: when `lit + "*" + rest` (no `*` in `lit`, `rest` not starting
/// with `*`) matches a path, the path begins with `lit`, the `*` takes the
/// characters after it up to the next `/` or the end, none of which is a
/// `/`, and the rest of the pattern matches from that `/` on. (So
/// `team-*/app` does not match `team-a/sub/app`.)
pub proof fn lemma_lone_wildcard_takes_one_segment(lit: Seq<char>, rest: Seq<char>, path: Seq<char>)
    requires
        !lit.contains('*'),
        rest.len() == 0 || rest[0] != '*',
    ensures
        route_matches(lit + seq!['*'] + rest, path) ==> exists|q: int|
            {
                &&& lit.len() <= q <= path.len()
                &&& path.take(lit.len() as int) == lit
                &&& forall|k: int| lit.len() <= k < q ==> path[k] != '/'
                &&& (q == path.len() || path[q] == '/')
                &&& #[trigger] glob(compile_spec(rest), path, 0, q as nat)
            },
{
    let p = lit + seq!['*'] + rest;
    let n = lit.len() as int;
    let r = compile_spec(rest);
    lemma_compile_lone_star(lit, rest);
    lemma_bounded_search_agrees_with_glob(compile_spec(p), path, 0, 0, 0);
    if route_matches(p, path) {
        let parts = compile_spec(p);
        assert(glob(parts, path, 0, 0));
        if n > 0 {
            let x = seq![PartSpec::Lit(lit), PartSpec::One];
            assert(parts =~= x + r);
            assert(occurs_at(path, 0, lit));
            assert(glob(parts, path, 1, n as nat));
            let q = next_slash(path, n);
            lemma_next_slash_exact(path, n);
            assert(glob(parts, path, 2, q as nat));
            lemma_glob_shift(x, r, path, 0, q as nat);
            assert(path.take(n) =~= path.subrange(0, n));
            assert(glob(r, path, 0, q as nat));
        } else {
            let x = seq![PartSpec::One];
            assert(parts =~= x + r);
            let q = next_slash(path, 0);
            lemma_next_slash_exact(path, 0);
            assert(glob(parts, path, 1, q as nat));
            lemma_glob_shift(x, r, path, 0, q as nat);
            assert(path.take(0) =~= lit);
            assert(glob(r, path, 0, q as nat));
        }
    }
}

/// Under the glob meaning, a lone `*` matches exactly one path segment
/// wherever it stands: `lit + "*" + rest` (no `*` in `lit`, `rest` not
/// starting with `*`) matches a path exactly when the path begins with
/// `lit`, and `rest` matches from some point `q` such that no `/` lies
/// between `lit` and `q` and `q` is a `/` or the end of the path.
pub proof fn lemma_lone_wildcard_glob(lit: Seq<char>, rest: Seq<char>, path: Seq<char>, q: int)
    requires
        !lit.contains('*'),
        rest.len() == 0 || rest[0] != '*',
        lit.len() <= q <= path.len(),
        path.take(lit.len() as int) == lit,
        forall|k: int| lit.len() <= k < q ==> path[k] != '/',
        q == path.len() || path[q] == '/',
    ensures
        glob(compile_spec(lit + seq!['*'] + rest), path, 0, 0) == glob(compile_spec(rest), path, 0, q as nat),
{
    let p = lit + seq!['*'] + rest;
    let n = lit.len() as int;
    let r = compile_spec(rest);
    lemma_compile_lone_star(lit, rest);
    lemma_next_slash_exact(path, n);
    let ns = next_slash(path, n);
    if ns < q {
        assert(path[ns] == '/');
    } else if ns > q {
        assert(path[q] != '/');
    }
    assert(ns == q);
    let parts = compile_spec(p);
    if n > 0 {
        let x = seq![PartSpec::Lit(lit), PartSpec::One];
        assert(parts =~= x + r);
        assert(path.subrange(0, n) =~= path.take(n));
        assert(occurs_at(path, 0, lit));
        lemma_glob_shift(x, r, path, 0, q as nat);
        assert(parts[0] == PartSpec::Lit(lit));
        assert(parts[1] == PartSpec::One);
        assert(glob(parts, path, 1, n as nat) == glob(parts, path, 2, q as nat));
        assert(glob(parts, path, 0, 0) == glob(parts, path, 1, n as nat));
    } else {
        let x = seq![PartSpec::One];
        assert(parts =~= x + r);
        lemma_glob_shift(x, r, path, 0, q as nat);
        assert(parts[0] == PartSpec::One);
        assert(glob(parts, path, 0, 0) == glob(parts, path, 1, q as nat));
    }
}

/// A run of non-`*` characters from `i` with no `*` after it ends at the
/// end of the pattern.
proof fn lemma_run_end_at_end(p: Seq<char>, i: int)
    requires
        0 <= i <= p.len(),
        forall|k: int| i <= k < p.len() ==> p[k] != '*',
    ensures
        run_end(p, i) == p.len(),
    decreases p.len() - i,
{
    if i < p.len() {
        lemma_run_end_at_end(p, i + 1);
    }
}

/// A pattern without wildcards matches exactly the path equal to it.
pub proof fn lemma_exact_pattern(lit: Seq<char>, path: Seq<char>)
    requires
        lit.len() > 0,
        !lit.contains('*'),
    ensures
        route_matches(lit, path) <==> path == lit,
{
    let n = lit.len() as int;
    assert forall|k: int| 0 <= k < n implies lit[k] != '*' by {
        if lit[k] == '*' {
            assert(lit.contains('*'));
        }
    }
    lemma_run_end_at_end(lit, 0);
    assert(lit.subrange(0, n) =~= lit);
    assert(compile_from(lit, n) == Seq::<PartSpec>::empty());
    assert(compile_spec(lit) =~= seq![PartSpec::Lit(lit)]);
    let parts = seq![PartSpec::Lit(lit)];
    if occurs_at(path, 0, lit) {
        assert(match_rec(parts, path, 1, lit.len(), 1) == (lit.len() >= path.len(), 2nat));
        if path.len() <= n {
            assert(path =~= path.subrange(0, n));
        }
    } else {
        if path == lit {
            assert(path.subrange(0, n) =~= lit);
        }
    }
}

} // verus!
