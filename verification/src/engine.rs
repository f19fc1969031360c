//! Rule dependency resolution: the graph of rules and the rules they depend
//! on, cycle detection, and the order in which a pipeline runs its rules.
//!
//! A rule is known by its id; it depends on a list of rule ids. An edge runs
//! from a rule to each of its dependencies that is itself a rule of the graph.

use vstd::prelude::*;
use crate::text::{chars_of, join_strings, join_with, owned, push_chars, push_str, same_text, string_of, string_views};

verus! {

/// Why a pipeline could not be built or run.
#[derive(Debug, Clone)]
pub enum PipelineError {
    /// The rules on a dependency cycle, in dependency order.
    CircularDependency(Vec<String>),
    /// A dependency that names no rule of the graph.
    MissingDependency(String),
    /// A rule failed while it ran.
    RuleExecutionFailed(String),
}

/// The text of an error, as the pipeline reports it.
pub open spec fn pipeline_message(e: PipelineError) -> Seq<char> {
    match e {
        PipelineError::CircularDependency(cycle) => "Circular dependency detected: "@ + join_with(
            string_views(cycle@),
            " -> "@,
        ),
        PipelineError::MissingDependency(rule_id) => "Missing dependency: rule '"@ + rule_id@
            + "' not found"@,
        PipelineError::RuleExecutionFailed(reason) => "Rule execution failed: "@ + reason@,
    }
}

impl PipelineError {
    /// The error's message.
    pub fn message(&self) -> (r: String)
        ensures
            r@ == pipeline_message(*self),
    {
        let mut out: Vec<char> = Vec::new();
        match self {
            PipelineError::CircularDependency(cycle) => {
                push_str(&mut out, "Circular dependency detected: ");
                let joined = join_strings(cycle, " -> ");
                push_chars(&mut out, &joined);
            },
            PipelineError::MissingDependency(rule_id) => {
                push_str(&mut out, "Missing dependency: rule '");
                push_str(&mut out, rule_id.as_str());
                push_str(&mut out, "' not found");
            },
            PipelineError::RuleExecutionFailed(reason) => {
                push_str(&mut out, "Rule execution failed: ");
                push_str(&mut out, reason.as_str());
            },
        }
        string_of(&out)
    }
}

/// The rules of a pipeline and what each depends on.
pub struct RuleDependencyGraph {
    ids: Vec<String>,
    dependencies: Vec<Vec<String>>,
}

/// The content of a dependency graph: rule ids, and for the rule at each
/// position the ids it depends on.
pub struct GraphView {
    pub ids: Seq<Seq<char>>,
    pub deps: Seq<Seq<Seq<char>>>,
}

/// The views of a list of dependency lists.
pub open spec fn deps_views(v: Seq<Vec<String>>) -> Seq<Seq<Seq<char>>> {
    v.map_values(|d: Vec<String>| string_views(d@))
}

impl View for RuleDependencyGraph {
    type V = GraphView;

    closed spec fn view(&self) -> GraphView {
        GraphView { ids: string_views(self.ids@), deps: deps_views(self.dependencies@) }
    }
}

/// Each rule id occurs once, and every rule has its list of dependencies.
pub open spec fn graph_wf(g: GraphView) -> bool {
    &&& g.ids.len() == g.deps.len()
    &&& g.ids.no_duplicates()
}

/// Rule `u` depends on rule `v`.
pub open spec fn edge(g: GraphView, u: int, v: int) -> bool {
    &&& 0 <= u < g.ids.len()
    &&& 0 <= v < g.ids.len()
    &&& g.deps[u].contains(g.ids[v])
}

/// The `k`-th rule of `c` depends on the next one.
pub open spec fn step(g: GraphView, c: Seq<int>, k: int) -> bool {
    edge(g, c[k], c[k + 1])
}

/// `c` is a dependency cycle: each rule depends on the next, and the last
/// on the first.
pub open spec fn is_cycle(g: GraphView, c: Seq<int>) -> bool {
    &&& c.len() > 0
    &&& forall|k: int| 0 <= k < c.len() - 1 ==> #[trigger] step(g, c, k)
    &&& edge(g, c.last(), c[0])
}

/// No rule depends on itself, directly or through other rules.
pub open spec fn acyclic(g: GraphView) -> bool {
    forall|c: Seq<int>| !#[trigger] is_cycle(g, c)
}

/// The ids of the rules at positions `c`.
pub open spec fn names_of(g: GraphView, c: Seq<int>) -> Seq<Seq<char>> {
    c.map_values(|k: int| g.ids[k])
}

/// `names` lists the rules of a cycle, each rule once, in dependency order.
pub open spec fn is_cycle_report(g: GraphView, names: Seq<Seq<char>>) -> bool {
    exists|c: Seq<int>| #[trigger] is_cycle(g, c) && c.no_duplicates() && names == names_of(g, c)
}

/// Some rule depends on `d`, and `d` is not a rule of the graph.
pub open spec fn missing_dependency(g: GraphView, d: Seq<char>) -> bool {
    &&& exists|u: int| 0 <= u < g.deps.len() && #[trigger] g.deps[u].contains(d)
    &&& !g.ids.contains(d)
}

/// Every dependency of every rule is a rule of the graph.
pub open spec fn deps_present(g: GraphView) -> bool {
    forall|u: int, k: int|
        0 <= u < g.deps.len() && 0 <= k < g.deps[u].len() ==> g.ids.contains(
            #[trigger] g.deps[u][k],
        )
}

/// `order` lists every rule once, each after all the rules it depends on.
pub open spec fn is_dependency_order(g: GraphView, order: Seq<Seq<char>>) -> bool {
    exists|p: Seq<int>|
        {
            &&& p.no_duplicates()
            &&& forall|k: int| 0 <= k < p.len() ==> 0 <= #[trigger] p[k] < g.ids.len()
            &&& forall|u: int| 0 <= u < g.ids.len() ==> #[trigger] p.contains(u)
            &&& forall|i: int, j: int| 0 <= i <= j < p.len() ==> !edge(g, #[trigger] p[i], #[trigger] p[j])
            &&& order == #[trigger] names_of(g, p)
        }
}

/// The graph after registering rule `id` with dependencies `ds`: a rule
/// registered again keeps its place and takes the new dependencies.
pub open spec fn graph_add(g: GraphView, id: Seq<char>, ds: Seq<Seq<char>>) -> GraphView {
    if g.ids.contains(id) {
        GraphView { ids: g.ids, deps: g.deps.update(g.ids.index_of(id), ds) }
    } else {
        GraphView { ids: g.ids.push(id), deps: g.deps.push(ds) }
    }
}

// ---------------------------------------------------------------------
// Dependencies resolved to rule positions.
// ---------------------------------------------------------------------

/// The views of resolved dependency lists.
pub open spec fn rviews(r: Seq<Vec<Option<usize>>>) -> Seq<Seq<Option<usize>>> {
    r.map_values(|x: Vec<Option<usize>>| x@)
}

/// `rs` resolves each dependency of `g` to the position of the rule it
/// names, or `None` when it names no rule.
pub open spec fn resolved(g: GraphView, rs: Seq<Seq<Option<usize>>>) -> bool {
    &&& g.ids.len() <= usize::MAX
    &&& rs.len() == g.ids.len()
    &&& forall|u: int| 0 <= u < rs.len() ==> (#[trigger] rs[u]).len() == g.deps[u].len()
    &&& forall|u: int, k: int|
        0 <= u < rs.len() && 0 <= k < rs[u].len() ==> match #[trigger] rs[u][k] {
            Some(v) => v < g.ids.len() && g.ids[v as int] == g.deps[u][k],
            None => !g.ids.contains(g.deps[u][k]),
        }
}

/// Positions in the resolved lists stay below `n`.
pub open spec fn rs_bounded(rs: Seq<Seq<Option<usize>>>, n: int) -> bool {
    &&& rs.len() == n
    &&& n <= usize::MAX
    &&& forall|u: int, k: int|
        0 <= u < n && 0 <= k < rs[u].len() ==> match #[trigger] rs[u][k] {
            Some(v) => v < n,
            None => true,
        }
}

/// Rule `u` has a resolved dependency on rule `v`.
pub open spec fn radj(rs: Seq<Seq<Option<usize>>>, u: int, v: int) -> bool {
    exists|k: int| 0 <= k < rs[u].len() && #[trigger] rs[u][k] == Some(v as usize)
}

/// The `k`-th position of `c` has a resolved dependency on the next.
pub open spec fn rstep(rs: Seq<Seq<Option<usize>>>, c: Seq<usize>, k: int) -> bool {
    radj(rs, c[k] as int, c[k + 1] as int)
}

/// A cycle over resolved dependencies.
pub open spec fn is_rcycle(rs: Seq<Seq<Option<usize>>>, c: Seq<usize>) -> bool {
    &&& c.len() > 0
    &&& forall|k: int| 0 <= k < c.len() ==> (#[trigger] c[k]) < rs.len()
    &&& forall|k: int| 0 <= k < c.len() - 1 ==> #[trigger] rstep(rs, c, k)
    &&& radj(rs, c.last() as int, c[0] as int)
}

/// The positions as integers.
pub open spec fn ints(c: Seq<usize>) -> Seq<int> {
    c.map_values(|x: usize| x as int)
}

/// The state of a depth-first walk: `color` is 0 for unseen, 1 for the
/// rules on the current `path`, 2 for finished rules, listed in `order` in
/// the order they finished; a finished rule's dependencies finished before it.
pub open spec fn walk_inv(
    rs: Seq<Seq<Option<usize>>>,
    n: int,
    color: Seq<u8>,
    path: Seq<usize>,
    order: Seq<usize>,
) -> bool {
    &&& rs_bounded(rs, n)
    &&& color.len() == n
    &&& path.no_duplicates()
    &&& order.no_duplicates()
    &&& forall|k: int| 0 <= k < path.len() ==> (#[trigger] path[k]) < n && color[path[k] as int] == 1
    &&& forall|k: int| 0 <= k < order.len() ==> (#[trigger] order[k]) < n && color[order[k] as int] == 2
    &&& forall|x: int| 0 <= x < n && #[trigger] color[x] == 1 ==> path.contains(x as usize)
    &&& forall|x: int| 0 <= x < n && #[trigger] color[x] == 2 ==> order.contains(x as usize)
    &&& forall|x: int| 0 <= x < n ==> #[trigger] color[x] <= 2
    &&& forall|k: int| 0 <= k < path.len() - 1 ==> #[trigger] rstep(rs, path, k)
    &&& forall|i: int, v: int|
        0 <= i < order.len() && #[trigger] radj(rs, order[i] as int, v) ==> exists|j: int|
            0 <= j < i && #[trigger] order[j] == v as usize
}

/// Every dependency of a finished rule names a rule.
pub open spec fn finished_present(rs: Seq<Seq<Option<usize>>>, order: Seq<usize>) -> bool {
    forall|i: int, k: int|
        0 <= i < order.len() && 0 <= k < rs[order[i] as int].len() ==> (#[trigger] rs[order[i] as int][k]) is Some
}

/// No resolved cycle at all.
pub open spec fn racyclic(rs: Seq<Seq<Option<usize>>>) -> bool {
    forall|c: Seq<usize>| !#[trigger] is_rcycle(rs, c)
}

/// A duplicate-free list of positions below `n` has at most `n` entries.
proof fn lemma_distinct_below(s: Seq<usize>, n: int)
    requires
        0 <= n,
        s.no_duplicates(),
        forall|k: int| 0 <= k < s.len() ==> (#[trigger] s[k]) < n,
    ensures
        s.len() <= n,
{
    let f = |x: usize| x as int;
    let t = s.map_values(f);
    assert(vstd::relations::injective(f)) by {
        assert forall|x: usize, y: usize| #[trigger] f(x) == #[trigger] f(y) implies x == y by {}
    }
    s.lemma_no_duplicates_injective(f);
    t.unique_seq_to_set();
    {
        vstd::set_lib::lemma_int_range(0, n);
        assert forall|e: int| t.to_set().contains(e) implies vstd::set_lib::set_int_range(0, n).contains(
            e,
        ) by {
            let k = choose|k: int| 0 <= k < t.len() && t[k] == e;
            assert(s[k] < n);
        }
        vstd::set_lib::lemma_len_subset(t.to_set(), vstd::set_lib::set_int_range(0, n));
    }
}

/// Along a cycle that starts at a finished rule, the `k`-th rule finished
/// at least `k` places earlier than the start.
proof fn lemma_cycle_finish_pos(
    rs: Seq<Seq<Option<usize>>>,
    n: int,
    color: Seq<u8>,
    path: Seq<usize>,
    order: Seq<usize>,
    c: Seq<usize>,
    i0: int,
    k: int,
) -> (ik: int)
    requires
        walk_inv(rs, n, color, path, order),
        is_rcycle(rs, c),
        0 <= i0 < order.len(),
        order[i0] == c[0],
        0 <= k < c.len(),
    ensures
        0 <= ik < order.len(),
        order[ik] == c[k],
        ik + k <= i0,
    decreases k,
{
    if k == 0 {
        i0
    } else {
        let ip = lemma_cycle_finish_pos(rs, n, color, path, order, c, i0, k - 1);
        assert(rstep(rs, c, k - 1));
        assert(radj(rs, order[ip] as int, c[k] as int));
        let j = choose|j: int| 0 <= j < ip && #[trigger] order[j] == c[k] as usize;
        j
    }
}

/// No rule of a cycle is finished: dependencies finish strictly earlier,
/// so the cycle would have to finish before itself.
proof fn lemma_finished_no_cycle(
    rs: Seq<Seq<Option<usize>>>,
    n: int,
    color: Seq<u8>,
    path: Seq<usize>,
    order: Seq<usize>,
    c: Seq<usize>,
)
    requires
        walk_inv(rs, n, color, path, order),
        is_rcycle(rs, c),
    ensures
        !order.contains(c[0]),
{
    if order.contains(c[0]) {
        let i0 = choose|i: int| 0 <= i < order.len() && order[i] == c[0];
        let il = lemma_cycle_finish_pos(rs, n, color, path, order, c, i0, c.len() - 1);
        assert(radj(rs, order[il] as int, c[0] as int));
        let j = choose|j: int| 0 <= j < il && #[trigger] order[j] == c[0] as usize;
        assert(order[j] == order[i0]);
    }
}

/// Resolved adjacency is exactly the dependency relation of the graph.
proof fn lemma_radj_edge(g: GraphView, rs: Seq<Seq<Option<usize>>>, u: int, v: int)
    requires
        graph_wf(g),
        resolved(g, rs),
        0 <= u < g.ids.len(),
        0 <= v < g.ids.len(),
    ensures
        radj(rs, u, v) <==> edge(g, u, v),
{
    if radj(rs, u, v) {
        let k = choose|k: int| 0 <= k < rs[u].len() && #[trigger] rs[u][k] == Some(v as usize);
        assert(g.deps[u][k] == g.ids[v]);
        assert(g.deps[u].contains(g.ids[v]));
    }
    if edge(g, u, v) {
        let k = choose|k: int| 0 <= k < g.deps[u].len() && g.deps[u][k] == g.ids[v];
        assert(rs[u].len() == g.deps[u].len());
        match rs[u][k] {
            Some(w) => {
                assert(g.ids[w as int] == g.ids[v]);
                assert(w as int == v);
            },
            None => {
                assert(g.ids.contains(g.ids[v]));
            },
        }
    }
}

/// A cycle of the graph is a resolved cycle of its positions, and back.
proof fn lemma_cycle_iff(g: GraphView, rs: Seq<Seq<Option<usize>>>, c: Seq<usize>)
    requires
        graph_wf(g),
        resolved(g, rs),
        forall|k: int| 0 <= k < c.len() ==> (#[trigger] c[k]) < g.ids.len(),
    ensures
        is_rcycle(rs, c) <==> is_cycle(g, ints(c)),
{
    let ci = ints(c);
    if c.len() > 0 {
        assert forall|k: int| 0 <= k < c.len() - 1 implies (#[trigger] rstep(rs, c, k)) == step(g, ci, k) by {
            lemma_radj_edge(g, rs, c[k] as int, c[k + 1] as int);
        }
        lemma_radj_edge(g, rs, c.last() as int, c[0] as int);
        if is_cycle(g, ci) {
            assert forall|k: int| 0 <= k < c.len() - 1 implies #[trigger] rstep(rs, c, k) by {
                assert(step(g, ci, k));
            }
        }
        if is_rcycle(rs, c) {
            assert forall|k: int| 0 <= k < ci.len() - 1 implies #[trigger] step(g, ci, k) by {
                assert(rstep(rs, c, k));
            }
        }
    }
}

/// The walk from `node` looking for a dependency cycle. On success `node`
/// and everything reachable from it is finished; otherwise the result is a
/// resolved cycle, each rule once.
fn dfs_cycle_check(
    rs: &Vec<Vec<Option<usize>>>,
    node: usize,
    color: &mut Vec<u8>,
    path: &mut Vec<usize>,
    order: &mut Vec<usize>,
) -> (res: Result<(), Vec<usize>>)
    requires
        walk_inv(rviews(rs@), rs@.len() as int, old(color)@, old(path)@, old(order)@),
        node < rs@.len(),
        old(color)@[node as int] == 0,
        old(path)@.len() > 0 ==> radj(rviews(rs@), old(path)@.last() as int, node as int),
    ensures
        match res {
            Ok(()) => {
                &&& walk_inv(rviews(rs@), rs@.len() as int, final(color)@, final(path)@, final(order)@)
                &&& final(path)@ == old(path)@
                &&& final(color)@[node as int] == 2
                &&& old(order)@.len() <= final(order)@.len()
                &&& final(order)@.take(old(order)@.len() as int) == old(order)@
            },
            Err(c) => is_rcycle(rviews(rs@), c@) && c@.no_duplicates() && forall|k: int|
                0 <= k < c@.len() ==> (#[trigger] c@[k]) < rs@.len(),
        },
    decreases rs@.len() - old(path)@.len(),
{
    let ghost rsv = rviews(rs@);
    let ghost n = rs@.len() as int;
    let ghost path0 = path@;
    let ghost order0 = order@;
    proof {
        lemma_enter(rsv, n, color@, path@, order@, node);
    }
    color.set(node, 1);
    path.push(node);
    let deps = &rs[node];
    let mut k: usize = 0;
    while k < deps.len()
        invariant
            rsv == rviews(rs@),
            n == rs@.len(),
            node < n,
            path0 == old(path)@,
            deps@ == rsv[node as int],
            k <= deps@.len(),
            walk_inv(rsv, n, color@, path@, order@),
            path@ == path0.push(node),
            order0.len() <= order@.len(),
            order@.take(order0.len() as int) == order0,
            forall|j: int| 0 <= j < k ==> match #[trigger] deps@[j] {
                Some(v) => order@.contains(v),
                None => true,
            },
        decreases deps.len() - k,
    {
        if let Some(dep) = deps[k] {
            proof {
                assert(rsv[node as int][k as int] == Some(dep));
                assert(dep < n);
            }
            if color[dep] == 0 {
                let ghost order_before = order@;
                proof {
                    assert(radj(rsv, path@.last() as int, dep as int));
                    lemma_enter(rsv, n, color@, path@, order@, dep);
                }
                match dfs_cycle_check(rs, dep, color, path, order) {
                    Err(c) => {
                        return Err(c);
                    },
                    Ok(()) => {
                        proof {
                            assert(order@.take(order0.len() as int) =~= order_before.take(
                                order0.len() as int,
                            ));
                            assert(color@[dep as int] == 2);
                            assert(order@.contains(dep));
                            assert forall|j: int| 0 <= j < k implies match #[trigger] deps@[j] {
                                Some(v) => order@.contains(v),
                                None => true,
                            } by {
                                match deps@[j] {
                                    Some(v) => {
                                        assert(order_before.contains(v));
                                        let i = choose|i: int| 0 <= i < order_before.len() && order_before[i] == v;
                                        assert(order@.take(order_before.len() as int) == order_before);
                                        assert(order@[i] == v);
                                    },
                                    None => {},
                                }
                            }
                        }
                    },
                }
            } else if color[dep] == 1 {
                let mut pos: usize = 0;
                while pos < path.len() && path[pos] != dep
                    invariant
                        pos <= path@.len(),
                        forall|j: int| 0 <= j < pos ==> path@[j] != dep,
                    decreases path.len() - pos,
                {
                    pos += 1;
                }
                proof {
                    if pos == path@.len() {
                        assert(path@.contains(dep));
                        let j = choose|j: int| 0 <= j < path@.len() && path@[j] == dep;
                        assert(path@[j] != dep);
                    }
                }
                let mut cycle: Vec<usize> = Vec::new();
                let mut q = pos;
                while q < path.len()
                    invariant
                        pos <= q <= path@.len(),
                        cycle@ == path@.subrange(pos as int, q as int),
                    decreases path.len() - q,
                {
                    cycle.push(path[q]);
                    q += 1;
                    assert(cycle@ =~= path@.subrange(pos as int, q as int));
                }
                proof {
                    let c = cycle@;
                    assert(c.len() > 0);
                    assert forall|j: int| 0 <= j < c.len() - 1 implies #[trigger] rstep(rsv, c, j) by {
                        assert(rstep(rsv, path@, pos + j));
                    }
                    assert(c.last() == node);
                    assert(c[0] == dep);
                    assert(rsv[node as int][k as int] == Some(dep));
                    assert(radj(rsv, c.last() as int, c[0] as int));
                    assert forall|a: int, b: int| 0 <= a < b < c.len() implies c[a] != c[b] by {
                        assert(path@[pos + a] != path@[pos + b]);
                    }
                    assert forall|j: int| 0 <= j < c.len() implies (#[trigger] c[j]) < n by {
                        assert(path@[pos + j] < n);
                    }
                }
                return Err(cycle);
            } else {
                proof {
                    assert(color@[dep as int] == 2);
                    assert(order@.contains(dep));
                }
            }
        }
        k += 1;
    }
    let ghost order_mid = order@;
    proof {
        lemma_finish(rsv, n, color@, path0, order@, node);
    }
    path.pop();
    color.set(node, 2);
    order.push(node);
    proof {
        assert(path@ =~= path0);
        assert(order@.take(order0.len() as int) =~= order_mid.take(order0.len() as int));
    }
    Ok(())
}


/// Entering `node` (marking it as on the path) keeps the walk state.
proof fn lemma_enter(
    rs: Seq<Seq<Option<usize>>>,
    n: int,
    color0: Seq<u8>,
    path0: Seq<usize>,
    order: Seq<usize>,
    node: usize,
)
    requires
        walk_inv(rs, n, color0, path0, order),
        node < n,
        color0[node as int] == 0,
        path0.len() > 0 ==> radj(rs, path0.last() as int, node as int),
    ensures
        walk_inv(rs, n, color0.update(node as int, 1), path0.push(node), order),
        path0.len() < n,
{
    let color = color0.update(node as int, 1);
    let path = path0.push(node);
    assert(!path0.contains(node)) by {
        if path0.contains(node) {
            let k = choose|k: int| 0 <= k < path0.len() && path0[k] == node;
            assert(color0[path0[k] as int] == 1);
        }
    }
    assert(path.no_duplicates()) by {
        assert forall|a: int, b: int| 0 <= a < b < path.len() implies path[a] != path[b] by {
            if b == path0.len() {
                assert(path0[a] != node);
            }
        }
    }
    lemma_distinct_below(path, n);
    assert(path.drop_last() == path0);
    assert forall|k: int| 0 <= k < path.len() - 1 implies #[trigger] rstep(rs, path, k) by {
        if k < path0.len() - 1 {
            assert(rstep(rs, path0, k));
        }
    }
    assert forall|x: int| 0 <= x < n && #[trigger] color[x] == 1 implies path.contains(x as usize) by {
        if x != node {
            assert(path0.contains(x as usize));
            let k = choose|k: int| 0 <= k < path0.len() && path0[k] == x as usize;
            assert(path[k] == x as usize);
        } else {
            assert(path[path0.len() as int] == node);
        }
    }
    assert forall|x: int| 0 <= x < n && #[trigger] color[x] == 2 implies order.contains(x as usize) by {
        assert(color0[x] == 2);
    }
    assert forall|k: int| 0 <= k < order.len() implies (#[trigger] order[k]) < n && color[order[k] as int] == 2 by {
        assert(color0[order[k] as int] == 2);
    }
    assert forall|k: int| 0 <= k < path.len() implies (#[trigger] path[k]) < n && color[path[k] as int] == 1 by {
        if k < path0.len() {
            assert(path[k] == path0[k]);
        }
    }
}

/// Finishing `node`, whose resolved dependencies have all finished, keeps
/// the walk state.
proof fn lemma_finish(
    rs: Seq<Seq<Option<usize>>>,
    n: int,
    color: Seq<u8>,
    path0: Seq<usize>,
    order: Seq<usize>,
    node: usize,
)
    requires
        walk_inv(rs, n, color, path0.push(node), order),
        node < n,
        forall|j: int| 0 <= j < rs[node as int].len() ==> match #[trigger] rs[node as int][j] {
            Some(v) => order.contains(v),
            None => true,
        },
    ensures
        walk_inv(rs, n, color.update(node as int, 2), path0, order.push(node)),
{
    let path_mid = path0.push(node);
    let color2 = color.update(node as int, 2);
    let order2 = order.push(node);
    assert(path_mid[path0.len() as int] == node);
    assert(color[node as int] == 1);
    assert(!order.contains(node)) by {
        if order.contains(node) {
            let i = choose|i: int| 0 <= i < order.len() && order[i] == node;
            assert(color[order[i] as int] == 2);
        }
    }
    assert(order2.no_duplicates()) by {
        assert forall|a: int, b: int| 0 <= a < b < order2.len() implies order2[a] != order2[b] by {
            if b == order.len() {
                assert(order[a] != node);
            }
        }
    }
    assert(path0.no_duplicates()) by {
        assert forall|a: int, b: int| 0 <= a < b < path0.len() implies path0[a] != path0[b] by {
            assert(path_mid[a] != path_mid[b]);
        }
    }
    assert forall|i: int, v: int|
        0 <= i < order2.len() && #[trigger] radj(rs, order2[i] as int, v) implies exists|j: int|
            0 <= j < i && #[trigger] order2[j] == v as usize by {
        if i < order.len() {
            let j = choose|j: int| 0 <= j < i && #[trigger] order[j] == v as usize;
            assert(order2[j] == v as usize);
        } else {
            let kk = choose|kk: int| 0 <= kk < rs[node as int].len() && #[trigger] rs[node as int][kk] == Some(v as usize);
            assert(order.contains(v as usize));
            let j = choose|j: int| 0 <= j < order.len() && order[j] == v as usize;
            assert(order2[j] == v as usize);
        }
    }
    assert forall|x: int| 0 <= x < n && #[trigger] color2[x] == 1 implies path0.contains(x as usize) by {
        assert(x != node);
        assert(color[x] == 1);
        assert(path_mid.contains(x as usize));
        let k2 = choose|k2: int| 0 <= k2 < path_mid.len() && path_mid[k2] == x as usize;
        assert(k2 < path0.len());
        assert(path0[k2] == x as usize);
    }
    assert forall|x: int| 0 <= x < n && #[trigger] color2[x] == 2 implies order2.contains(x as usize) by {
        if x != node {
            let i = choose|i: int| 0 <= i < order.len() && order[i] == x as usize;
            assert(order2[i] == x as usize);
        } else {
            assert(order2[order.len() as int] == node);
        }
    }
    assert forall|k2: int| 0 <= k2 < path0.len() implies (#[trigger] path0[k2]) < n && color2[path0[k2] as int] == 1 by {
        assert(path_mid[k2] == path0[k2]);
        assert(path_mid[k2] != path_mid[path0.len() as int]);
    }
    assert forall|k2: int| 0 <= k2 < order2.len() implies (#[trigger] order2[k2]) < n && color2[order2[k2] as int] == 2 by {
        if k2 < order.len() {
            assert(order[k2] != node);
        }
    }
    assert forall|k2: int| 0 <= k2 < path0.len() - 1 implies #[trigger] rstep(rs, path0, k2) by {
        assert(rstep(rs, path_mid, k2));
    }
}

/// A dependency of the last rule of the path on a rule of the path closes
/// a cycle: the path from that rule on.
proof fn lemma_path_cycle(
    rs: Seq<Seq<Option<usize>>>,
    n: int,
    color: Seq<u8>,
    path: Seq<usize>,
    order: Seq<usize>,
    dep: usize,
    k: int,
) -> (c: Seq<usize>)
    requires
        walk_inv(rs, n, color, path, order),
        path.len() > 0,
        0 <= k < rs[path.last() as int].len(),
        rs[path.last() as int][k] == Some(dep),
        dep < n,
        color[dep as int] == 1,
    ensures
        is_rcycle(rs, c),
{
    assert(path.contains(dep));
    let pos = choose|p: int| 0 <= p < path.len() && path[p] == dep;
    let c = path.subrange(pos, path.len() as int);
    assert forall|j: int| 0 <= j < c.len() - 1 implies #[trigger] rstep(rs, c, j) by {
        assert(rstep(rs, path, pos + j));
    }
    assert(c.last() == path.last());
    assert(radj(rs, c.last() as int, c[0] as int));
    c
}

/// The walk from `node` that lists finished rules, for a graph without
/// cycles. On success `node` and everything reachable from it is finished
/// and every dependency of a finished rule names a rule; otherwise the
/// result locates a dependency, of the rule at that position, that names no
/// rule.
fn dfs_order(
    rs: &Vec<Vec<Option<usize>>>,
    node: usize,
    color: &mut Vec<u8>,
    path: &mut Vec<usize>,
    order: &mut Vec<usize>,
) -> (res: Result<(), (usize, usize)>)
    requires
        walk_inv(rviews(rs@), rs@.len() as int, old(color)@, old(path)@, old(order)@),
        finished_present(rviews(rs@), old(order)@),
        racyclic(rviews(rs@)),
        node < rs@.len(),
        old(color)@[node as int] == 0,
        old(path)@.len() > 0 ==> radj(rviews(rs@), old(path)@.last() as int, node as int),
    ensures
        match res {
            Ok(()) => {
                &&& walk_inv(rviews(rs@), rs@.len() as int, final(color)@, final(path)@, final(order)@)
                &&& finished_present(rviews(rs@), final(order)@)
                &&& final(path)@ == old(path)@
                &&& final(color)@[node as int] == 2
                &&& old(order)@.len() <= final(order)@.len()
                &&& final(order)@.take(old(order)@.len() as int) == old(order)@
            },
            Err((u, k)) => u < rs@.len() && k < rs@[u as int]@.len() && rs@[u as int]@[k as int] is None,
        },
    decreases rs@.len() - old(path)@.len(),
{
    let ghost rsv = rviews(rs@);
    let ghost n = rs@.len() as int;
    let ghost path0 = path@;
    let ghost order0 = order@;
    proof {
        lemma_enter(rsv, n, color@, path@, order@, node);
    }
    color.set(node, 1);
    path.push(node);
    let deps = &rs[node];
    let mut k: usize = 0;
    while k < deps.len()
        invariant
            rsv == rviews(rs@),
            n == rs@.len(),
            node < n,
            path0 == old(path)@,
            racyclic(rsv),
            deps@ == rsv[node as int],
            k <= deps@.len(),
            walk_inv(rsv, n, color@, path@, order@),
            finished_present(rsv, order@),
            path@ == path0.push(node),
            order0.len() <= order@.len(),
            order@.take(order0.len() as int) == order0,
            forall|j: int| 0 <= j < k ==> match #[trigger] deps@[j] {
                Some(v) => order@.contains(v),
                None => false,
            },
        decreases deps.len() - k,
    {
        match deps[k] {
            None => {
                return Err((node, k));
            },
            Some(dep) => {
                proof {
                    assert(rsv[node as int][k as int] == Some(dep));
                    assert(dep < n);
                }
                if color[dep] == 0 {
                    let ghost order_before = order@;
                    proof {
                        assert(radj(rsv, path@.last() as int, dep as int));
                        lemma_enter(rsv, n, color@, path@, order@, dep);
                    }
                    match dfs_order(rs, dep, color, path, order) {
                        Err(e) => {
                            return Err(e);
                        },
                        Ok(()) => {
                            proof {
                                assert(order@.take(order0.len() as int) =~= order_before.take(
                                    order0.len() as int,
                                ));
                                assert(color@[dep as int] == 2);
                                assert(order@.contains(dep));
                                assert forall|j: int| 0 <= j < k implies match #[trigger] deps@[j] {
                                    Some(v) => order@.contains(v),
                                    None => false,
                                } by {
                                    match deps@[j] {
                                        Some(v) => {
                                            let i = choose|i: int| 0 <= i < order_before.len() && order_before[i] == v;
                                            assert(order@.take(order_before.len() as int) == order_before);
                                            assert(order@[i] == v);
                                        },
                                        None => {},
                                    }
                                }
                            }
                        },
                    }
                } else {
                    proof {
                        if color@[dep as int] == 1 {
                            let c = lemma_path_cycle(rsv, n, color@, path@, order@, dep, k as int);
                            assert(!is_rcycle(rsv, c));
                        }
                        assert(color@[dep as int] == 2);
                        assert(order@.contains(dep));
                    }
                }
            },
        }
        k += 1;
    }
    let ghost order_mid = order@;
    proof {
        lemma_finish(rsv, n, color@, path0, order@, node);
    }
    path.pop();
    color.set(node, 2);
    order.push(node);
    proof {
        assert(path@ =~= path0);
        assert(order@.take(order0.len() as int) =~= order_mid.take(order0.len() as int));
        assert forall|i: int, j: int|
            0 <= i < order@.len() && 0 <= j < rsv[order@[i] as int].len() implies (#[trigger] rsv[order@[i] as int][j]) is Some by {
            if i < order_mid.len() {
                assert(order@[i] == order_mid[i]);
            } else {
                assert(order@[i] == node);
                assert(deps@[j] is Some);
            }
        }
    }
    Ok(())
}


/// A fresh walk state: nothing seen yet.
fn white(n: usize) -> (r: Vec<u8>)
    ensures
        r@.len() == n,
        forall|x: int| 0 <= x < n ==> #[trigger] r@[x] == 0,
{
    let mut r: Vec<u8> = Vec::new();
    let mut i: usize = 0;
    while i < n
        invariant
            i <= n,
            r@.len() == i,
            forall|x: int| 0 <= x < i ==> #[trigger] r@[x] == 0,
        decreases n - i,
    {
        r.push(0);
        i += 1;
    }
    r
}

impl RuleDependencyGraph {
    /// Every graph is well formed: the library keeps `wf` through every
    /// operation.
    #[verifier::type_invariant]
    spec fn inv(&self) -> bool {
        self.wf()
    }

    /// Whether the graph is well formed: each rule id once, and a list of
    /// dependencies for every rule.
    pub open spec fn wf(&self) -> bool {
        graph_wf(self@)
    }

    /// An empty graph.
    pub fn new() -> (r: Self)
        ensures
            r.wf(),
            r@.ids.len() == 0,
            r@.deps.len() == 0,
    {
        let r = RuleDependencyGraph { ids: Vec::new(), dependencies: Vec::new() };
        proof {
            assert(r@.ids =~= Seq::<Seq<char>>::empty());
        }
        r
    }

    /// The position of the rule `rule_id`, if it is registered.
    fn position(&self, rule_id: &str) -> (r: Option<usize>)
        requires
            self.wf(),
        ensures
            match r {
                Some(i) => i < self@.ids.len() && self@.ids[i as int] == rule_id@,
                None => !self@.ids.contains(rule_id@),
            },
    {
        let mut i: usize = 0;
        while i < self.ids.len()
            invariant
                i <= self.ids@.len(),
                forall|j: int| 0 <= j < i ==> self.ids@[j]@ != rule_id@,
            decreases self.ids.len() - i,
        {
            if same_text(self.ids[i].as_str(), rule_id) {
                return Some(i);
            }
            i += 1;
        }
        proof {
            if self@.ids.contains(rule_id@) {
                let j = choose|j: int| 0 <= j < self@.ids.len() && self@.ids[j] == rule_id@;
                assert(self.ids@[j]@ == rule_id@);
            }
        }
        None
    }

    /// Registers rule `rule_id` with its dependencies. A rule registered
    /// again keeps its place and takes the new dependencies.
    pub fn add_rule(&mut self, rule_id: &str, dependencies: Vec<String>)
        ensures
            final(self).wf(),
            final(self)@ == graph_add(old(self)@, rule_id@, string_views(dependencies@)),
    {
        proof {
            use_type_invariant(&*self);
        }
        let found = self.position(rule_id);
        let mut taken = RuleDependencyGraph { ids: Vec::new(), dependencies: Vec::new() };
        proof {
            assert(taken@.ids =~= Seq::<Seq<char>>::empty());
        }
        std::mem::swap(self, &mut taken);
        let RuleDependencyGraph { mut ids, dependencies: mut deps } = taken;
        let ghost g0 = GraphView { ids: string_views(ids@), deps: deps_views(deps@) };
        assert(g0 == old(self)@);
        match found {
            Some(i) => {
                proof {
                    assert(g0.ids.contains(rule_id@));
                    let c = g0.ids.index_of(rule_id@);
                    assert(0 <= c < g0.ids.len() && g0.ids[c] == rule_id@);
                    assert(c == i as int);
                }
                deps.set(i, dependencies);
                proof {
                    assert(deps_views(deps@) =~= g0.deps.update(i as int, string_views(dependencies@)));
                    assert(string_views(ids@) == g0.ids);
                }
            },
            None => {
                ids.push(owned(rule_id));
                deps.push(dependencies);
                proof {
                    assert(string_views(ids@) =~= g0.ids.push(rule_id@));
                    assert(deps_views(deps@) =~= g0.deps.push(string_views(dependencies@)));
                    assert forall|a: int, b: int|
                        0 <= a < b < string_views(ids@).len() implies string_views(ids@)[a]
                        != string_views(ids@)[b] by {
                        if b == g0.ids.len() {
                            assert(g0.ids.contains(g0.ids[a]));
                        }
                    }
                }
            },
        }
        *self = RuleDependencyGraph { ids, dependencies: deps };
    }

    /// Each dependency resolved to the position of the rule it names.
    fn resolve(&self) -> (r: Vec<Vec<Option<usize>>>)
        requires
            self.wf(),
        ensures
            resolved(self@, rviews(r@)),
            rs_bounded(rviews(r@), self@.ids.len() as int),
    {
        let mut r: Vec<Vec<Option<usize>>> = Vec::new();
        let mut u: usize = 0;
        while u < self.dependencies.len()
            invariant
                self.wf(),
                u <= self.dependencies@.len(),
                r@.len() == u,
                forall|w: int| 0 <= w < u ==> (#[trigger] rviews(r@)[w]).len() == self@.deps[w].len(),
                forall|w: int, k: int|
                    0 <= w < u && 0 <= k < rviews(r@)[w].len() ==> match #[trigger] rviews(r@)[w][k] {
                        Some(v) => v < self@.ids.len() && self@.ids[v as int] == self@.deps[w][k],
                        None => !self@.ids.contains(self@.deps[w][k]),
                    },
            decreases self.dependencies.len() - u,
        {
            let ds = &self.dependencies[u];
            let mut row: Vec<Option<usize>> = Vec::new();
            let mut k: usize = 0;
            while k < ds.len()
                invariant
                    self.wf(),
                    u < self.dependencies@.len(),
                    ds@ == self.dependencies@[u as int]@,
                    k <= ds@.len(),
                    row@.len() == k,
                    forall|j: int| 0 <= j < k ==> match #[trigger] row@[j] {
                        Some(v) => v < self@.ids.len() && self@.ids[v as int] == self@.deps[u as int][j],
                        None => !self@.ids.contains(self@.deps[u as int][j]),
                    },
                decreases ds.len() - k,
            {
                assert(ds@[k as int]@ == self@.deps[u as int][k as int]);
                let p = self.position(ds[k].as_str());
                row.push(p);
                k += 1;
            }
            let ghost before = rviews(r@);
            r.push(row);
            proof {
                assert(rviews(r@) =~= before.push(row@));
            }
            u += 1;
        }
        proof {
            let rs = rviews(r@);
            assert forall|w: int, k: int|
                0 <= w < self@.ids.len() && 0 <= k < rs[w].len() implies match #[trigger] rs[w][k] {
                    Some(v) => v < self@.ids.len(),
                    None => true,
                } by {
                match rs[w][k] {
                    Some(v) => {},
                    None => {},
                }
            }
        }
        r
    }

    /// The ids of the rules at positions `c`.
    fn names_at(&self, c: &Vec<usize>) -> (r: Vec<String>)
        requires
            self.wf(),
            forall|k: int| 0 <= k < c@.len() ==> (#[trigger] c@[k]) < self@.ids.len(),
        ensures
            string_views(r@) == names_of(self@, ints(c@)),
    {
        let mut r: Vec<String> = Vec::new();
        let mut k: usize = 0;
        while k < c.len()
            invariant
                self.wf(),
                k <= c@.len(),
                forall|j: int| 0 <= j < c@.len() ==> (#[trigger] c@[j]) < self@.ids.len(),
                string_views(r@) == names_of(self@, ints(c@)).take(k as int),
            decreases c.len() - k,
        {
            let ghost before = string_views(r@);
            r.push(self.ids[c[k]].clone());
            proof {
                assert(string_views(r@) =~= before.push(self@.ids[c@[k as int] as int]));
                assert(names_of(self@, ints(c@)).take(k + 1) =~= names_of(self@, ints(c@)).take(
                    k as int,
                ).push(self@.ids[c@[k as int] as int]));
            }
            k += 1;
        }
        proof {
            assert(names_of(self@, ints(c@)).take(k as int) =~= names_of(self@, ints(c@)));
        }
        r
    }

    /// Checks the graph for dependency cycles: `Ok` exactly when no rule
    /// depends on itself, directly or through other rules; otherwise the
    /// error lists the rules of one cycle.
    pub fn validate(&self) -> (r: Result<(), PipelineError>)
        ensures
            r is Ok <==> acyclic(self@),
            r matches Err(e) ==> e matches PipelineError::CircularDependency(c)
                && is_cycle_report(self@, string_views(c@)),
    {
        proof {
            use_type_invariant(self);
        }
        let rs = self.resolve();
        let ghost rsv = rviews(rs@);
        let n = rs.len();
        let mut u: usize = 0;
        while u < n
            invariant
                n == rs@.len(),
                rsv == rviews(rs@),
                n == self@.ids.len(),
                self.wf(),
                resolved(self@, rsv),
                rs_bounded(rsv, n as int),
                u <= n,
                forall|c: Seq<usize>| #[trigger] is_rcycle(rsv, c) ==> c[0] >= u,
            decreases n - u,
        {
            let mut color = white(n);
            let mut path: Vec<usize> = Vec::new();
            let mut order: Vec<usize> = Vec::new();
            proof {
                assert(walk_inv(rsv, n as int, color@, path@, order@));
            }
            match dfs_cycle_check(&rs, u, &mut color, &mut path, &mut order) {
                Err(c) => {
                    let names = self.names_at(&c);
                    proof {
                        lemma_cycle_iff(self@, rsv, c@);
                        let ci = ints(c@);
                        assert(ci.no_duplicates()) by {
                            assert forall|a: int, b: int| 0 <= a < b < ci.len() implies ci[a] != ci[b] by {
                                assert(c@[a] != c@[b]);
                            }
                        }
                        assert(is_cycle(self@, ci));
                        assert(!acyclic(self@));
                    }
                    return Err(PipelineError::CircularDependency(names));
                },
                Ok(()) => {
                    proof {
                        assert(order@.contains(u));
                        assert forall|c: Seq<usize>| #[trigger] is_rcycle(rsv, c) implies c[0] >= u + 1 by {
                            lemma_finished_no_cycle(rsv, n as int, color@, path@, order@, c);
                            if c[0] == u {
                                assert(order@.contains(c[0]));
                            }
                        }
                    }
                },
            }
            u += 1;
        }
        proof {
            assert forall|c: Seq<int>| !#[trigger] is_cycle(self@, c) by {
                if is_cycle(self@, c) {
                    let cu = c.map_values(|x: int| x as usize);
                    assert forall|k: int| 0 <= k < cu.len() implies (#[trigger] cu[k]) < self@.ids.len() by {
                        if k < c.len() - 1 {
                            assert(step(self@, c, k));
                        } else {
                            assert(edge(self@, c.last(), c[0]));
                        }
                    }
                    assert(ints(cu) =~= c) by {
                        assert forall|k: int| 0 <= k < c.len() implies ints(cu)[k] == c[k] by {
                            if k < c.len() - 1 {
                                assert(step(self@, c, k));
                            } else {
                                assert(edge(self@, c.last(), c[0]));
                            }
                        }
                    }
                    lemma_cycle_iff(self@, rsv, cu);
                    assert(is_rcycle(rsv, cu));
                    assert(cu[0] < n);
                }
            }
        }
        Ok(())
    }

    /// The rules in an order in which each rule comes after every rule it
    /// depends on, so that dependencies run first. Fails with the rules of a cycle when there is one, and
    /// otherwise with a dependency that names no rule when there is one.
    pub fn topological_sort(&self) -> (r: Result<Vec<String>, PipelineError>)
        ensures
            match r {
                Ok(order) => acyclic(self@) && deps_present(self@) && is_dependency_order(
                    self@,
                    string_views(order@),
                ),
                Err(PipelineError::CircularDependency(c)) => !acyclic(self@) && is_cycle_report(
                    self@,
                    string_views(c@),
                ),
                Err(PipelineError::MissingDependency(d)) => acyclic(self@) && missing_dependency(
                    self@,
                    d@,
                ),
                Err(PipelineError::RuleExecutionFailed(_)) => false,
            },
            acyclic(self@) && deps_present(self@) ==> r is Ok,
    {
        proof {
            use_type_invariant(self);
        }
        match self.validate() {
            Err(e) => {
                return Err(e);
            },
            Ok(()) => {},
        }
        let rs = self.resolve();
        let ghost rsv = rviews(rs@);
        let n = rs.len();
        proof {
            assert forall|c: Seq<usize>| !#[trigger] is_rcycle(rsv, c) by {
                if is_rcycle(rsv, c) {
                    lemma_cycle_iff(self@, rsv, c);
                    assert(is_cycle(self@, ints(c)));
                }
            }
        }
        let mut color = white(n);
        let mut path: Vec<usize> = Vec::new();
        let mut order: Vec<usize> = Vec::new();
        let mut u: usize = 0;
        while u < n
            invariant
                n == rs@.len(),
                rsv == rviews(rs@),
                n == self@.ids.len(),
                self.wf(),
                acyclic(self@),
                resolved(self@, rsv),
                racyclic(rsv),
                walk_inv(rsv, n as int, color@, path@, order@),
                finished_present(rsv, order@),
                path@.len() == 0,
                u <= n,
                forall|v: int| 0 <= v < u ==> #[trigger] color@[v] == 2,
            decreases n - u,
        {
            if color[u] == 0 {
                let ghost order_before = order@;
                let ghost color_before = color@;
                match dfs_order(&rs, u, &mut color, &mut path, &mut order) {
                    Err((v, k)) => {
                        proof {
                            assert(rsv[v as int].len() == self@.deps[v as int].len());
                            assert(self@.deps[v as int] == string_views(self.dependencies@[v as int]@));
                        }
                        let d = self.dependencies[v][k].clone();
                        proof {
                            assert(rsv[v as int][k as int] is None);
                            assert(self@.deps[v as int][k as int] == d@);
                            assert(self@.deps[v as int].contains(d@));
                        }
                        return Err(PipelineError::MissingDependency(d));
                    },
                    Ok(()) => {
                        proof {
                            assert forall|v: int| 0 <= v < u implies #[trigger] color@[v] == 2 by {
                                assert(color_before[v] == 2);
                                assert(order_before.contains(v as usize));
                                let i = choose|i: int| 0 <= i < order_before.len() && order_before[i] == v as usize;
                                assert(order@.take(order_before.len() as int) == order_before);
                                assert(order@[i] == v as usize);
                            }
                        }
                    },
                }
            } else {
                proof {
                    if color@[u as int] == 1 {
                        assert(path@.contains(u));
                    }
                }
            }
            u += 1;
        }
        proof {
            assert forall|k: int| 0 <= k < order@.len() implies (#[trigger] order@[k]) < self@.ids.len() by {
            }
        }
        let names = self.names_at(&order);
        proof {
            let p = ints(order@);
            assert(p.no_duplicates()) by {
                assert forall|a: int, b: int| 0 <= a < b < p.len() implies p[a] != p[b] by {
                    assert(order@[a] != order@[b]);
                }
            }
            assert forall|w: int| 0 <= w < self@.ids.len() implies #[trigger] p.contains(w) by {
                assert(color@[w] == 2);
                assert(order@.contains(w as usize));
                let j = choose|j: int| 0 <= j < order@.len() && order@[j] == w as usize;
                assert(p[j] == w);
            }
            assert forall|a: int, b: int| 0 <= a <= b < p.len() implies !edge(self@, #[trigger] p[a], #[trigger] p[b]) by {
                if edge(self@, p[a], p[b]) {
                    lemma_radj_edge(self@, rsv, p[a], p[b]);
                    assert(radj(rsv, order@[a] as int, p[b]));
                    let j = choose|j: int| 0 <= j < a && #[trigger] order@[j] == p[b] as usize;
                    assert(order@[j] == order@[b]);
                }
            }
            assert forall|w: int, k: int|
                0 <= w < self@.deps.len() && 0 <= k < self@.deps[w].len() implies self@.ids.contains(
                    #[trigger] self@.deps[w][k],
                ) by {
                assert(color@[w] == 2);
                let j = choose|j: int| 0 <= j < order@.len() && order@[j] == w as usize;
                assert(rsv[order@[j] as int][k] is Some);
                let v = rsv[w][k]->0;
                assert(self@.ids[v as int] == self@.deps[w][k]);
            }
            assert(is_dependency_order(self@, string_views(names@)));
        }
        Ok(names)
    }
}


/// Runs rules in dependency order; holds a graph that has been checked to
/// have no dependency cycle.
pub struct PipelineExecutor {
    graph: RuleDependencyGraph,
}

impl PipelineExecutor {
    /// The executor's dependency graph.
    pub closed spec fn graph_view(&self) -> GraphView {
        self.graph@
    }

    /// An executor for `graph`, which must have no dependency cycle.
    pub fn new(graph: RuleDependencyGraph) -> (r: Result<Self, PipelineError>)
        ensures
            r is Ok <==> acyclic(graph@),
            r matches Ok(e) ==> e.graph_view() == graph@,
            r matches Err(e) ==> e matches PipelineError::CircularDependency(c)
                && is_cycle_report(graph@, string_views(c@)),
    {
        match graph.validate() {
            Err(e) => Err(e),
            Ok(()) => Ok(PipelineExecutor { graph }),
        }
    }

    /// The order in which the rules run: each rule after the rules it
    /// depends on; fails with a dependency that names no rule.
    pub fn execution_order(&self) -> (r: Result<Vec<String>, PipelineError>)
        ensures
            match r {
                Ok(order) => deps_present(self.graph_view()) && is_dependency_order(
                    self.graph_view(),
                    string_views(order@),
                ),
                Err(PipelineError::CircularDependency(c)) => !acyclic(self.graph_view())
                    && is_cycle_report(self.graph_view(), string_views(c@)),
                Err(PipelineError::MissingDependency(d)) => missing_dependency(
                    self.graph_view(),
                    d@,
                ),
                Err(PipelineError::RuleExecutionFailed(_)) => false,
            },
            acyclic(self.graph_view()) && deps_present(self.graph_view()) ==> r is Ok,
    {
        self.graph.topological_sort()
    }
}


/// Along a cycle, each rule comes strictly earlier in a dependency order
/// than the rule before it.
proof fn lemma_order_positions(g: GraphView, p: Seq<int>, c: Seq<int>, k: int) -> (pk: int)
    requires
        p.no_duplicates(),
        forall|u: int| 0 <= u < g.ids.len() ==> #[trigger] p.contains(u),
        forall|i: int, j: int| 0 <= i <= j < p.len() ==> !edge(g, #[trigger] p[i], #[trigger] p[j]),
        is_cycle(g, c),
        0 <= k < c.len(),
    ensures
        0 <= pk < p.len(),
        p[pk] == c[k],
        forall|q: int| 0 <= q < p.len() && p[q] == c[0] ==> pk + k <= q,
    decreases k,
{
    if k == 0 {
        assert(edge(g, c.last(), c[0]));
        assert(p.contains(c[0]));
        let q = choose|q: int| 0 <= q < p.len() && p[q] == c[0];
        q
    } else {
        let prev = lemma_order_positions(g, p, c, k - 1);
        assert(step(g, c, k - 1));
        assert(edge(g, c[k - 1], c[k]));
        assert(p.contains(c[k]));
        let q = choose|q: int| 0 <= q < p.len() && p[q] == c[k];
        if prev <= q {
            assert(!edge(g, p[prev], p[q]));
        }
        q
    }
}

/// Law: a graph whose rules can be listed each after every rule it depends
/// on has no dependency cycle.
pub proof fn law_dependency_order_means_acyclic(g: GraphView, order: Seq<Seq<char>>)
    requires
        is_dependency_order(g, order),
    ensures
        acyclic(g),
{
    let p = choose|p: Seq<int>|
        {
            &&& p.no_duplicates()
            &&& forall|k: int| 0 <= k < p.len() ==> 0 <= #[trigger] p[k] < g.ids.len()
            &&& forall|u: int| 0 <= u < g.ids.len() ==> #[trigger] p.contains(u)
            &&& forall|i: int, j: int| 0 <= i <= j < p.len() ==> !edge(g, #[trigger] p[i], #[trigger] p[j])
            &&& order == #[trigger] names_of(g, p)
        };
    assert forall|c: Seq<int>| !#[trigger] is_cycle(g, c) by {
        if is_cycle(g, c) {
            let pl = lemma_order_positions(g, p, c, c.len() - 1);
            let p0 = lemma_order_positions(g, p, c, 0);
            assert(edge(g, c.last(), c[0]));
            assert(pl + (c.len() - 1) <= p0);
            assert(!edge(g, p[pl], p[p0]));
        }
    }
}

/// Law: registering a rule makes it known with exactly the dependencies
/// given, keeps every other rule and its dependencies, and keeps the graph
/// well formed.
pub proof fn law_add_rule_registers(g: GraphView, id: Seq<char>, ds: Seq<Seq<char>>)
    requires
        graph_wf(g),
    ensures
        graph_wf(graph_add(g, id, ds)),
        graph_add(g, id, ds).ids.contains(id),
        graph_add(g, id, ds).deps[graph_add(g, id, ds).ids.index_of(id)] == ds,
        forall|k: int| 0 <= k < g.ids.len() ==> graph_add(g, id, ds).ids[k] == g.ids[k],
        forall|k: int|
            0 <= k < g.ids.len() && g.ids[k] != id ==> graph_add(g, id, ds).deps[k] == g.deps[k],
        graph_add(g, id, ds).ids.len() == g.ids.len() + if g.ids.contains(id) {
            0int
        } else {
            1int
        },
{
    let h = graph_add(g, id, ds);
    if g.ids.contains(id) {
        let i = g.ids.index_of(id);
        assert(0 <= i < g.ids.len() && g.ids[i] == id);
        assert forall|k: int| 0 <= k < g.ids.len() && g.ids[k] != id implies h.deps[k] == g.deps[k] by {
            assert(k != i);
        }
    } else {
        assert(h.ids[g.ids.len() as int] == id);
        assert(h.ids.contains(id));
        let i = h.ids.index_of(id);
        assert(0 <= i < h.ids.len() && h.ids[i] == id);
        if i < g.ids.len() {
            assert(g.ids[i] == id);
        }
        assert(i == g.ids.len());
        assert forall|a: int, b: int| 0 <= a < b < h.ids.len() implies h.ids[a] != h.ids[b] by {
            if b == g.ids.len() {
                assert(g.ids.contains(g.ids[a]));
            }
        }
    }
}

} // verus!
