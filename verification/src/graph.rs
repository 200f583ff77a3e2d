//! Directed graphs over module indices: reachability, feedback cycles and
//! the greedy topological order used to schedule module ticks.
//!
//! Nodes are the indices `0..n`; an edge `(u, v)` says that module `u`
//! feeds module `v`. Edges from a node to itself are ignored, as a cable
//! within one module is no feedback between modules.

use vstd::prelude::*;
use vstd::set_lib::*;

verus! {

/// There is an edge from `u` to `v` (self-loops do not count).
pub open spec fn has_edge(edges: Seq<(usize, usize)>, u: int, v: int) -> bool {
    u != v && exists|k: int|
        0 <= k < edges.len() && (#[trigger] edges[k]).0 as int == u && edges[k].1 as int == v
}

/// `p` is a path: at least two nodes, each joined to the next by an edge.
pub open spec fn is_path(edges: Seq<(usize, usize)>, p: Seq<int>) -> bool {
    &&& p.len() >= 2
    &&& forall|i: int| 0 <= i < p.len() - 1 ==> has_edge(edges, #[trigger] p[i], p[i + 1])
}

/// `b` can be reached from `a` along one or more edges.
pub open spec fn reachable(edges: Seq<(usize, usize)>, a: int, b: int) -> bool {
    exists|p: Seq<int>| #[trigger] is_path(edges, p) && p[0] == a && p.last() == b
}

/// `v` lies on a cycle: it can reach itself along one or more edges.
pub open spec fn on_cycle(edges: Seq<(usize, usize)>, v: int) -> bool {
    reachable(edges, v, v)
}

/// All edge endpoints are nodes of a graph with `n` nodes.
pub open spec fn edges_within(edges: Seq<(usize, usize)>, n: int) -> bool {
    forall|k: int| 0 <= k < edges.len() ==> (#[trigger] edges[k]).0 < n && edges[k].1 < n
}

proof fn lemma_edge_reachable(edges: Seq<(usize, usize)>, a: int, b: int)
    requires
        has_edge(edges, a, b),
    ensures
        reachable(edges, a, b),
{
    let p = seq![a, b];
    assert(is_path(edges, p));
}

proof fn lemma_reachable_extend(edges: Seq<(usize, usize)>, a: int, c: int, b: int)
    requires
        reachable(edges, a, c),
        has_edge(edges, c, b),
    ensures
        reachable(edges, a, b),
{
    let p = choose|p: Seq<int>| #[trigger] is_path(edges, p) && p[0] == a && p.last() == c;
    let q = p.push(b);
    assert forall|i: int| 0 <= i < q.len() - 1 implies has_edge(edges, #[trigger] q[i], q[i + 1]) by {
        if i < p.len() - 1 {
            assert(q[i] == p[i] && q[i + 1] == p[i + 1]);
        }
    }
    assert(is_path(edges, q));
}

/// Every node at the end of a path from `v` is marked, given that the
/// successors of `v` are marked and marking is closed under edges.
proof fn lemma_closed_marks_complete(edges: Seq<(usize, usize)>, v: int, marked: Seq<bool>, p: Seq<int>)
    requires
        is_path(edges, p),
        p[0] == v,
        edges_within(edges, marked.len() as int),
        0 <= v < marked.len(),
        forall|x: int| has_edge(edges, v, x) ==> 0 <= x < marked.len() && #[trigger] marked[x],
        forall|u: int, x: int|
            0 <= u < marked.len() && #[trigger] marked[u] && #[trigger] has_edge(edges, u, x) ==> 0
                <= x < marked.len() && marked[x],
    ensures
        0 <= p.last() < marked.len(),
        marked[p.last()],
    decreases p.len(),
{
    if p.len() == 2 {
        assert(has_edge(edges, p[0], p[1]));
    } else {
        let q = p.drop_last();
        assert forall|i: int| 0 <= i < q.len() - 1 implies has_edge(edges, #[trigger] q[i], q[i + 1]) by {
            assert(q[i] == p[i] && q[i + 1] == p[i + 1]);
            assert(has_edge(edges, p[i], p[i + 1]));
        }
        lemma_closed_marks_complete(edges, v, marked, q);
        assert(has_edge(edges, p[p.len() - 2], p[p.len() - 1]));
        assert(q.last() == p[p.len() - 2]);
    }
}

/// Marks the nodes reachable from `v` along one or more edges.
fn successor_closure(n: usize, edges: &Vec<(usize, usize)>, v: usize) -> (marked: Vec<bool>)
    requires
        v < n,
        edges_within(edges@, n as int),
    ensures
        marked@.len() == n,
        forall|w: int| 0 <= w < n ==> (#[trigger] marked@[w] <==> reachable(edges@, v as int, w)),
{
    let ghost e = edges@;
    let mut marked: Vec<bool> = vec![false; n];
    let mut stack: Vec<usize> = Vec::new();
    let mut count: usize = 0;
    let ghost mut marked_set: Set<int> = Set::empty();
    let ghost mut done: Set<int> = Set::empty();
    proof {
        lemma_int_range(0, n as int);
    }
    // The node `v` itself is processed first; it is marked only if it
    // lies on a cycle.
    let mut next_source: Option<usize> = Some(v);
    while next_source.is_some() || stack.len() > 0
        invariant
            e == edges@,
            v < n,
            edges_within(e, n as int),
            marked@.len() == n,
            set_int_range(0, n as int).finite(),
            set_int_range(0, n as int).len() == n,
            marked_set.subset_of(set_int_range(0, n as int)),
            marked_set.finite(),
            marked_set.len() == count,
            forall|w: int| 0 <= w < n ==> (#[trigger] marked@[w] <==> marked_set.contains(w)),
            forall|i: int| 0 <= i < stack@.len() ==> #[trigger] stack@[i] < n && marked@[stack@[i] as int],
            forall|w: int|
                0 <= w < n && #[trigger] marked@[w] ==> reachable(e, v as int, w),
            forall|u: int, x: int|
                #[trigger] done.contains(u) && #[trigger] has_edge(e, u, x) ==> 0 <= x < n
                    && marked@[x],
            forall|w: int|
                0 <= w < n && #[trigger] marked@[w] ==> done.contains(w) || stack@.contains(
                    w as usize,
                ),
            next_source is Some ==> next_source == Some(v) && stack@.len() == 0 && forall|w: int|
                0 <= w < n ==> !#[trigger] marked@[w],
            next_source is None ==> done.contains(v as int),
        decreases n - count, stack@.len() + (if next_source is Some { 1int } else { 0int }),
    {
        let ghost stack_at_start = stack@;
        let u: usize = match next_source {
            Some(s) => {
                next_source = None;
                s
            },
            None => stack.pop().unwrap(),
        };
        proof {
            if stack_at_start.len() > 0 && stack@.len() < stack_at_start.len() {
                assert(stack@ =~= stack_at_start.drop_last());
                assert forall|w: int|
                    0 <= w < n && #[trigger] marked@[w] implies done.contains(w) || stack@.contains(
                    w as usize,
                ) || w == u by {
                    if !done.contains(w) {
                        let i = choose|i: int| 0 <= i < stack_at_start.len() && stack_at_start[i] == w as usize;
                        if i < stack_at_start.len() - 1 {
                            assert(stack@[i] == w as usize);
                        }
                    }
                }
            }
        }
        let ghost count_before = count;
        let ghost stack_before = stack@;
        let mut k: usize = 0;
        while k < edges.len()
            invariant
                e == edges@,
                v < n,
                u < n,
                edges_within(e, n as int),
                marked@.len() == n,
                set_int_range(0, n as int).finite(),
                set_int_range(0, n as int).len() == n,
                marked_set.subset_of(set_int_range(0, n as int)),
                marked_set.finite(),
                marked_set.len() == count,
                count >= count_before,
                count == count_before ==> stack@ == stack_before,
                stack_before.len() <= stack@.len(),
                forall|i: int| 0 <= i < stack_before.len() ==> stack@[i] == stack_before[i],
                forall|w: int| 0 <= w < n ==> (#[trigger] marked@[w] <==> marked_set.contains(w)),
                forall|i: int|
                    0 <= i < stack@.len() ==> #[trigger] stack@[i] < n && marked@[stack@[i] as int],
                u == v || marked@[u as int],
                forall|w: int|
                    0 <= w < n && #[trigger] marked@[w] ==> reachable(e, v as int, w),
                forall|uu: int, x: int|
                    #[trigger] done.contains(uu) && #[trigger] has_edge(e, uu, x) ==> 0 <= x < n
                        && marked@[x],
                forall|w: int|
                    0 <= w < n && #[trigger] marked@[w] ==> done.contains(w) || stack@.contains(
                        w as usize,
                    ) || w == u,
                forall|j: int|
                    0 <= j < k && (#[trigger] e[j]).0 == u && e[j].1 != u ==> marked@[e[j].1 as int],
            decreases edges.len() - k,
        {
            let (src, dst) = edges[k];
            if src == u && dst != u && !marked[dst] {
                proof {
                    assert(has_edge(e, u as int, dst as int)) by {
                        assert(e[k as int] == (u, dst));
                    }
                    if u == v {
                        lemma_edge_reachable(e, v as int, dst as int);
                    } else {
                        lemma_reachable_extend(e, v as int, u as int, dst as int);
                    }
                    assert(!marked_set.contains(dst as int));
                    marked_set = marked_set.insert(dst as int);
                    lemma_len_subset(marked_set, set_int_range(0, n as int));
                }
                let ghost stack_mid = stack@;
                marked.set(dst, true);
                stack.push(dst);
                count += 1;
                proof {
                    assert(stack@[stack@.len() - 1] == dst);
                    assert forall|w: int|
                        0 <= w < n && #[trigger] marked@[w] implies done.contains(w)
                        || stack@.contains(w as usize) || w == u by {
                        if w != dst && !done.contains(w) && w != u {
                            let i = choose|i: int| 0 <= i < stack_mid.len() && stack_mid[i] == w as usize;
                            assert(stack@[i] == w as usize);
                        }
                    }
                }
            }
            k += 1;
        }
        proof {
            lemma_len_subset(marked_set, set_int_range(0, n as int));
            assert forall|w: int|
                0 <= w < n && #[trigger] marked@[w] implies done.contains(w) || stack@.contains(
                w as usize,
            ) || w == u by {}
            assert forall|x: int| #[trigger] has_edge(e, u as int, x) implies 0 <= x < n
                && marked@[x] by {
                let j = choose|j: int|
                    0 <= j < e.len() && (#[trigger] e[j]).0 as int == u as int && e[j].1 as int == x;
                assert(e[j].0 == u && e[j].1 != u);
            }
            done = done.insert(u as int);
            assert forall|w: int|
                0 <= w < n && #[trigger] marked@[w] implies done.contains(w) || stack@.contains(
                w as usize,
            ) by {}
        }
    }
    proof {
        assert forall|w: int| 0 <= w < n implies (#[trigger] marked@[w] <==> reachable(
            e,
            v as int,
            w,
        )) by {
            if reachable(e, v as int, w) {
                let p = choose|p: Seq<int>| #[trigger] is_path(e, p) && p[0] == v && p.last() == w;
                assert forall|uu: int, x: int|
                    0 <= uu < marked@.len() && #[trigger] marked@[uu] && #[trigger] has_edge(
                        e,
                        uu,
                        x,
                    ) implies 0 <= x < marked@.len() && marked@[x] by {
                    assert(done.contains(uu));
                }
                assert forall|x: int| has_edge(e, v as int, x) implies 0 <= x < marked@.len()
                    && #[trigger] marked@[x] by {
                    assert(done.contains(v as int));
                }
                lemma_closed_marks_complete(e, v as int, marked@, p);
            }
        }
    }
    marked
}

/// The nodes that lie on a cycle, in ascending order.
pub fn cycle_members(n: usize, edges: &Vec<(usize, usize)>) -> (members: Vec<usize>)
    requires
        edges_within(edges@, n as int),
    ensures
        forall|i: int, j: int| 0 <= i < j < members@.len() ==> members@[i] < members@[j],
        forall|v: usize| #[trigger] members@.contains(v) <==> v < n && on_cycle(edges@, v as int),
        forall|i: int| 0 <= i < members@.len() ==> #[trigger] members@[i] < n,
{
    let mut members: Vec<usize> = Vec::new();
    let mut v: usize = 0;
    while v < n
        invariant
            v <= n,
            edges_within(edges@, n as int),
            forall|i: int, j: int| 0 <= i < j < members@.len() ==> members@[i] < members@[j],
            forall|i: int| 0 <= i < members@.len() ==> #[trigger] members@[i] < v,
            forall|w: usize|
                #[trigger] members@.contains(w) <==> w < v && on_cycle(edges@, w as int),
        decreases n - v,
    {
        let marked = successor_closure(n, edges, v);
        let ghost prev = members@;
        if marked[v] {
            members.push(v);
        }
        proof {
            assert forall|w: usize|
                #[trigger] members@.contains(w) <==> w < v + 1 && on_cycle(edges@, w as int) by {
                assert(marked@[v as int] <==> on_cycle(edges@, v as int));
                if w == v {
                    if marked@[v as int] {
                        assert(members@[members@.len() - 1] == v);
                    } else {
                        assert(members@ == prev);
                        if prev.contains(w) {
                            let i = choose|i: int| 0 <= i < prev.len() && prev[i] == w;
                            assert(prev[i] < v);
                        }
                    }
                } else {
                    if members@.contains(w) {
                        let i = choose|i: int| 0 <= i < members@.len() && members@[i] == w;
                        assert(i < prev.len());
                        assert(prev[i] == w);
                        assert(prev.contains(w));
                    }
                    if prev.contains(w) {
                        let i = choose|i: int| 0 <= i < prev.len() && prev[i] == w;
                        assert(members@[i] == w);
                    }
                    assert(members@.contains(w) == prev.contains(w));
                }
            }
        }
        v += 1;
    }
    members
}

// ── Greedy topological order ──────────────────────────────────────

/// `u` is among the first `i` entries of `order`.
pub open spec fn placed_within(order: Seq<usize>, i: int, u: int) -> bool {
    exists|j: int| 0 <= j < i && #[trigger] order[j] as int == u
}

/// After the first `i` entries of `order`, `v` is not yet placed and all
/// of its predecessors are.
pub open spec fn ready_after(edges: Seq<(usize, usize)>, order: Seq<usize>, i: int, v: int) -> bool {
    &&& !placed_within(order, i, v)
    &&& forall|u: int| #[trigger] has_edge(edges, u, v) ==> placed_within(order, i, u)
}

/// Node `a` comes no later than node `b` in the tie-break order: by key,
/// then by index.
pub open spec fn key_precedes(keys: Seq<u64>, a: int, b: int) -> bool {
    keys[a] < keys[b] || (keys[a] == keys[b] && a <= b)
}

/// `order` is a prefix of the greedy topological order: each entry is,
/// among the nodes ready at that point, the first by key then index.
pub open spec fn is_greedy_order(keys: Seq<u64>, edges: Seq<(usize, usize)>, order: Seq<usize>) -> bool {
    forall|i: int|
        #![trigger order[i]]
        0 <= i < order.len() ==> {
            &&& (order[i] as int) < keys.len()
            &&& ready_after(edges, order, i, order[i] as int)
            &&& forall|v: int|
                0 <= v < keys.len() && #[trigger] ready_after(edges, order, i, v) ==> key_precedes(
                    keys,
                    order[i] as int,
                    v,
                )
        }
}

/// No node is ready after all of `order`.
pub open spec fn is_stuck(keys: Seq<u64>, edges: Seq<(usize, usize)>, order: Seq<usize>) -> bool {
    forall|v: int| 0 <= v < keys.len() ==> !#[trigger] ready_after(edges, order, order.len() as int, v)
}

proof fn lemma_placed_within_push(order: Seq<usize>, b: usize, i: int, u: int)
    requires
        0 <= i <= order.len(),
    ensures
        placed_within(order.push(b), i, u) == placed_within(order, i, u),
{
    if placed_within(order.push(b), i, u) {
        let j = choose|j: int| 0 <= j < i && #[trigger] order.push(b)[j] as int == u;
        assert(order[j] as int == u);
    }
    if placed_within(order, i, u) {
        let j = choose|j: int| 0 <= j < i && #[trigger] order[j] as int == u;
        assert(order.push(b)[j] as int == u);
    }
}

proof fn lemma_ready_after_push(edges: Seq<(usize, usize)>, order: Seq<usize>, b: usize, i: int, v: int)
    requires
        0 <= i <= order.len(),
    ensures
        ready_after(edges, order.push(b), i, v) == ready_after(edges, order, i, v),
{
    lemma_placed_within_push(order, b, i, v);
    assert forall|u: int| #[trigger] has_edge(edges, u, v) implies placed_within(order.push(b), i, u)
        == placed_within(order, i, u) by {
        lemma_placed_within_push(order, b, i, u);
    }
}

/// Whether every predecessor of `v` is marked in `placed`.
fn predecessors_placed(edges: &Vec<(usize, usize)>, placed: &Vec<bool>, v: usize) -> (b: bool)
    requires
        edges_within(edges@, placed@.len() as int),
        v < placed@.len(),
    ensures
        b == forall|u: int| #[trigger] has_edge(edges@, u, v as int) ==> placed@[u],
{
    let mut k: usize = 0;
    while k < edges.len()
        invariant
            k <= edges.len(),
            edges_within(edges@, placed@.len() as int),
            forall|j: int|
                0 <= j < k && (#[trigger] edges@[j]).1 == v && edges@[j].0 != v ==> placed@[edges@[j].0 as int],
        decreases edges.len() - k,
    {
        let (src, dst) = edges[k];
        if dst == v && src != v && !placed[src] {
            assert(has_edge(edges@, src as int, v as int)) by {
                assert(edges@[k as int].0 == src && edges@[k as int].1 == dst);
            }
            return false;
        }
        k += 1;
    }
    proof {
        assert forall|u: int| #[trigger] has_edge(edges@, u, v as int) implies placed@[u] by {
            let j = choose|j: int|
                0 <= j < edges@.len() && (#[trigger] edges@[j]).0 as int == u && edges@[j].1 as int == v as int;
            assert(edges@[j].1 == v && edges@[j].0 != v);
        }
    }
    true
}

/// Builds the greedy topological order: repeatedly place the ready node
/// that comes first by key, then by index. Returns the order and whether
/// it covers every node; when it does not, no node is ready at its end.
pub fn greedy_order(keys: &Vec<u64>, edges: &Vec<(usize, usize)>) -> (r: (Vec<usize>, bool))
    requires
        edges_within(edges@, keys@.len() as int),
    ensures
        is_greedy_order(keys@, edges@, r.0@),
        r.1 <==> r.0@.len() == keys@.len(),
        !r.1 ==> r.0@.len() < keys@.len() && is_stuck(keys@, edges@, r.0@),
{
    let n = keys.len();
    let mut placed: Vec<bool> = vec![false; n];
    let mut order: Vec<usize> = Vec::new();
    while order.len() < n
        invariant
            n == keys@.len(),
            placed@.len() == n,
            edges_within(edges@, n as int),
            order@.len() <= n,
            is_greedy_order(keys@, edges@, order@),
            forall|x: int|
                0 <= x < n ==> (#[trigger] placed@[x] <==> placed_within(order@, order@.len() as int, x)),
        decreases n - order@.len(),
    {
        let ghost len = order@.len() as int;
        let mut best: Option<usize> = None;
        let mut v: usize = 0;
        while v < n
            invariant
                n == keys@.len(),
                placed@.len() == n,
                edges_within(edges@, n as int),
                v <= n,
                len == order@.len(),
                forall|x: int|
                    0 <= x < n ==> (#[trigger] placed@[x] <==> placed_within(order@, len, x)),
                best is None ==> forall|w: int| 0 <= w < v ==> !#[trigger] ready_after(edges@, order@, len, w),
                best matches Some(b) ==> b < v && ready_after(edges@, order@, len, b as int) && forall|w: int|
                    0 <= w < v && #[trigger] ready_after(edges@, order@, len, w) ==> key_precedes(keys@, b as int, w),
            decreases n - v,
        {
            if !placed[v] {
                let ready = predecessors_placed(edges, &placed, v);
                proof {
                    assert(ready == ready_after(edges@, order@, len, v as int)) by {
                        if ready {
                            assert forall|u: int| #[trigger] has_edge(edges@, u, v as int) implies placed_within(order@, len, u) by {
                                let j = choose|j: int|
                                    0 <= j < edges@.len() && (#[trigger] edges@[j]).0 as int == u && edges@[j].1 as int == v as int;
                                assert(placed@[u]);
                            }
                        } else {
                            let u = choose|u: int| #[trigger] has_edge(edges@, u, v as int) && !placed@[u];
                            let j = choose|j: int|
                                0 <= j < edges@.len() && (#[trigger] edges@[j]).0 as int == u && edges@[j].1 as int == v as int;
                            assert(!placed_within(order@, len, u));
                        }
                    }
                }
                if ready {
                    match best {
                        None => {
                            best = Some(v);
                        },
                        Some(b) => {
                            if keys[v] < keys[b] {
                                best = Some(v);
                            }
                        },
                    }
                }
            } else {
                assert(!ready_after(edges@, order@, len, v as int));
            }
            v += 1;
        }
        match best {
            None => {
                return (order, false);
            },
            Some(b) => {
                let ghost prev = order@;
                placed.set(b, true);
                order.push(b);
                proof {
                    assert forall|x: int| 0 <= x < n implies (#[trigger] placed@[x] <==> placed_within(
                        order@,
                        order@.len() as int,
                        x,
                    )) by {
                        if placed_within(order@, order@.len() as int, x) && x != b {
                            let j = choose|j: int| 0 <= j < order@.len() && #[trigger] order@[j] as int == x;
                            assert(j < prev.len());
                            assert(prev[j] as int == x);
                            assert(placed_within(prev, len, x));
                        }
                        if x == b {
                            assert(order@[len] as int == x);
                        }
                        if placed@[x] && x != b {
                            assert(placed_within(prev, len, x));
                            let j = choose|j: int| 0 <= j < len && #[trigger] prev[j] as int == x;
                            assert(order@[j] as int == x);
                        }
                    }
                    assert forall|i: int|
                        #![trigger order@[i]]
                        0 <= i < order@.len() implies {
                            &&& (order@[i] as int) < keys@.len()
                            &&& ready_after(edges@, order@, i, order@[i] as int)
                            &&& forall|w: int|
                                0 <= w < keys@.len() && #[trigger] ready_after(edges@, order@, i, w)
                                    ==> key_precedes(keys@, order@[i] as int, w)
                        } by {
                        lemma_ready_after_push(edges@, prev, b, i, order@[i] as int);
                        assert forall|w: int|
                            0 <= w < keys@.len() && #[trigger] ready_after(edges@, order@, i, w)
                                implies key_precedes(keys@, order@[i] as int, w) by {
                            lemma_ready_after_push(edges@, prev, b, i, w);
                            if i < len {
                                assert(order@[i] == prev[i]);
                            }
                        }
                        if i < len {
                            assert(order@[i] == prev[i]);
                        }
                    }
                }
            },
        }
    }
    (order, true)
}

// ── Laws of the greedy order ──────────────────────────────────────

/// The greedy order places each node at most once, and every node after
/// all of its predecessors: it is a topological order of what it places.
pub proof fn law_greedy_order_is_topological(
    keys: Seq<u64>,
    edges: Seq<(usize, usize)>,
    order: Seq<usize>,
)
    requires
        is_greedy_order(keys, edges, order),
    ensures
        order.no_duplicates(),
        forall|i: int, u: int|
            0 <= i < order.len() && #[trigger] has_edge(edges, u, order[i] as int) ==> placed_within(
                order,
                i,
                u,
            ),
{
    assert forall|i: int, j: int|
        0 <= i < order.len() && 0 <= j < order.len() && i != j implies order[i] != order[j] by {
        if i < j {
            assert(ready_after(edges, order, j, order[j] as int));
            if order[i] == order[j] {
                assert(placed_within(order, j, order[j] as int));
            }
        } else {
            assert(ready_after(edges, order, i, order[i] as int));
            if order[i] == order[j] {
                assert(placed_within(order, i, order[i] as int));
            }
        }
    }
    assert forall|i: int, u: int|
        0 <= i < order.len() && #[trigger] has_edge(edges, u, order[i] as int) implies placed_within(
        order,
        i,
        u,
    ) by {
        assert(ready_after(edges, order, i, order[i] as int));
    }
}

/// The position of a placed node in a greedy order.
spec fn position_in(order: Seq<usize>, x: int) -> int {
    choose|j: int| 0 <= j < order.len() && #[trigger] order[j] as int == x
}

proof fn lemma_path_positions_increase(
    keys: Seq<u64>,
    edges: Seq<(usize, usize)>,
    order: Seq<usize>,
    p: Seq<int>,
)
    requires
        is_greedy_order(keys, edges, order),
        is_path(edges, p),
        forall|x: int| #[trigger] placed_within(order, order.len() as int, x) <==> 0 <= x
            < keys.len(),
        edges_within(edges, keys.len() as int),
    ensures
        position_in(order, p[0]) < position_in(order, p.last()),
        order[position_in(order, p.last())] as int == p.last(),
    decreases p.len(),
{
    law_greedy_order_is_topological(keys, edges, order);
    let q = if p.len() == 2 { p } else { p.drop_last() };
    if p.len() > 2 {
        assert forall|i: int| 0 <= i < q.len() - 1 implies has_edge(edges, #[trigger] q[i], q[i + 1]) by {
            assert(q[i] == p[i] && q[i + 1] == p[i + 1]);
            assert(has_edge(edges, p[i], p[i + 1]));
        }
        lemma_path_positions_increase(keys, edges, order, q);
    }
    let a = p[p.len() - 2];
    let b = p.last();
    assert(has_edge(edges, a, b));
    let k = choose|k: int| 0 <= k < edges.len() && (#[trigger] edges[k]).0 as int == a && edges[k].1 as int == b;
    assert(0 <= b < keys.len() && 0 <= a < keys.len());
    assert(placed_within(order, order.len() as int, b));
    assert(placed_within(order, order.len() as int, a));
    let pb = position_in(order, b);
    let pa = position_in(order, a);
    assert(order[pb] as int == b);
    assert(order[pa] as int == a);
    assert(has_edge(edges, a, order[pb] as int));
    assert(placed_within(order, pb, a));
    let j = choose|j: int| 0 <= j < pb && #[trigger] order[j] as int == a;
    assert(j == pa);
    if p.len() > 2 {
        assert(q.last() == a);
        assert(q[0] == p[0]);
    }
}

/// When the greedy order covers every node, no node lies on a cycle.
pub proof fn law_complete_order_means_acyclic(
    keys: Seq<u64>,
    edges: Seq<(usize, usize)>,
    order: Seq<usize>,
    v: int,
)
    requires
        is_greedy_order(keys, edges, order),
        order.len() == keys.len(),
        edges_within(edges, keys.len() as int),
    ensures
        !on_cycle(edges, v),
{
    law_greedy_order_is_topological(keys, edges, order);
    let m = order.map_values(|x: usize| x as int);
    assert(m.no_duplicates()) by {
        assert forall|i: int, j: int| 0 <= i < m.len() && 0 <= j < m.len() && i != j implies m[i] != m[j] by {
            assert(order[i] != order[j]);
        }
    }
    m.unique_seq_to_set();
    lemma_int_range(0, keys.len() as int);
    assert(m.to_set().subset_of(set_int_range(0, keys.len() as int))) by {
        assert forall|x: int| m.to_set().contains(x) implies set_int_range(0, keys.len() as int).contains(x) by {
            let i = choose|i: int| 0 <= i < m.len() && m[i] == x;
            assert(order[i] as int == x);
        }
    }
    lemma_subset_equality(m.to_set(), set_int_range(0, keys.len() as int));
    assert forall|x: int| #[trigger] placed_within(order, order.len() as int, x) <==> 0 <= x < keys.len() by {
        if 0 <= x < keys.len() {
            assert(set_int_range(0, keys.len() as int).contains(x));
            assert(m.to_set().contains(x));
            let i = choose|i: int| 0 <= i < m.len() && m[i] == x;
            assert(order[i] as int == x);
        }
        if placed_within(order, order.len() as int, x) {
            let i = choose|i: int| 0 <= i < order.len() && #[trigger] order[i] as int == x;
        }
    }
    if on_cycle(edges, v) {
        let p = choose|p: Seq<int>| #[trigger] is_path(edges, p) && p[0] == v && p.last() == v;
        lemma_path_positions_increase(keys, edges, order, p);
    }
}

/// A walk backwards along edges from `x`, `k` steps long, that stays among
/// the nodes the order has not placed.
spec fn back_walk(
    keys: Seq<u64>,
    edges: Seq<(usize, usize)>,
    order: Seq<usize>,
    x: int,
    k: nat,
) -> Seq<int>
    decreases k,
{
    if k == 0 {
        seq![x]
    } else {
        let s = back_walk(keys, edges, order, x, (k - 1) as nat);
        let w = s.last();
        s.push(
            choose|u: int|
                #[trigger] has_edge(edges, u, w) && !placed_within(order, order.len() as int, u),
        )
    }
}

proof fn lemma_back_walk(
    keys: Seq<u64>,
    edges: Seq<(usize, usize)>,
    order: Seq<usize>,
    x: int,
    k: nat,
)
    requires
        is_stuck(keys, edges, order),
        edges_within(edges, keys.len() as int),
        0 <= x < keys.len(),
        !placed_within(order, order.len() as int, x),
    ensures
        back_walk(keys, edges, order, x, k).len() == k + 1,
        back_walk(keys, edges, order, x, k)[0] == x,
        forall|i: int|
            0 <= i <= k ==> 0 <= #[trigger] back_walk(keys, edges, order, x, k)[i] < keys.len()
                && !placed_within(order, order.len() as int, back_walk(keys, edges, order, x, k)[i]),
        forall|i: int|
            0 <= i < k ==> has_edge(
                edges,
                back_walk(keys, edges, order, x, k)[i + 1],
                #[trigger] back_walk(keys, edges, order, x, k)[i],
            ),
    decreases k,
{
    if k > 0 {
        lemma_back_walk(keys, edges, order, x, (k - 1) as nat);
        let s = back_walk(keys, edges, order, x, (k - 1) as nat);
        let w = s.last();
        assert(0 <= w < keys.len() && !placed_within(order, order.len() as int, w)) by {
            assert(s[k - 1] == w);
        }
        assert(!ready_after(edges, order, order.len() as int, w));
        let u = choose|u: int|
            #[trigger] has_edge(edges, u, w) && !placed_within(order, order.len() as int, u);
        let k2 = choose|k2: int| 0 <= k2 < edges.len() && (#[trigger] edges[k2]).0 as int == u && edges[k2].1 as int == w;
        let t = back_walk(keys, edges, order, x, k);
        assert(t == s.push(u));
        assert forall|i: int| 0 <= i <= k implies 0 <= #[trigger] t[i] < keys.len()
            && !placed_within(order, order.len() as int, t[i]) by {
            if i < k {
                assert(t[i] == s[i]);
            }
        }
        assert forall|i: int| 0 <= i < k implies has_edge(edges, t[i + 1], #[trigger] t[i]) by {
            if i < k - 1 {
                assert(t[i] == s[i] && t[i + 1] == s[i + 1]);
            } else {
                assert(t[i] == w);
            }
        }
    }
}

/// When the greedy order gets stuck before covering every node, some node
/// lies on a cycle. Together with [`law_complete_order_means_acyclic`]:
/// the greedy order covers every node exactly when the graph is acyclic.
pub proof fn law_stuck_order_means_cycle(
    keys: Seq<u64>,
    edges: Seq<(usize, usize)>,
    order: Seq<usize>,
)
    requires
        is_greedy_order(keys, edges, order),
        is_stuck(keys, edges, order),
        order.len() < keys.len(),
        edges_within(edges, keys.len() as int),
    ensures
        exists|v: int| 0 <= v < keys.len() && #[trigger] on_cycle(edges, v),
{
    let n = keys.len() as int;
    law_greedy_order_is_topological(keys, edges, order);
    let m = order.map_values(|x: usize| x as int);
    assert(m.no_duplicates()) by {
        assert forall|i: int, j: int| 0 <= i < m.len() && 0 <= j < m.len() && i != j implies m[i] != m[j] by {
            assert(order[i] != order[j]);
        }
    }
    m.unique_seq_to_set();
    lemma_int_range(0, n);
    // Some node is not placed.
    assert(exists|x: int| 0 <= x < n && !#[trigger] m.to_set().contains(x)) by {
        if forall|x: int| 0 <= x < n ==> #[trigger] m.to_set().contains(x) {
            assert(set_int_range(0, n).subset_of(m.to_set()));
            lemma_len_subset(set_int_range(0, n), m.to_set());
        }
    }
    let x = choose|x: int| 0 <= x < n && !#[trigger] m.to_set().contains(x);
    assert(!placed_within(order, order.len() as int, x)) by {
        if placed_within(order, order.len() as int, x) {
            let j = choose|j: int| 0 <= j < order.len() && #[trigger] order[j] as int == x;
            assert(m[j] == x);
        }
    }
    // A backward walk of n + 1 steps among unplaced nodes repeats a node.
    lemma_back_walk(keys, edges, order, x, n as nat);
    let w = back_walk(keys, edges, order, x, n as nat);
    assert(!w.no_duplicates()) by {
        if w.no_duplicates() {
            w.unique_seq_to_set();
            assert(w.to_set().subset_of(set_int_range(0, n))) by {
                assert forall|y: int| w.to_set().contains(y) implies set_int_range(0, n).contains(y) by {
                    let i = choose|i: int| 0 <= i < w.len() && w[i] == y;
                    assert(0 <= w[i] < n);
                }
            }
            lemma_len_subset(w.to_set(), set_int_range(0, n));
        }
    }
    let (i, j) = choose|i: int, j: int| 0 <= i < w.len() && 0 <= j < w.len() && i != j && w[i] == w[j];
    let (lo, hi) = if i < j { (i, j) } else { (j, i) };
    // Read the walk forwards from w[hi] down to w[lo] = w[hi].
    let p = Seq::new((hi - lo + 1) as nat, |t: int| w[hi - t]);
    assert forall|t: int| 0 <= t < p.len() - 1 implies has_edge(edges, #[trigger] p[t], p[t + 1]) by {
        assert(p[t] == w[hi - t] && p[t + 1] == w[hi - t - 1]);
        assert(has_edge(edges, w[(hi - t - 1) + 1], w[hi - t - 1]));
    }
    assert(is_path(edges, p));
    assert(p[0] == w[hi] && p.last() == w[lo]);
    assert(on_cycle(edges, w[hi]));
    assert(0 <= w[hi] < n);
}

proof fn lemma_greedy_prefix_agrees(
    keys: Seq<u64>,
    edges: Seq<(usize, usize)>,
    o1: Seq<usize>,
    o2: Seq<usize>,
    i: int,
)
    requires
        is_greedy_order(keys, edges, o1),
        is_greedy_order(keys, edges, o2),
        o1.len() == o2.len(),
        0 <= i < o1.len(),
    ensures
        forall|j: int| 0 <= j <= i ==> o1[j] == o2[j],
    decreases i,
{
    if i > 0 {
        lemma_greedy_prefix_agrees(keys, edges, o1, o2, i - 1);
    }
    assert forall|u: int| placed_within(o1, i, u) == placed_within(o2, i, u) by {
        if placed_within(o1, i, u) {
            let j = choose|j: int| 0 <= j < i && #[trigger] o1[j] as int == u;
            assert(o2[j] as int == u);
        }
        if placed_within(o2, i, u) {
            let j = choose|j: int| 0 <= j < i && #[trigger] o2[j] as int == u;
            assert(o1[j] as int == u);
        }
    }
    let a = o1[i] as int;
    let b = o2[i] as int;
    assert(ready_after(edges, o1, i, a));
    assert(ready_after(edges, o2, i, b));
    assert(ready_after(edges, o2, i, a)) by {
        assert forall|u: int| #[trigger] has_edge(edges, u, a) implies placed_within(o2, i, u) by {
            assert(placed_within(o1, i, u));
        }
    }
    assert(ready_after(edges, o1, i, b)) by {
        assert forall|u: int| #[trigger] has_edge(edges, u, b) implies placed_within(o1, i, u) by {
            assert(placed_within(o2, i, u));
        }
    }
    assert(key_precedes(keys, a, b));
    assert(key_precedes(keys, b, a));
}

/// The greedy order is determined by the keys and edges: two greedy
/// orders of the same length are equal. In particular the tick order of
/// a patch is the same on every run.
pub proof fn law_greedy_order_unique(
    keys: Seq<u64>,
    edges: Seq<(usize, usize)>,
    o1: Seq<usize>,
    o2: Seq<usize>,
)
    requires
        is_greedy_order(keys, edges, o1),
        is_greedy_order(keys, edges, o2),
        o1.len() == o2.len(),
    ensures
        o1 == o2,
{
    if o1.len() > 0 {
        lemma_greedy_prefix_agrees(keys, edges, o1, o2, o1.len() - 1);
    }
    assert(o1 =~= o2);
}

} // verus!
