use vstd::prelude::*;

verus! {

#[verifier::external_type_specification]
#[verifier::external_body]
#[verifier::reject_recursive_types(N)]
#[verifier::reject_recursive_types(E)]
#[verifier::reject_recursive_types(Ty)]
#[verifier::reject_recursive_types(Ix)]
pub struct ExGraph<N, E, Ty, Ix>(petgraph::graph::Graph<N, E, Ty, Ix>);

#[verifier::external_type_specification]
#[verifier::external_body]
pub struct ExDirected(petgraph::Directed);

/// An acyclic directed graph of `petgraph`, without node or edge weights. Verus refuses a
/// declaration of `petgraph::acyclic::Acyclic` (its parameter is bound by an outside trait),
/// so the graph stands in a private field of this type.
#[verifier::external_body]
pub struct Dag {
    inner: petgraph::acyclic::Acyclic<petgraph::graph::DiGraph<(), (), u32>>,
}

/// The edges that a dag holds, as (origin, target) index pairs.
pub uninterp spec fn dag_edges(g: Dag) -> Seq<(u32, u32)>;

/// The number of nodes that a dag holds.
pub uninterp spec fn dag_node_count(g: Dag) -> nat;

/// Step `i` of `p` follows the relation `rel`.
pub open spec fn step_ok<T>(rel: spec_fn(T, T) -> bool, p: Seq<T>, i: int) -> bool {
    rel(p[i], p[i + 1])
}

/// `p` walks along `rel` and takes at least one step.
pub open spec fn is_walk<T>(rel: spec_fn(T, T) -> bool, p: Seq<T>) -> bool {
    &&& p.len() >= 2
    &&& forall|i: int| 0 <= i < p.len() - 1 ==> #[trigger] step_ok(rel, p, i)
}

/// There is a walk of at least one step from `a` to `b`.
pub open spec fn reaches<T>(rel: spec_fn(T, T) -> bool, a: T, b: T) -> bool {
    exists|p: Seq<T>| #[trigger] is_walk(rel, p) && p[0] == a && p.last() == b
}

/// Some node reaches itself.
pub open spec fn has_cycle<T>(rel: spec_fn(T, T) -> bool) -> bool {
    exists|v: T| #[trigger] reaches(rel, v, v)
}

/// The edge relation of a list of (origin, target) pairs.
pub open spec fn seq_rel<T>(edges: Seq<(T, T)>) -> spec_fn(T, T) -> bool {
    |a: T, b: T| edges.contains((a, b))
}

/// A map that sends every edge of `ra` to an edge of `rb` sends walks to walks.
pub proof fn lemma_walk_map<A, B>(ra: spec_fn(A, A) -> bool, rb: spec_fn(B, B) -> bool, f: spec_fn(A) -> B, p: Seq<A>)
    requires
        forall|x: A, y: A| #[trigger] ra(x, y) ==> rb(f(x), f(y)),
        is_walk(ra, p),
    ensures
        is_walk(rb, p.map_values(f)),
        p.map_values(f)[0] == f(p[0]),
        p.map_values(f).last() == f(p.last()),
{
    let q = p.map_values(f);
    assert forall|i: int| 0 <= i < q.len() - 1 implies #[trigger] step_ok(rb, q, i) by {
        assert(step_ok(ra, p, i));
        assert(ra(p[i], p[i + 1]));
    }
}

/// Reachability carries over along a map that sends edges to edges.
pub proof fn lemma_reaches_map<A, B>(ra: spec_fn(A, A) -> bool, rb: spec_fn(B, B) -> bool, f: spec_fn(A) -> B, a: A, b: A)
    requires
        forall|x: A, y: A| #[trigger] ra(x, y) ==> rb(f(x), f(y)),
        reaches(ra, a, b),
    ensures
        reaches(rb, f(a), f(b)),
{
    let p = choose|p: Seq<A>| #[trigger] is_walk(ra, p) && p[0] == a && p.last() == b;
    lemma_walk_map(ra, rb, f, p);
    assert(is_walk(rb, p.map_values(f)));
}

/// The first node of a walk has an outgoing edge.
pub proof fn lemma_reaches_first_step<T>(rel: spec_fn(T, T) -> bool, a: T, b: T)
    requires
        reaches(rel, a, b),
    ensures
        exists|c: T| #[trigger] rel(a, c),
{
    let p = choose|p: Seq<T>| #[trigger] is_walk(rel, p) && p[0] == a && p.last() == b;
    assert(step_ok(rel, p, 0));
    assert(rel(a, p[1]));
}

/// `rel` with the one more edge `a -> b`.
pub open spec fn with_edge<T>(rel: spec_fn(T, T) -> bool, a: T, b: T) -> spec_fn(T, T) -> bool {
    |x: T, y: T| rel(x, y) || (x == a && y == b)
}

/// `a` is `b` or reaches it.
pub open spec fn reaches_or_eq<T>(rel: spec_fn(T, T) -> bool, a: T, b: T) -> bool {
    a == b || reaches(rel, a, b)
}

proof fn lemma_reaches_step<T>(rel: spec_fn(T, T) -> bool, a: T, b: T, c: T)
    requires
        reaches_or_eq(rel, a, b),
        rel(b, c),
    ensures
        reaches(rel, a, c),
{
    if a == b {
        let p = seq![a, c];
        assert(step_ok(rel, p, 0));
        assert(is_walk(rel, p));
    } else {
        let p = choose|p: Seq<T>| #[trigger] is_walk(rel, p) && p[0] == a && p.last() == b;
        let q = p.push(c);
        assert forall|i: int| 0 <= i < q.len() - 1 implies #[trigger] step_ok(rel, q, i) by {
            if i < p.len() - 1 {
                assert(step_ok(rel, p, i));
            }
        }
        assert(is_walk(rel, q));
    }
}

/// A walk along `rel` with the extra edge `a -> b` either keeps to `rel`, or leads from its
/// start to `a` and from `b` to its end along `rel`.
proof fn lemma_walk_with_edge<T>(rel: spec_fn(T, T) -> bool, a: T, b: T, p: Seq<T>)
    requires
        is_walk(with_edge(rel, a, b), p),
    ensures
        is_walk(rel, p) || (reaches_or_eq(rel, p[0], a) && reaches_or_eq(rel, b, p.last())),
    decreases p.len(),
{
    let r2 = with_edge(rel, a, b);
    let n = p.len();
    assert(step_ok(r2, p, n - 2));
    if n == 2 {
        if !rel(p[0], p[1]) {
            assert(p[0] == a && p[1] == b);
        } else {
            assert forall|i: int| 0 <= i < p.len() - 1 implies #[trigger] step_ok(rel, p, i) by {}
        }
    } else {
        let q = p.drop_last();
        assert forall|i: int| 0 <= i < q.len() - 1 implies #[trigger] step_ok(r2, q, i) by {
            assert(step_ok(r2, p, i));
        }
        lemma_walk_with_edge(rel, a, b, q);
        let y = p[n - 2];
        let z = p[n - 1];
        assert(q.last() == y);
        if is_walk(rel, q) {
            if rel(y, z) {
                assert forall|i: int| 0 <= i < p.len() - 1 implies #[trigger] step_ok(rel, p, i) by {
                    if i < n - 2 {
                        assert(step_ok(rel, q, i));
                    }
                }
            } else {
                assert(y == a && z == b);
                assert(reaches(rel, p[0], a));
            }
        } else {
            if rel(y, z) {
                lemma_reaches_step(rel, b, y, z);
            } else {
                assert(z == b);
            }
        }
    }
}

/// An edge `a -> b` added to an acyclic relation in which `b` does not reach `a` (and that is
/// no self-loop) leaves it acyclic.
pub proof fn lemma_add_edge_acyclic<T>(rel: spec_fn(T, T) -> bool, a: T, b: T)
    requires
        !has_cycle(rel),
        a != b,
        !reaches(rel, b, a),
    ensures
        !has_cycle(with_edge(rel, a, b)),
{
    let r2 = with_edge(rel, a, b);
    if has_cycle(r2) {
        let v = choose|v: T| #[trigger] reaches(r2, v, v);
        let p = choose|p: Seq<T>| #[trigger] is_walk(r2, p) && p[0] == v && p.last() == v;
        lemma_walk_with_edge(rel, a, b, p);
        if is_walk(rel, p) {
            assert(reaches(rel, v, v));
        } else {
            // b reaches v and v reaches a, so b reaches a (or b == a).
            if b == v {
                assert(reaches_or_eq(rel, b, a));
            } else if v == a {
                assert(reaches(rel, b, a));
            } else {
                let p1 = choose|p1: Seq<T>| #[trigger] is_walk(rel, p1) && p1[0] == b && p1.last() == v;
                let p2 = choose|p2: Seq<T>| #[trigger] is_walk(rel, p2) && p2[0] == v && p2.last() == a;
                let w = p1 + p2.drop_first();
                assert forall|i: int| 0 <= i < w.len() - 1 implies #[trigger] step_ok(rel, w, i) by {
                    if i < p1.len() - 1 {
                        assert(step_ok(rel, p1, i));
                    } else {
                        let j = i - (p1.len() - 1);
                        assert(step_ok(rel, p2, j));
                    }
                }
                assert(is_walk(rel, w));
                assert(w.last() == a);
            }
        }
    }
}

/// The index of `h` in a list without duplicates.
pub open spec fn index_in<T>(nodes: Seq<T>, h: T) -> u32 {
    choose|i: u32| (i as int) < nodes.len() && nodes[i as int] == h
}

/// An index graph over the list `nodes` (without duplicates) that holds the same edges as
/// `rel`, where every edge of `rel` joins two listed nodes.
pub open spec fn relabels<T>(rel: spec_fn(T, T) -> bool, nodes: Seq<T>, edges: Seq<(u32, u32)>) -> bool {
    &&& nodes.no_duplicates()
    &&& forall|i: u32, j: u32| #[trigger] edges.contains((i, j)) ==> (i as int) < nodes.len() && (j as int) < nodes.len() && rel(nodes[i as int], nodes[j as int])
    &&& forall|a: T, b: T| #[trigger] rel(a, b) ==> exists|i: u32, j: u32| (i as int) < nodes.len() && (j as int) < nodes.len() && nodes[i as int] == a && nodes[j as int] == b && #[trigger] edges.contains((i, j))
}

/// Reachability and cycles do not depend on how the nodes are numbered.
pub proof fn lemma_relabel<T>(rel: spec_fn(T, T) -> bool, nodes: Seq<T>, edges: Seq<(u32, u32)>)
    requires
        relabels(rel, nodes, edges),
    ensures
        has_cycle(seq_rel(edges)) <==> has_cycle(rel),
        forall|i: u32, j: u32| (i as int) < nodes.len() && (j as int) < nodes.len() ==>
            (reaches(seq_rel(edges), i, j) <==> reaches(rel, nodes[i as int], nodes[j as int])),
{
    let g = |i: u32| nodes[i as int];
    let f = |h: T| index_in(nodes, h);
    let ri = seq_rel(edges);
    assert forall|x: u32, y: u32| #[trigger] ri(x, y) implies rel(g(x), g(y)) by {
        assert(edges.contains((x, y)));
    }
    assert forall|a: T, b: T| #[trigger] rel(a, b) implies ri(f(a), f(b)) by {
        let (i, j) = choose|i: u32, j: u32| (i as int) < nodes.len() && (j as int) < nodes.len() && nodes[i as int] == a && nodes[j as int] == b && #[trigger] edges.contains((i, j));
        let fi = index_in(nodes, a);
        let fj = index_in(nodes, b);
        assert(nodes[fi as int] == a);
        assert(nodes[fj as int] == b);
        assert(fi == i);
        assert(fj == j);
    }
    assert forall|i: u32, j: u32| (i as int) < nodes.len() && (j as int) < nodes.len() implies
        (reaches(ri, i, j) <==> reaches(rel, nodes[i as int], nodes[j as int])) by {
        if reaches(ri, i, j) {
            lemma_reaches_map(ri, rel, g, i, j);
        }
        if reaches(rel, nodes[i as int], nodes[j as int]) {
            lemma_reaches_map(rel, ri, f, nodes[i as int], nodes[j as int]);
            let fi = index_in(nodes, nodes[i as int]);
            let fj = index_in(nodes, nodes[j as int]);
            assert(nodes[fi as int] == nodes[i as int]);
            assert(nodes[fj as int] == nodes[j as int]);
            assert(fi == i);
            assert(fj == j);
        }
    }
    if has_cycle(ri) {
        let v = choose|v: u32| #[trigger] reaches(ri, v, v);
        lemma_reaches_map(ri, rel, g, v, v);
        assert(reaches(rel, g(v), g(v)));
    }
    if has_cycle(rel) {
        let h = choose|h: T| #[trigger] reaches(rel, h, h);
        lemma_reaches_map(rel, ri, f, h, h);
        assert(reaches(ri, f(h), f(h)));
    }
}

/// All edge endpoints are node indices below `n`.
pub open spec fn edges_within(edges: Seq<(u32, u32)>, n: nat) -> bool {
    forall|i: int| 0 <= i < edges.len() ==> (#[trigger] edges[i]).0 < n && edges[i].1 < n
}

/// The edges that a directed graph holds, as (origin, target) index pairs, in the order in
/// which they were added.
pub uninterp spec fn graph_edges(g: petgraph::graph::DiGraph<(), (), u32>) -> Seq<(u32, u32)>;

/// The number of nodes that a directed graph holds.
pub uninterp spec fn graph_node_count(g: petgraph::graph::DiGraph<(), (), u32>) -> nat;

/// `petgraph::graph::Graph::with_capacity`: an empty directed graph.
#[verifier::external_body]
fn graph_with_capacity(nodes: usize, edges: usize) -> (g: petgraph::graph::DiGraph<(), (), u32>)
    ensures
        graph_edges(g) == Seq::<(u32, u32)>::empty(),
        graph_node_count(g) == 0,
{
    petgraph::graph::DiGraph::<(), (), u32>::with_capacity(nodes, edges)
}

/// `petgraph::graph::Graph::add_node`: the new node takes the next index; the edges stay. With
/// `u32` indices the call panics once `u32::MAX` nodes are held, so that is left out.
#[verifier::external_body]
fn graph_add_node(g: &mut petgraph::graph::DiGraph<(), (), u32>) -> (i: u32)
    requires
        graph_node_count(*old(g)) < u32::MAX,
    ensures
        i == graph_node_count(*old(g)),
        graph_node_count(*final(g)) == graph_node_count(*old(g)) + 1,
        graph_edges(*final(g)) == graph_edges(*old(g)),
{
    g.add_node(()).index() as u32
}

/// `petgraph::graph::Graph::extend_with_edges`: the edges are added in order. Edges between
/// held nodes add no node. With `u32` indices each added edge panics once `u32::MAX` edges are
/// held, so that is left out.
#[verifier::external_body]
fn graph_extend_with_edges(g: &mut petgraph::graph::DiGraph<(), (), u32>, edges: &Vec<(u32, u32)>)
    requires
        edges_within(edges@, graph_node_count(*old(g))),
        graph_edges(*old(g)).len() + edges@.len() < u32::MAX,
    ensures
        graph_edges(*final(g)) == graph_edges(*old(g)) + edges@,
        graph_node_count(*final(g)) == graph_node_count(*old(g)),
{
    g.extend_with_edges(edges.iter().copied())
}

/// `petgraph::acyclic::Acyclic::try_from_graph`: it succeeds exactly when the graph has no
/// cycle (a self-loop counts as a cycle), and the dag then holds the graph's nodes and edges.
#[verifier::external_body]
fn dag_try_from_graph(g: petgraph::graph::DiGraph<(), (), u32>) -> (r: Option<Dag>)
    ensures
        r is Some <==> !has_cycle(seq_rel(graph_edges(g))),
        r matches Some(d) ==> dag_edges(d) == graph_edges(g) && dag_node_count(d) == graph_node_count(g),
{
    petgraph::acyclic::Acyclic::try_from_graph(g).ok().map(|inner| Dag { inner })
}

/// A dag with the nodes `0..node_count` and the edges, or `None` where the edges hold a cycle.
pub fn dag_from_edges(node_count: u32, edges: &Vec<(u32, u32)>) -> (r: Option<Dag>)
    requires
        edges_within(edges@, node_count as nat),
        node_count < u32::MAX,
        edges@.len() < u32::MAX,
    ensures
        r is Some <==> !has_cycle(seq_rel(edges@)),
        r matches Some(g) ==> dag_edges(g) == edges@ && dag_node_count(g) == node_count,
{
    let mut graph = graph_with_capacity(node_count as usize, edges.len());
    let mut i: u32 = 0;
    while i < node_count
        invariant
            i <= node_count,
            node_count < u32::MAX,
            graph_node_count(graph) == i,
            graph_edges(graph) == Seq::<(u32, u32)>::empty(),
        decreases node_count - i,
    {
        graph_add_node(&mut graph);
        i = i + 1;
    }
    graph_extend_with_edges(&mut graph, edges);
    assert(Seq::<(u32, u32)>::empty() + edges@ =~= edges@);
    dag_try_from_graph(graph)
}

/// `petgraph::acyclic::Acyclic::try_add_edge` on a dag over a directed graph: the edge is
/// refused exactly when it is a self-loop or when it would close a cycle, that is when
/// `b` already reaches `a`; an accepted edge is added. The inner graph's `add_edge` panics once
/// `u32::MAX` edges are held, so that is left out.
#[verifier::external_body]
fn dag_try_add_edge(g: &mut Dag, a: u32, b: u32) -> (r: bool)
    requires
        a < dag_node_count(*old(g)),
        b < dag_node_count(*old(g)),
        dag_edges(*old(g)).len() + 1 < u32::MAX,
    ensures
        r == (a != b && !reaches(seq_rel(dag_edges(*old(g))), b, a)),
        r ==> dag_edges(*final(g)) == dag_edges(*old(g)).push((a, b)),
        !r ==> dag_edges(*final(g)) == dag_edges(*old(g)),
        dag_node_count(*final(g)) == dag_node_count(*old(g)),
{
    g.inner.try_add_edge(petgraph::graph::NodeIndex::new(a as usize), petgraph::graph::NodeIndex::new(b as usize), ()).is_ok()
}

/// Outcome of checking a new edge against the graph it joins.
#[derive(Debug, PartialEq, Eq, Clone, Copy, Structural)]
pub enum EdgeCheck {
    /// The edges before the new one already hold a cycle.
    ExistingCycle,
    /// The new edge is a self-loop or would close a cycle.
    WouldCycle,
    Accepted,
}

/// Checks whether adding `a -> b` to a graph of `node_count` nodes and `edges` keeps it acyclic.
pub fn check_new_edge(node_count: u32, edges: &Vec<(u32, u32)>, a: u32, b: u32) -> (r: EdgeCheck)
    requires
        edges_within(edges@, node_count as nat),
        a < node_count,
        b < node_count,
        node_count < u32::MAX,
        edges@.len() + 1 < u32::MAX,
    ensures
        r == EdgeCheck::ExistingCycle <==> has_cycle(seq_rel(edges@)),
        r == EdgeCheck::WouldCycle <==> (!has_cycle(seq_rel(edges@)) && (a == b || reaches(seq_rel(edges@), b, a))),
        r == EdgeCheck::Accepted <==> (!has_cycle(seq_rel(edges@)) && a != b && !reaches(seq_rel(edges@), b, a)),
{
    match dag_from_edges(node_count, edges) {
        None => EdgeCheck::ExistingCycle,
        Some(mut g) => {
            if dag_try_add_edge(&mut g, a, b) {
                EdgeCheck::Accepted
            } else {
                EdgeCheck::WouldCycle
            }
        },
    }
}

} // verus!
