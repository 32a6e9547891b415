//! The edit graph of two lists, held in a `petgraph` graph, and the shortest
//! path search over it.

use vstd::prelude::*;

verus! {

/// The directed graph type of `petgraph`, opaque to the verifier.
#[verifier::external_type_specification]
#[verifier::external_body]
#[verifier::reject_recursive_types(N)]
#[verifier::reject_recursive_types(E)]
#[verifier::reject_recursive_types(Ty)]
#[verifier::reject_recursive_types(Ix)]
pub struct ExGraph<N, E, Ty, Ix>(petgraph::graph::Graph<N, E, Ty, Ix>);

/// The marker of `petgraph` for directed edges.
#[verifier::external_type_specification]
#[verifier::external_body]
pub struct ExDirected(petgraph::Directed);

/// A graph whose nodes carry a location `(column, row)` and whose edges carry
/// their cost.
pub type EditGraph = petgraph::graph::Graph<(usize, usize), usize>;

/// The node weights of a graph, by node index.
pub uninterp spec fn graph_nodes(g: EditGraph) -> Seq<(usize, usize)>;

/// The edges of a graph in the order in which they were added:
/// `(source, target, cost)`.
pub uninterp spec fn graph_edges(g: EditGraph) -> Seq<(usize, usize, usize)>;

/// `Graph::with_capacity`: a graph without nodes and edges.
#[verifier::external_body]
pub(crate) fn graph_with_capacity(nodes: usize, edges: usize) -> (g: EditGraph)
    ensures
        graph_nodes(g) == Seq::<(usize, usize)>::empty(),
        graph_edges(g) == Seq::<(usize, usize, usize)>::empty(),
{
    petgraph::graph::Graph::with_capacity(nodes, edges)
}

/// `Graph::add_node`: appends a node with the given weight and returns its
/// index. The graph panics when the count of nodes reaches the largest `u32`.
#[verifier::external_body]
pub(crate) fn graph_add_node(g: &mut EditGraph, weight: (usize, usize)) -> (index: usize)
    requires
        graph_nodes(*old(g)).len() < u32::MAX,
    ensures
        graph_nodes(*final(g)) == graph_nodes(*old(g)).push(weight),
        graph_edges(*final(g)) == graph_edges(*old(g)),
        index == graph_nodes(*old(g)).len(),
{
    g.add_node(weight).index()
}

/// `Graph::add_edge`: appends an edge from `a` to `b` with the given cost and
/// returns its index. The graph panics when either node is missing, or when
/// the count of edges reaches the largest `u32`.
#[verifier::external_body]
pub(crate) fn graph_add_edge(g: &mut EditGraph, a: usize, b: usize, cost: usize) -> (index: usize)
    requires
        a < graph_nodes(*old(g)).len(),
        b < graph_nodes(*old(g)).len(),
        graph_nodes(*old(g)).len() <= u32::MAX,
        graph_edges(*old(g)).len() < u32::MAX,
    ensures
        graph_edges(*final(g)) == graph_edges(*old(g)).push((a, b, cost)),
        graph_nodes(*final(g)) == graph_nodes(*old(g)),
        index == graph_edges(*old(g)).len(),
{
    g.add_edge(petgraph::graph::NodeIndex::new(a), petgraph::graph::NodeIndex::new(b), cost).index()
}

/// `Graph::node_weight`: the weight of the node with the given index, if
/// there is one.
#[verifier::external_body]
pub(crate) fn graph_node_weight(g: &EditGraph, node: usize) -> (r: Option<(usize, usize)>)
    requires
        node <= u32::MAX,
    ensures
        node < graph_nodes(*g).len() ==> r == Some(graph_nodes(*g)[node as int]),
        node >= graph_nodes(*g).len() ==> r.is_none(),
{
    g.node_weight(petgraph::graph::NodeIndex::new(node)).copied()
}

/// `Graph::edge_weight`: the cost of the edge with the given index, if there
/// is one.
#[verifier::external_body]
pub(crate) fn graph_edge_weight(g: &EditGraph, edge: usize) -> (r: Option<usize>)
    requires
        edge <= u32::MAX,
    ensures
        edge < graph_edges(*g).len() ==> r == Some(graph_edges(*g)[edge as int].2),
        edge >= graph_edges(*g).len() ==> r.is_none(),
{
    g.edge_weight(petgraph::graph::EdgeIndex::new(edge)).copied()
}

/// Whether some edge leads from `a` to `b`.
pub open spec fn connects(edges: Seq<(usize, usize, usize)>, a: usize, b: usize) -> bool {
    exists|e: int| 0 <= e < edges.len() && (#[trigger] edges[e]).0 == a && edges[e].1 == b
}

/// `Graph::find_edge`: the index of an edge from `a` to `b`, or `None` where
/// no edge leads from `a` to `b`. Which edge it is, where there are several,
/// is left open.
#[verifier::external_body]
pub(crate) fn graph_find_edge(g: &EditGraph, a: usize, b: usize) -> (r: Option<usize>)
    requires
        a <= u32::MAX,
        b <= u32::MAX,
    ensures
        match r {
            Some(e) => e < graph_edges(*g).len() && graph_edges(*g)[e as int].0 == a
                && graph_edges(*g)[e as int].1 == b,
            None => !connects(graph_edges(*g), a, b),
        },
{
    let found = g.find_edge(petgraph::graph::NodeIndex::new(a), petgraph::graph::NodeIndex::new(b));
    found.map(|e| e.index())
}

/// Whether `path` is a walk along edges from `start` to `finish`.
pub open spec fn is_path(
    edges: Seq<(usize, usize, usize)>,
    path: Seq<usize>,
    start: usize,
    finish: usize,
) -> bool {
    &&& path.len() >= 1
    &&& path[0] == start
    &&& path[path.len() - 1] == finish
    &&& forall|k: int| 0 <= k < path.len() - 1 ==> connects(edges, #[trigger] path[k], path[k + 1])
}

/// Whether `walk`, a sequence of edge indices, leads along edges from `start`
/// to `finish`: each edge starts where the one before it ends.
pub open spec fn is_walk(
    edges: Seq<(usize, usize, usize)>,
    walk: Seq<int>,
    start: usize,
    finish: usize,
) -> bool {
    &&& forall|i: int| 0 <= i < walk.len() ==> 0 <= #[trigger] walk[i] < edges.len()
    &&& if walk.len() == 0 {
        start == finish
    } else {
        edges[walk[0]].0 == start && edges[walk[walk.len() - 1]].1 == finish
    }
    &&& forall|i: int|
        0 <= i < walk.len() - 1 ==> edges[#[trigger] walk[i]].1 == edges[walk[i + 1]].0
}

/// The cost of the edges `walk[k..]`.
pub open spec fn walk_cost(edges: Seq<(usize, usize, usize)>, walk: Seq<int>, k: int) -> int
    decreases walk.len() - k,
{
    if k < 0 || k >= walk.len() {
        0
    } else {
        edges[walk[k]].2 + walk_cost(edges, walk, k + 1)
    }
}

/// The nodes that a walk from `start` passes, `start` included.
pub open spec fn walk_nodes(
    edges: Seq<(usize, usize, usize)>,
    walk: Seq<int>,
    start: usize,
) -> Seq<usize> {
    Seq::new(
        walk.len() + 1,
        |i: int|
            if i == 0 {
                start
            } else {
                edges[walk[i - 1]].1
            },
    )
}

/// Whether `path` is the sequence of nodes of a walk from `start` to `finish`
/// that costs no more than any other walk from `start` to `finish`.
pub open spec fn is_cheapest_path(
    edges: Seq<(usize, usize, usize)>,
    path: Seq<usize>,
    start: usize,
    finish: usize,
) -> bool {
    exists|walk: Seq<int>|
        {
            &&& #[trigger] is_walk(edges, walk, start, finish)
            &&& walk_nodes(edges, walk, start) == path
            &&& forall|other: Seq<int>| #[trigger]
                is_walk(edges, other, start, finish) ==> walk_cost(edges, walk, 0) <= walk_cost(
                    edges,
                    other,
                    0,
                )
        }
}

/// The path that the shortest path search of `petgraph` returns on a graph
/// with the given edges and count of nodes, searching from `start` to
/// `finish` with the cost of each edge as its weight and without an estimate.
/// Which of several cheapest paths comes out is decided by the search.
pub uninterp spec fn astar_path(
    edges: Seq<(usize, usize, usize)>,
    nodes: nat,
    start: usize,
    finish: usize,
) -> Option<Seq<usize>>;

/// `petgraph::algo::astar` with the edge weights as costs and a zero
/// estimate, which makes it a plain cheapest path search. The result is the
/// sequence of node indices from `start` to `finish`: it is a walk along
/// edges of the graph that costs no more than any other, and it is found
/// whenever such a walk exists. Costs are summed in `usize`, so the cost of
/// the longest simple path must fit.
#[verifier::external_body]
pub(crate) fn graph_astar(g: &EditGraph, start: usize, finish: usize) -> (r: Option<Vec<usize>>)
    requires
        start < graph_nodes(*g).len(),
        finish < graph_nodes(*g).len(),
        graph_nodes(*g).len() <= u32::MAX,
        forall|e: int|
            0 <= e < graph_edges(*g).len() ==> (#[trigger] graph_edges(*g)[e]).2 * graph_nodes(
                *g,
            ).len() <= usize::MAX,
    ensures
        match r {
            Some(p) => astar_path(graph_edges(*g), graph_nodes(*g).len(), start, finish) == Some(
                p@,
            ) && is_path(graph_edges(*g), p@, start, finish) && is_cheapest_path(
                graph_edges(*g),
                p@,
                start,
                finish,
            ),
            None => astar_path(graph_edges(*g), graph_nodes(*g).len(), start, finish).is_none()
                && forall|p: Seq<usize>| !is_path(graph_edges(*g), p, start, finish),
        },
{
    let goal = petgraph::graph::NodeIndex::new(finish);
    let from = petgraph::graph::NodeIndex::new(start);
    let found = petgraph::algo::astar(g, from, |n| n == goal, |e| *e.weight(), |_| 0);
    found.map(|(_, path)| path.into_iter().map(|n| n.index()).collect())
}

} // verus!
