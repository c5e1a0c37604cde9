//! The dependency graph of a flow, kept in a `petgraph` graph map.
//!
//! A node of the graph is a pair of a flag and an index (see
//! [`crate::schedule::ScoringNodeId::key`]); an edge leads from a node to the
//! node that needs its result. Nothing in this library looks inside the
//! graph map: [`graph_nodes`] and [`graph_edges`] name what it holds, and the
//! functions below state what each operation of `petgraph` does to them.

use vstd::prelude::*;
use petgraph::algo::Cycle;
use petgraph::graphmap::GraphMap;
use petgraph::Directed;

verus! {

/// `petgraph::Directed`, the marker of directed graphs, as an opaque type.
#[verifier::external_type_specification]
#[verifier::external_body]
pub struct ExDirected(Directed);

/// `petgraph::graphmap::GraphMap`, as an opaque type.
#[verifier::external_type_specification]
#[verifier::external_body]
#[verifier::reject_recursive_types(N)]
#[verifier::reject_recursive_types(E)]
#[verifier::reject_recursive_types(Ty)]
#[verifier::reject_recursive_types(S)]
pub struct ExGraphMap<N, E, Ty, S: std::hash::BuildHasher>(GraphMap<N, E, Ty, S>);

/// `petgraph::algo::Cycle`, the error of a topological sort, as an opaque
/// type.
#[verifier::external_type_specification]
#[verifier::external_body]
#[verifier::reject_recursive_types(N)]
pub struct ExCycle<N>(Cycle<N>);

/// The nodes that a graph holds.
pub uninterp spec fn graph_nodes(graph: GraphMap<(bool, usize), (), Directed>) -> Set<
    (bool, usize),
>;

/// The edges that a graph holds, each as the pair of its source and its
/// target.
pub uninterp spec fn graph_edges(graph: GraphMap<(bool, usize), (), Directed>) -> Set<
    ((bool, usize), (bool, usize)),
>;

/// Whether `order` lists every node of `nodes` exactly once, and nothing
/// else, with the source of every edge before its target.
pub open spec fn is_topological_order(
    nodes: Set<(bool, usize)>,
    edges: Set<((bool, usize), (bool, usize))>,
    order: Seq<(bool, usize)>,
) -> bool {
    &&& order.no_duplicates()
    &&& forall|n: (bool, usize)| nodes.contains(n) <==> #[trigger] order.contains(n)
    &&& forall|i: int, j: int|
        0 <= i < order.len() && 0 <= j < order.len() && #[trigger] edges.contains(
            (order[i], order[j]),
        ) ==> i < j
}

/// `GraphMap::new`: a graph without nodes and edges.
#[verifier::external_body]
pub(crate) fn graph_new() -> (graph: GraphMap<(bool, usize), (), Directed>)
    ensures
        graph_nodes(graph) == Set::<(bool, usize)>::empty(),
        graph_edges(graph) == Set::<((bool, usize), (bool, usize))>::empty(),
{
    GraphMap::new()
}

/// `GraphMap::add_node`: the node is added to the nodes, unless it is one
/// already; the edges stay as they are.
#[verifier::external_body]
pub(crate) fn graph_add_node(graph: &mut GraphMap<(bool, usize), (), Directed>, node: (bool, usize))
    ensures
        graph_nodes(*final(graph)) == graph_nodes(*old(graph)).insert(node),
        graph_edges(*final(graph)) == graph_edges(*old(graph)),
{
    graph.add_node(node);
}

/// `GraphMap::add_edge`: the edge from `source` to `target` is added to the
/// edges, and both of its ends to the nodes, unless they are there already.
#[verifier::external_body]
pub(crate) fn graph_add_edge(
    graph: &mut GraphMap<(bool, usize), (), Directed>,
    source: (bool, usize),
    target: (bool, usize),
)
    ensures
        graph_nodes(*final(graph)) == graph_nodes(*old(graph)).insert(source).insert(target),
        graph_edges(*final(graph)) == graph_edges(*old(graph)).insert((source, target)),
{
    graph.add_edge(source, target, ());
}

/// `petgraph::algo::toposort`, without a workspace: for a graph without a
/// cycle, its nodes in an order that puts each node before its successors;
/// an error only for a graph with a cycle, which no order can list so.
#[verifier::external_body]
pub(crate) fn graph_toposort(graph: &GraphMap<(bool, usize), (), Directed>) -> (sorted: Result<
    Vec<(bool, usize)>,
    Cycle<(bool, usize)>,
>)
    ensures
        sorted matches Ok(order) ==> is_topological_order(
            graph_nodes(*graph),
            graph_edges(*graph),
            order@,
        ),
        sorted is Err ==> forall|order: Seq<(bool, usize)>|
            !#[trigger] is_topological_order(graph_nodes(*graph), graph_edges(*graph), order),
{
    petgraph::algo::toposort(graph, None)
}

} // verus!
