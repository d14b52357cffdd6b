//! The node graph is held in a `petgraph::stable_graph::StableGraph`; this module declares it to
//! the verifier and states what each graph operation the library uses does to the nodes and
//! edges the graph holds.

use vstd::prelude::*;

use petgraph::stable_graph::{EdgeIndex, NodeIndex as GraphNodeIndex, StableGraph};
use petgraph::visit::EdgeRef;
use petgraph::{Directed, Direction};

use super::{EdgeData, NodeData, NodeIndex};

verus! {

#[verifier::external_type_specification]
#[verifier::external_body]
#[verifier::reject_recursive_types(N)]
#[verifier::reject_recursive_types(E)]
#[verifier::reject_recursive_types(Ty)]
#[verifier::reject_recursive_types(Ix)]
pub struct ExStableGraph<N, E, Ty, Ix>(StableGraph<N, E, Ty, Ix>);

#[verifier::external_type_specification]
#[verifier::external_body]
pub struct ExDirected(Directed);

/// The graph of nodes and the edges between their channels.
pub type Graph = StableGraph<NodeData, EdgeData, Directed, u32>;

/// The nodes a graph holds, by index.
pub uninterp spec fn graph_nodes(g: Graph) -> Map<NodeIndex, NodeData>;

/// The edges a graph holds, by index: source node, target node and edge data.
pub uninterp spec fn graph_edges(g: Graph) -> Map<u32, (NodeIndex, NodeIndex, EdgeData)>;

/// A sequence that lists every element of `set` once, in increasing order.
pub open spec fn lists_increasing(s: Seq<u32>, set: Set<u32>) -> bool {
    &&& forall|i: int, j: int| 0 <= i < j < s.len() ==> s[i] < s[j]
    &&& forall|i: int| 0 <= i < s.len() ==> set.contains(#[trigger] s[i])
    &&& forall|x: u32| set.contains(x) ==> s.contains(x)
}

/// A sequence that lists every element of `set` exactly once.
pub open spec fn lists_once(s: Seq<u32>, set: Set<u32>) -> bool {
    &&& s.no_duplicates()
    &&& forall|i: int| 0 <= i < s.len() ==> set.contains(#[trigger] s[i])
    &&& forall|x: u32| set.contains(x) ==> s.contains(x)
}

/// The edges of `g` that end at node `n`.
pub open spec fn incoming(g: Graph, n: NodeIndex) -> Set<u32> {
    graph_edges(g).dom().filter(|e: u32| graph_edges(g)[e].1 == n)
}

/// A sequence of nodes that visits every node of `g` once, each before its successors.
pub open spec fn topological_order(g: Graph, order: Seq<NodeIndex>) -> bool {
    &&& lists_once(order, graph_nodes(g).dom())
    &&& forall|e: u32|
        #[trigger] graph_edges(g).dom().contains(e) ==> {
            &&& order.contains(graph_edges(g)[e].0)
            &&& order.contains(graph_edges(g)[e].1)
            &&& order.index_of(graph_edges(g)[e].0) < order.index_of(graph_edges(g)[e].1)
        }
}

/// A closed walk along the edges of `g`.
pub open spec fn is_cycle(g: Graph, walk: Seq<u32>) -> bool {
    &&& walk.len() > 0
    &&& forall|i: int|
        0 <= i < walk.len() ==> graph_edges(g).dom().contains(#[trigger] walk[i])
    &&& forall|i: int|
        0 <= i < walk.len() ==> graph_edges(g)[#[trigger] walk[i]].1 == graph_edges(g)[walk[(i
            + 1) % (walk.len() as int)]].0
}

pub open spec fn has_cycle(g: Graph) -> bool {
    exists|walk: Seq<u32>| is_cycle(g, walk)
}

/// Calls `StableGraph::new`: the new graph holds no nodes and no edges.
#[verifier::external_body]
pub(crate) fn graph_new() -> (r: Graph)
    ensures
        graph_nodes(r).is_empty(),
        graph_edges(r).is_empty(),
{
    StableGraph::default()
}

/// Calls `StableGraph::try_add_node`: on success the node is stored under an index that was
/// free; the edges are unchanged. It fails only where no slot is vacant and the slots fill
/// every index below `u32::MAX` (the index type is exhausted); the nodes are then unchanged
/// as well.
#[verifier::external_body]
pub(crate) fn graph_try_add_node(g: &mut Graph, weight: NodeData) -> (r: Option<NodeIndex>)
    ensures
        graph_edges(*final(g)) == graph_edges(*old(g)),
        r matches Some(n) ==> !graph_nodes(*old(g)).dom().contains(n) && graph_nodes(*final(g))
            == graph_nodes(*old(g)).insert(n, weight),
        r is None ==> graph_nodes(*final(g)) == graph_nodes(*old(g)),
        r is None ==> forall|n: NodeIndex| n < u32::MAX ==> #[trigger] graph_nodes(*old(g)).dom().contains(n),
{
    g.try_add_node(weight).ok().map(|n| n.index() as u32)
}

/// Calls `StableGraph::try_add_edge` for two nodes of the graph: on success the edge is stored
/// under an index that was free; the nodes are unchanged. It fails only where no edge slot is
/// vacant and the slots fill every index below `u32::MAX` (the index type is exhausted); the
/// edges are then unchanged as well.
#[verifier::external_body]
pub(crate) fn graph_try_add_edge(g: &mut Graph, a: NodeIndex, b: NodeIndex, weight: EdgeData) -> (r: Option<u32>)
    requires
        graph_nodes(*old(g)).dom().contains(a),
        graph_nodes(*old(g)).dom().contains(b),
    ensures
        graph_nodes(*final(g)) == graph_nodes(*old(g)),
        r matches Some(e) ==> !graph_edges(*old(g)).dom().contains(e) && graph_edges(*final(g))
            == graph_edges(*old(g)).insert(e, (a, b, weight)),
        r is None ==> graph_edges(*final(g)) == graph_edges(*old(g)),
        r is None ==> forall|e: u32| e < u32::MAX ==> #[trigger] graph_edges(*old(g)).dom().contains(e),
{
    g.try_add_edge(GraphNodeIndex::new(a as usize), GraphNodeIndex::new(b as usize), weight).ok().map(
        |e| e.index() as u32,
    )
}

/// Calls `StableGraph::node_indices`: the indices of all nodes, in increasing order.
#[verifier::external_body]
pub(crate) fn graph_node_indices(g: &Graph) -> (r: Vec<NodeIndex>)
    ensures
        lists_increasing(r@, graph_nodes(*g).dom()),
{
    g.node_indices().map(|n| n.index() as u32).collect()
}

/// Calls `StableGraph::edge_indices`: the indices of all edges, in increasing order.
#[verifier::external_body]
pub(crate) fn graph_edge_indices(g: &Graph) -> (r: Vec<u32>)
    ensures
        lists_increasing(r@, graph_edges(*g).dom()),
{
    g.edge_indices().map(|e| e.index() as u32).collect()
}

/// Calls `StableGraph::node_weight`: the node stored under `n`, if any.
#[verifier::external_body]
pub(crate) fn graph_node_weight(g: &Graph, n: NodeIndex) -> (r: Option<&NodeData>)
    ensures
        r is Some <==> graph_nodes(*g).dom().contains(n),
        r matches Some(w) ==> *w == graph_nodes(*g)[n],
{
    g.node_weight(GraphNodeIndex::new(n as usize))
}

/// Calls `StableGraph::edge_endpoints`: the source and target of the edge stored under `e`, if
/// any; both are nodes of the graph.
#[verifier::external_body]
pub(crate) fn graph_edge_endpoints(g: &Graph, e: u32) -> (r: Option<(NodeIndex, NodeIndex)>)
    ensures
        r is Some <==> graph_edges(*g).dom().contains(e),
        r matches Some(p) ==> p.0 == graph_edges(*g)[e].0 && p.1 == graph_edges(*g)[e].1,
        r matches Some(p) ==> graph_nodes(*g).dom().contains(p.0) && graph_nodes(*g).dom().contains(
            p.1,
        ),
{
    g.edge_endpoints(EdgeIndex::new(e as usize)).map(|(a, b)| (a.index() as u32, b.index() as u32))
}

/// Calls `StableGraph::edge_weight`: the data of the edge stored under `e`, if any.
#[verifier::external_body]
pub(crate) fn graph_edge_weight(g: &Graph, e: u32) -> (r: Option<&EdgeData>)
    ensures
        r is Some <==> graph_edges(*g).dom().contains(e),
        r matches Some(w) ==> *w == graph_edges(*g)[e].2,
{
    g.edge_weight(EdgeIndex::new(e as usize))
}

/// Calls `StableGraph::edges_directed` with `Direction::Incoming`: the indices of the edges that
/// end at `n`, each once, in an order the contract leaves open.
#[verifier::external_body]
pub(crate) fn graph_incoming_edges(g: &Graph, n: NodeIndex) -> (r: Vec<u32>)
    ensures
        lists_once(r@, incoming(*g, n)),
{
    g.edges_directed(GraphNodeIndex::new(n as usize), Direction::Incoming).map(|e| e.id().index() as u32).collect()
}

/// Calls `petgraph::algo::toposort`: the nodes in an order in which every node comes before
/// its successors, or, if the graph has a cycle, a node on a cycle.
#[verifier::external_body]
pub(crate) fn graph_toposort(g: &Graph) -> (r: Result<Vec<NodeIndex>, NodeIndex>)
    ensures
        r matches Ok(order) ==> topological_order(*g, order@),
        r is Err ==> has_cycle(*g),
{
    petgraph::algo::toposort(g, None).map(|order| order.into_iter().map(|n| n.index() as u32).collect()).map_err(
        |cycle| cycle.node_id().index() as u32,
    )
}

} // verus!
