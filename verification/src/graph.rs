//! The graph of the `petgraph` crate, as far as the library uses it.
//!
//! Nothing in this file is proved: each function states what the source of
//! `petgraph` shows of the method that it calls.

use vstd::prelude::*;
use petgraph::graph::{Graph, NodeIndex};
use petgraph::visit::EdgeRef;
use petgraph::{Directed, Direction};
use crate::cfg::Node;

verus! {

/// `petgraph::graph::Graph`: a graph by two lists, of nodes and of edges.
/// Nothing is known of a value but what the functions below say.
#[verifier::external_type_specification]
#[verifier::external_body]
#[verifier::reject_recursive_types(N)]
#[verifier::reject_recursive_types(E)]
#[verifier::reject_recursive_types(Ty)]
#[verifier::reject_recursive_types(Ix)]
pub struct ExGraph<N, E, Ty, Ix>(Graph<N, E, Ty, Ix>);

/// `petgraph::graph::NodeIndex`: the handle of a node, which stands for
/// the node's position in the list of nodes.
#[verifier::external_type_specification]
#[verifier::external_body]
#[verifier::reject_recursive_types(Ix)]
pub struct ExNodeIndex<Ix>(NodeIndex<Ix>);

/// `petgraph::Directed`: the marker of a graph whose edges have a
/// direction.
#[verifier::external_type_specification]
#[verifier::external_body]
pub struct ExDirected(Directed);

/// The limit of `petgraph` that an addition ran into.
#[derive(Clone, Copy, Debug, PartialEq, Eq, Structural)]
pub enum GraphLimit {
    /// The graph holds as many nodes as a `u32` index can tell apart.
    Nodes,
    /// The graph holds as many edges as a `u32` index can tell apart.
    Edges,
    /// An end of the edge is no node of the graph.
    NodeOutOfBounds,
}

/// The side of a node on which an edge lies.
#[derive(Clone, Copy, Debug, PartialEq, Eq, Structural)]
pub enum EdgeDirection {
    /// The edges that leave the node.
    Outgoing,
    /// The edges that enter the node.
    Incoming,
}

/// The position that a node index stands for: what `NodeIndex::index`
/// returns.
pub uninterp spec fn index_of(nx: NodeIndex<u32>) -> int;

/// The node index of a position: what `NodeIndex::new` returns.
pub uninterp spec fn node_index_at(position: int) -> NodeIndex<u32>;

/// The edges of a list from the first `n` that leave (or, for `incoming`,
/// enter) the node at `position`, the one added last first.
pub open spec fn edges_at(edges: Seq<(int, int)>, position: int, incoming: bool, n: int) -> Seq<
    (int, int),
>
    decreases n,
{
    if 0 < n <= edges.len() {
        let edge = edges[n - 1];
        if (if incoming {
            edge.1
        } else {
            edge.0
        }) == position {
            seq![edge] + edges_at(edges, position, incoming, n - 1)
        } else {
            edges_at(edges, position, incoming, n - 1)
        }
    } else {
        Seq::empty()
    }
}

/// The positions of the ends of each edge that was handed out.
pub open spec fn positions(edges: Seq<(NodeIndex<u32>, NodeIndex<u32>)>) -> Seq<(int, int)> {
    Seq::new(edges.len(), |i: int| (index_of(edges[i].0), index_of(edges[i].1)))
}

/// The weights of the nodes of the graph, by position.
pub uninterp spec fn graph_nodes(g: Graph<Node, (), Directed, u32>) -> Seq<Node>;

/// The positions of the source and of the target of each edge of the
/// graph, in the order in which the edges were added.
pub uninterp spec fn graph_edges(g: Graph<Node, (), Directed, u32>) -> Seq<(int, int)>;

/// `NodeIndex::index`: the position that the index stands for.
#[verifier::external_body]
pub(crate) fn node_position(nx: NodeIndex<u32>) -> (r: usize)
    ensures
        r == index_of(nx),
{
    nx.index()
}

/// `Graph::new`: a graph without nodes and edges.
#[verifier::external_body]
pub(crate) fn graph_new() -> (g: Graph<Node, (), Directed, u32>)
    ensures
        graph_nodes(g) == Seq::<Node>::empty(),
        graph_edges(g) == Seq::<(int, int)>::empty(),
{
    Graph::new()
}

/// `Graph::try_add_node`: the node is added behind the others and gets the
/// index of its position, unless the graph holds `u32::MAX` nodes already
/// (it never holds more); then nothing changes. The edges stay as they
/// are.
#[verifier::external_body]
pub(crate) fn graph_try_add_node(g: &mut Graph<Node, (), Directed, u32>, weight: Node) -> (r: Result<
    NodeIndex<u32>,
    GraphLimit,
>)
    ensures
        r is Ok <==> graph_nodes(*old(g)).len() < u32::MAX,
        graph_edges(*final(g)) == graph_edges(*old(g)),
        match r {
            Ok(nx) => {
                &&& nx == node_index_at(graph_nodes(*old(g)).len() as int)
                &&& index_of(nx) == graph_nodes(*old(g)).len()
                &&& graph_nodes(*final(g)) == graph_nodes(*old(g)).push(weight)
            },
            Err(limit) => limit == GraphLimit::Nodes && graph_nodes(*final(g)) == graph_nodes(
                *old(g),
            ),
        },
{
    g.try_add_node(weight).map_err(|_| GraphLimit::Nodes)
}

/// `Graph::try_add_edge`: the edge from `a` to `b` is added behind the
/// others, unless the graph holds `u32::MAX` edges already (it never holds
/// more) or an end is no node of the graph; then nothing changes. The
/// nodes stay as they are.
#[verifier::external_body]
pub(crate) fn graph_try_add_edge(
    g: &mut Graph<Node, (), Directed, u32>,
    a: NodeIndex<u32>,
    b: NodeIndex<u32>,
) -> (r: Result<(), GraphLimit>)
    ensures
        graph_nodes(*final(g)) == graph_nodes(*old(g)),
        match r {
            Ok(_) => {
                &&& graph_edges(*old(g)).len() < u32::MAX
                &&& 0 <= index_of(a) < graph_nodes(*old(g)).len()
                &&& 0 <= index_of(b) < graph_nodes(*old(g)).len()
                &&& graph_edges(*final(g)) == graph_edges(*old(g)).push((index_of(a), index_of(b)))
            },
            Err(limit) => {
                &&& graph_edges(*final(g)) == graph_edges(*old(g))
                &&& limit == if graph_edges(*old(g)).len() >= u32::MAX {
                    GraphLimit::Edges
                } else {
                    GraphLimit::NodeOutOfBounds
                }
                &&& (graph_edges(*old(g)).len() >= u32::MAX || !(0 <= index_of(a) < graph_nodes(
                    *old(g),
                ).len()) || !(0 <= index_of(b) < graph_nodes(*old(g)).len()))
            },
        },
{
    match g.try_add_edge(a, b, ()) {
        Ok(_) => Ok(()),
        Err(petgraph::graph::GraphError::EdgeIxLimit) => Err(GraphLimit::Edges),
        Err(_) => Err(GraphLimit::NodeOutOfBounds),
    }
}

/// `Graph::node_weight`: the weight of the node at the position of the
/// index, if the graph has a node there.
#[verifier::external_body]
pub(crate) fn graph_node_weight(g: &Graph<Node, (), Directed, u32>, nx: NodeIndex<u32>) -> (r: Option<
    &Node,
>)
    ensures
        match r {
            Some(node) => 0 <= index_of(nx) < graph_nodes(*g).len() && *node == graph_nodes(
                *g,
            )[index_of(nx)],
            None => !(0 <= index_of(nx) < graph_nodes(*g).len()),
        },
{
    g.node_weight(nx)
}

/// `Graph::node_weight_mut`: the weight of the node at the position of the
/// index, to be changed in place, if the graph has a node there. Nothing
/// else of the graph changes.
#[verifier::external_body]
pub(crate) fn graph_node_weight_mut(g: &mut Graph<Node, (), Directed, u32>, nx: NodeIndex<u32>) -> (r:
    Option<&mut Node>)
    ensures
        graph_edges(*final(g)) == graph_edges(*old(g)),
        match r {
            Some(node) => {
                &&& 0 <= index_of(nx) < graph_nodes(*old(g)).len()
                &&& *node == graph_nodes(*old(g))[index_of(nx)]
                &&& graph_nodes(*final(g)) == graph_nodes(*old(g)).update(
                    index_of(nx),
                    *final(node),
                )
            },
            None => {
                &&& !(0 <= index_of(nx) < graph_nodes(*old(g)).len())
                &&& graph_nodes(*final(g)) == graph_nodes(*old(g))
            },
        },
{
    g.node_weight_mut(nx)
}

/// `Graph::edges_directed`: the edges that leave the node, or that enter
/// it, each by its source and its target, the one added last first.
#[verifier::external_body]
pub(crate) fn graph_edges_directed(
    g: &Graph<Node, (), Directed, u32>,
    nx: NodeIndex<u32>,
    direction: EdgeDirection,
) -> (r: Vec<(NodeIndex<u32>, NodeIndex<u32>)>)
    ensures
        positions(r@) == edges_at(
            graph_edges(*g),
            index_of(nx),
            direction is Incoming,
            graph_edges(*g).len() as int,
        ),
{
    let direction = match direction {
        EdgeDirection::Outgoing => Direction::Outgoing,
        EdgeDirection::Incoming => Direction::Incoming,
    };
    g.edges_directed(nx, direction).map(|e| (e.source(), e.target())).collect()
}

} // verus!
