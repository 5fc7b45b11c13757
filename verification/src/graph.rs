use crate::record::{NodeType, NodeView};
use petgraph::graph::{DiGraph, NodeIndex};
use vstd::prelude::*;

verus! {

/// petgraph's `Graph`, taken as it is: nothing is known of what a graph holds
/// but what `graph_nodes` and `graph_edges` say of it.
#[verifier::external_type_specification]
#[verifier::external_body]
#[verifier::reject_recursive_types(N)]
#[verifier::reject_recursive_types(E)]
#[verifier::reject_recursive_types(Ty)]
#[verifier::reject_recursive_types(Ix)]
pub struct ExGraph<N, E, Ty, Ix>(petgraph::graph::Graph<N, E, Ty, Ix>);

/// petgraph's marker `Directed`, which makes a `Graph` a `DiGraph`.
#[verifier::external_type_specification]
#[verifier::external_body]
pub struct ExDirected(petgraph::Directed);

/// The weights of the nodes of a graph in the order of their indices, each as
/// its view. petgraph numbers the nodes from 0 in the order in which they were
/// added.
pub uninterp spec fn graph_nodes(g: DiGraph<NodeType, ()>) -> Seq<NodeView>;

/// The edges of a graph in the order in which they were added, each as the
/// index of the node that it leaves and the index of the node that it reaches.
pub uninterp spec fn graph_edges(g: DiGraph<NodeType, ()>) -> Seq<(int, int)>;

/// The most nodes, and the most edges, that a graph indexed by `u32` takes:
/// the last value of `u32` never becomes an index, it marks the end of a list.
/// So the index of a node that a graph has is a `u32`, and the functions below
/// take and give it as a `usize` without loss.
pub const GRAPH_LIMIT: usize = 0xffff_ffff;

/// Whether edge `e` has node `a` at either end.
pub open spec fn touches(e: (int, int), a: int) -> bool {
    e.0 == a || e.1 == a
}

/// The degree of node `a`: how many of `edges` have it at either end.
pub open spec fn degree_in(edges: Seq<(int, int)>, a: int) -> nat
    decreases edges.len(),
{
    if edges.len() == 0 {
        0
    } else {
        degree_in(edges.drop_last(), a) + if touches(edges.last(), a) {
            1nat
        } else {
            0nat
        }
    }
}

/// How many of `nodes` are allergy categories.
pub open spec fn category_count(nodes: Seq<NodeView>) -> nat
    decreases nodes.len(),
{
    if nodes.len() == 0 {
        0
    } else {
        category_count(nodes.drop_last()) + if nodes.last() is NutAllergyStatus {
            1nat
        } else {
            0nat
        }
    }
}

/// `DiGraph::new` of petgraph: a graph without nodes or edges.
#[verifier::external_body]
pub(crate) fn graph_new() -> (g: DiGraph<NodeType, ()>)
    ensures
        graph_nodes(g) == Seq::<NodeView>::empty(),
        graph_edges(g) == Seq::<(int, int)>::empty(),
{
    DiGraph::new()
}

/// `Graph::add_node` of petgraph, with the new node's index as a number: the
/// node is appended and gets the next index; the edges stay. petgraph panics
/// on a full graph, which `requires` leaves out.
#[verifier::external_body]
pub(crate) fn graph_add_node(g: &mut DiGraph<NodeType, ()>, weight: NodeType) -> (ix: usize)
    requires
        graph_nodes(*old(g)).len() < GRAPH_LIMIT,
    ensures
        graph_nodes(*final(g)) == graph_nodes(*old(g)).push(weight@),
        graph_edges(*final(g)) == graph_edges(*old(g)),
        ix == graph_nodes(*old(g)).len(),
{
    g.add_node(weight).index()
}

/// `Graph::add_edge` of petgraph, between nodes given by their indices: an
/// edge from node `from` to node `to` is appended; the nodes stay. petgraph
/// panics on a missing node and on a full graph, which `requires` leaves out.
#[verifier::external_body]
pub(crate) fn graph_add_edge(g: &mut DiGraph<NodeType, ()>, from: usize, to: usize)
    requires
        from < graph_nodes(*old(g)).len(),
        to < graph_nodes(*old(g)).len(),
        graph_edges(*old(g)).len() < GRAPH_LIMIT,
    ensures
        graph_nodes(*final(g)) == graph_nodes(*old(g)),
        graph_edges(*final(g)) == graph_edges(*old(g)).push((from as int, to as int)),
{
    g.add_edge(NodeIndex::new(from), NodeIndex::new(to), ());
}

/// `Graph::node_count` of petgraph: how many nodes the graph has.
#[verifier::external_body]
pub(crate) fn graph_node_count(g: &DiGraph<NodeType, ()>) -> (n: usize)
    ensures
        n == graph_nodes(*g).len(),
{
    g.node_count()
}

/// Indexing a petgraph `Graph` by a node index (`Index<NodeIndex>`): the
/// weight of that node. petgraph panics on a missing node, which `requires`
/// leaves out.
#[verifier::external_body]
pub(crate) fn graph_node_weight(g: &DiGraph<NodeType, ()>, ix: usize) -> (weight: &NodeType)
    requires
        ix < graph_nodes(*g).len(),
    ensures
        weight@ == graph_nodes(*g)[ix as int],
{
    &g[NodeIndex::new(ix)]
}

/// `Graph::neighbors_undirected` of petgraph, counted: its iterator walks the
/// edges that leave the node and then those that reach it from another node,
/// so it meets each edge with the node at either end once, an edge from the
/// node to itself too.
#[verifier::external_body]
pub(crate) fn graph_degree(g: &DiGraph<NodeType, ()>, ix: usize) -> (degree: usize)
    requires
        ix < graph_nodes(*g).len(),
    ensures
        degree == degree_in(graph_edges(*g), ix as int),
{
    g.neighbors_undirected(NodeIndex::new(ix)).count()
}

} // verus!
