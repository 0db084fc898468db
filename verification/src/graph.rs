//! The station graph: an undirected `petgraph` graph whose nodes are
//! stations and whose edges are segments.
//!
//! Nothing in this file is proved. Each function states what the graph
//! library does, over the two sequences that the graph holds.

use vstd::prelude::*;
use petgraph::graph::NodeIndex;
use petgraph::visit::EdgeRef;
use crate::model::{
    incidences, leading_to, same_items, surviving, swap_removed, Incidence, Link, Segment, Station,
    StationIndex,
};

verus! {

/// `petgraph::graph::Graph`, carried through as it is. What it holds is
/// read through `graph_nodes` and `graph_edges`.
#[verifier::external_type_specification]
#[verifier::external_body]
#[verifier::reject_recursive_types(N)]
#[verifier::reject_recursive_types(E)]
#[verifier::reject_recursive_types(Ty)]
#[verifier::reject_recursive_types(Ix)]
pub struct ExGraph<N, E, Ty, Ix>(petgraph::graph::Graph<N, E, Ty, Ix>);

/// `petgraph::Undirected`, the marker of a graph whose edges have no
/// direction. It has no values.
#[verifier::external_type_specification]
#[verifier::external_body]
pub struct ExUndirected(petgraph::Undirected);

/// The graph of a map.
pub type StationGraph = petgraph::graph::Graph<Station, Segment, petgraph::Undirected, u16>;

/// The most nodes, and the most edges, that a graph indexed by `u16` holds.
pub const GRAPH_LIMIT: usize = 65535;

/// The node weights of a graph, by node index.
pub uninterp spec fn graph_nodes(g: StationGraph) -> Seq<Station>;

/// The edges of a graph with their end points, by edge index.
pub uninterp spec fn graph_edges(g: StationGraph) -> Seq<Link>;

/// What `Graph::edges` yields for a node: the edges at that node, each as
/// seen from it, in the order in which the graph walks them.
pub uninterp spec fn graph_incident(g: StationGraph, a: StationIndex) -> Seq<Incidence>;

/// `Graph::with_capacity(0, 0)`: a graph without nodes or edges.
#[verifier::external_body]
pub(crate) fn graph_new() -> (g: StationGraph)
    ensures
        graph_nodes(g) == Seq::<Station>::empty(),
        graph_edges(g) == Seq::<Link>::empty(),
{
    petgraph::graph::Graph::with_capacity(0, 0)
}

/// `Graph::node_count`: the number of nodes.
#[verifier::external_body]
pub(crate) fn graph_node_count(g: &StationGraph) -> (n: usize)
    ensures
        n == graph_nodes(*g).len(),
{
    g.node_count()
}

/// `Graph::edge_count`: the number of edges.
#[verifier::external_body]
pub(crate) fn graph_edge_count(g: &StationGraph) -> (n: usize)
    ensures
        n == graph_edges(*g).len(),
{
    g.edge_count()
}

/// `Graph::add_node`: the node goes to the end and gets the next index; the
/// edges stay. The graph library panics once the index would be 65535.
#[verifier::external_body]
pub(crate) fn graph_add_node(g: &mut StationGraph, station: Station) -> (index: StationIndex)
    requires
        graph_nodes(*old(g)).len() < GRAPH_LIMIT,
    ensures
        graph_nodes(*final(g)) == graph_nodes(*old(g)).push(station),
        graph_edges(*final(g)) == graph_edges(*old(g)),
        index == graph_nodes(*old(g)).len(),
{
    g.add_node(station).index() as u16
}

/// `Graph::add_edge`: the edge goes to the end of the edges, from `a` to
/// `b`; the nodes stay. The graph library panics where a node is missing or
/// the edge's index would be 65535.
#[verifier::external_body]
pub(crate) fn graph_add_edge(g: &mut StationGraph, a: StationIndex, b: StationIndex, segment: Segment)
    requires
        a < graph_nodes(*old(g)).len(),
        b < graph_nodes(*old(g)).len(),
        graph_edges(*old(g)).len() < GRAPH_LIMIT,
    ensures
        graph_nodes(*final(g)) == graph_nodes(*old(g)),
        graph_edges(*final(g)) == graph_edges(*old(g)).push(
            Link { source: a, target: b, segment },
        ),
{
    g.add_edge(NodeIndex::new(a as usize), NodeIndex::new(b as usize), segment);
}

/// `Graph::node_weight`: the weight of node `a`, if there is such a node.
#[verifier::external_body]
pub(crate) fn graph_node(g: &StationGraph, a: StationIndex) -> (station: Option<Station>)
    ensures
        station == if a < graph_nodes(*g).len() {
            Some(graph_nodes(*g)[a as int])
        } else {
            None
        },
{
    g.node_weight(NodeIndex::new(a as usize)).copied()
}

/// `Graph::node_weights`: the weights of all nodes, by index.
#[verifier::external_body]
pub(crate) fn graph_all_nodes(g: &StationGraph) -> (stations: Vec<Station>)
    ensures
        stations@ == graph_nodes(*g),
{
    g.node_weights().copied().collect()
}

/// `Graph::edge_references`: all edges with their end points, by index.
#[verifier::external_body]
pub(crate) fn graph_all_edges(g: &StationGraph) -> (links: Vec<Link>)
    ensures
        links@ == graph_edges(*g),
{
    g.edge_references().map(|e| Link {
        source: e.source().index() as u16,
        target: e.target().index() as u16,
        segment: *e.weight(),
    }).collect()
}

/// `Graph::edges` on an undirected graph: every edge with an end in `a`,
/// once, with `a` as its source and the other end as its target (a loop has
/// `a` at both). The graph walks the edges that start in `a` and then those
/// that end there, so the order is not that of the edge indices: only the
/// items are stated.
#[verifier::external_body]
pub(crate) fn graph_edges_at(g: &StationGraph, a: StationIndex) -> (around: Vec<Incidence>)
    ensures
        around@ == graph_incident(*g, a),
        same_items(around@, incidences(graph_edges(*g), a)),
{
    g.edges(NodeIndex::new(a as usize)).map(|e| Incidence {
        neighbor: e.target().index() as u16,
        segment: *e.weight(),
    }).collect()
}

/// `Graph::edges_connecting` on an undirected graph: of the edges that
/// `Graph::edges` yields for `a`, those whose other end is `b`; that is,
/// every edge between `a` and `b`, whichever way it was added. Only the
/// items are stated, as for `graph_edges_at`.
#[verifier::external_body]
pub(crate) fn graph_edges_between(g: &StationGraph, a: StationIndex, b: StationIndex) -> (found: Vec<Segment>)
    ensures
        same_items(found@, leading_to(incidences(graph_edges(*g), a), b)),
{
    g.edges_connecting(NodeIndex::new(a as usize), NodeIndex::new(b as usize)).map(
        |e| *e.weight(),
    ).collect()
}

/// `Graph::remove_node`: without such a node nothing changes. Else the node
/// leaves with every edge that has an end in it, the last node takes its
/// index, and the ends of the remaining edges follow that node. The edges
/// change places as they are removed one by one: only the items are stated.
#[verifier::external_body]
pub(crate) fn graph_remove_node(g: &mut StationGraph, a: StationIndex) -> (removed: Option<Station>)
    ensures
        a >= graph_nodes(*old(g)).len() ==> removed.is_none() && graph_nodes(*final(g))
            == graph_nodes(*old(g)) && graph_edges(*final(g)) == graph_edges(*old(g)),
        a < graph_nodes(*old(g)).len() ==> removed == Some(graph_nodes(*old(g))[a as int])
            && graph_nodes(*final(g)) == swap_removed(graph_nodes(*old(g)), a as int)
            && same_items(
            graph_edges(*final(g)),
            surviving(graph_edges(*old(g)), a, (graph_nodes(*old(g)).len() - 1) as u16),
        ),
{
    g.remove_node(NodeIndex::new(a as usize))
}

/// `Graph::clear`: no node and no edge is left.
#[verifier::external_body]
pub(crate) fn graph_clear(g: &mut StationGraph)
    ensures
        graph_nodes(*final(g)) == Seq::<Station>::empty(),
        graph_edges(*final(g)) == Seq::<Link>::empty(),
{
    g.clear();
}

} // verus!
