//! The directed dependency graph behind the matrix's traversal queries.
//!
//! The graph is petgraph's `Graph`, holding plain indices: each node weight is
//! the index of a file, each edge weight the index of a relationship. Its
//! contents are described by `graph_nodes` and `graph_edges`.
use vstd::prelude::*;

verus! {

/// petgraph's adjacency-list graph, opaque to the verifier.
#[verifier::external_type_specification]
#[verifier::external_body]
#[verifier::reject_recursive_types(N)]
#[verifier::reject_recursive_types(E)]
#[verifier::reject_recursive_types(Ty)]
#[verifier::reject_recursive_types(Ix)]
pub struct ExGraph<N, E, Ty, Ix>(petgraph::graph::Graph<N, E, Ty, Ix>);

/// petgraph's marker for directed edges.
#[verifier::external_type_specification]
#[verifier::external_body]
pub struct ExDirected(petgraph::Directed);

/// The node weights of a graph, in node-index order.
pub uninterp spec fn graph_nodes(g: petgraph::graph::Graph<usize, usize>) -> Seq<usize>;

/// The edges of a graph in edge-index order, each as (source, target, weight).
pub uninterp spec fn graph_edges(g: petgraph::graph::Graph<usize, usize>) -> Seq<(usize, usize, usize)>;

/// The largest node or edge count a graph with `u32` indices accepts.
pub open spec fn index_limit() -> int {
    u32::MAX as int
}

/// Sources of the edges that end at `n`, newest edge first.
pub open spec fn sources_into(edges: Seq<(usize, usize, usize)>, n: usize) -> Seq<usize>
    decreases edges.len(),
{
    if edges.len() == 0 {
        Seq::empty()
    } else {
        let last = edges.last();
        let rest = sources_into(edges.drop_last(), n);
        if last.1 == n {
            seq![last.0] + rest
        } else {
            rest
        }
    }
}

/// Targets of the edges that start at `n`, newest edge first.
pub open spec fn targets_from(edges: Seq<(usize, usize, usize)>, n: usize) -> Seq<usize>
    decreases edges.len(),
{
    if edges.len() == 0 {
        Seq::empty()
    } else {
        let last = edges.last();
        let rest = targets_from(edges.drop_last(), n);
        if last.0 == n {
            seq![last.1] + rest
        } else {
            rest
        }
    }
}

/// Relies on petgraph's `Graph::new`: a graph with no nodes and no edges.
#[verifier::external_body]
pub(crate) fn graph_new() -> (g: petgraph::graph::Graph<usize, usize>)
    ensures
        graph_nodes(g) == Seq::<usize>::empty(),
        graph_edges(g) == Seq::<(usize, usize, usize)>::empty(),
{
    petgraph::graph::Graph::new()
}

/// Relies on petgraph's `Graph::add_node`: the weight is appended and its
/// position is the new node's index; it panics once the `u32` indices run out.
#[verifier::external_body]
pub(crate) fn graph_add_node(g: &mut petgraph::graph::Graph<usize, usize>, w: usize) -> (r: usize)
    requires
        graph_nodes(*old(g)).len() < index_limit(),
    ensures
        r == graph_nodes(*old(g)).len(),
        graph_nodes(*final(g)) == graph_nodes(*old(g)).push(w),
        graph_edges(*final(g)) == graph_edges(*old(g)),
{
    g.add_node(w).index()
}

/// Relies on petgraph's `Graph::add_edge`: the edge is appended; it panics
/// when an endpoint is not a node or the `u32` indices run out.
#[verifier::external_body]
pub(crate) fn graph_add_edge(
    g: &mut petgraph::graph::Graph<usize, usize>,
    a: usize,
    b: usize,
    w: usize,
)
    requires
        a < graph_nodes(*old(g)).len(),
        b < graph_nodes(*old(g)).len(),
        graph_edges(*old(g)).len() < index_limit(),
    ensures
        graph_nodes(*final(g)) == graph_nodes(*old(g)),
        graph_edges(*final(g)) == graph_edges(*old(g)).push((a, b, w)),
{
    g.add_edge(petgraph::graph::NodeIndex::new(a), petgraph::graph::NodeIndex::new(b), w);
}

/// Relies on petgraph's `Graph::edges_directed` with `Incoming`: the edges
/// that end at `n`, walked newest first, each mapped to its source.
#[verifier::external_body]
pub(crate) fn graph_sources_into(g: &petgraph::graph::Graph<usize, usize>, n: usize) -> (r: Vec<usize>)
    requires
        n < graph_nodes(*g).len(),
    ensures
        r@ == sources_into(graph_edges(*g), n),
{
    g.edges_directed(petgraph::graph::NodeIndex::new(n), petgraph::Direction::Incoming)
        .map(|e| petgraph::visit::EdgeRef::source(&e).index())
        .collect()
}

/// Relies on petgraph's `Graph::edges_directed` with `Outgoing`: the edges
/// that start at `n`, walked newest first, each mapped to its target.
#[verifier::external_body]
pub(crate) fn graph_targets_from(g: &petgraph::graph::Graph<usize, usize>, n: usize) -> (r: Vec<usize>)
    requires
        n < graph_nodes(*g).len(),
    ensures
        r@ == targets_from(graph_edges(*g), n),
{
    g.edges_directed(petgraph::graph::NodeIndex::new(n), petgraph::Direction::Outgoing)
        .map(|e| petgraph::visit::EdgeRef::target(&e).index())
        .collect()
}

/// The cached traversal graph of a matrix, present only while it matches the
/// matrix's files and relationships.
#[derive(Debug, Clone)]
pub struct GraphCache {
    graph: Option<petgraph::graph::Graph<usize, usize>>,
}

impl GraphCache {
    /// The graph held, if any.
    pub closed spec fn held(&self) -> Option<petgraph::graph::Graph<usize, usize>> {
        self.graph
    }

    /// A cache that holds no graph.
    pub fn empty() -> (r: Self)
        ensures
            r.held() is None,
    {
        GraphCache { graph: None }
    }

    /// A cache that holds `g`.
    pub(crate) fn holding(g: petgraph::graph::Graph<usize, usize>) -> (r: Self)
        ensures
            r.held() == Some(g),
    {
        GraphCache { graph: Some(g) }
    }

    /// Whether a graph is held.
    pub fn is_built(&self) -> (r: bool)
        ensures
            r == self.held() is Some,
    {
        self.graph.is_some()
    }

    /// The graph held.
    pub(crate) fn get(&self) -> (r: &petgraph::graph::Graph<usize, usize>)
        requires
            self.held() is Some,
        ensures
            *r == self.held()->0,
    {
        self.graph.as_ref().unwrap()
    }
}

} // verus!
