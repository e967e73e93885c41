use vstd::prelude::*;

verus! {

/// The directed graph of `petgraph` that holds the shape of a control-flow graph.
#[verifier::external_type_specification]
#[verifier::external_body]
#[verifier::reject_recursive_types(N)]
#[verifier::reject_recursive_types(E)]
#[verifier::reject_recursive_types(Ty)]
#[verifier::reject_recursive_types(Ix)]
pub struct ExGraph<N, E, Ty, Ix>(petgraph::graph::Graph<N, E, Ty, Ix>);

/// The marker of directed graphs in `petgraph`.
#[verifier::external_type_specification]
#[verifier::external_body]
pub struct ExDirected(petgraph::Directed);

/// The weights of the nodes of a graph, by node index.
pub uninterp spec fn graph_nodes(g: petgraph::graph::Graph<usize, (), petgraph::Directed, u32>) -> Seq<usize>;

/// The edges of a graph, as pairs of node indices, in the order they were added.
pub uninterp spec fn graph_edges(g: petgraph::graph::Graph<usize, (), petgraph::Directed, u32>) -> Seq<(usize, usize)>;

/// The targets of the edges from node `a`, in the order the edges were added.
pub open spec fn out_targets(es: Seq<(usize, usize)>, a: usize) -> Seq<usize>
    decreases es.len(),
{
    if es.len() == 0 {
        Seq::empty()
    } else {
        let init = out_targets(es.drop_last(), a);
        if es.last().0 == a {
            init.push(es.last().1)
        } else {
            init
        }
    }
}

/// The sources of the edges into node `a`, in the order the edges were added.
pub open spec fn in_sources(es: Seq<(usize, usize)>, a: usize) -> Seq<usize>
    decreases es.len(),
{
    if es.len() == 0 {
        Seq::empty()
    } else {
        let init = in_sources(es.drop_last(), a);
        if es.last().1 == a {
            init.push(es.last().0)
        } else {
            init
        }
    }
}

/// An empty directed graph, from `Graph::new`.
#[verifier::external_body]
pub(crate) fn graph_new() -> (g: petgraph::graph::Graph<usize, (), petgraph::Directed, u32>)
    ensures
        graph_nodes(g) == Seq::<usize>::empty(),
        graph_edges(g) == Seq::<(usize, usize)>::empty(),
{
    petgraph::graph::Graph::new()
}

/// Adds a node with a weight, with `Graph::add_node`: the node gets the next
/// index. Its source panics once the index type is exhausted, which the bound
/// rules out.
#[verifier::external_body]
pub(crate) fn graph_add_node(g: &mut petgraph::graph::Graph<usize, (), petgraph::Directed, u32>, weight: usize) -> (r:
    usize)
    requires
        graph_nodes(*old(g)).len() < u32::MAX,
    ensures
        r == graph_nodes(*old(g)).len(),
        graph_nodes(*final(g)) == graph_nodes(*old(g)).push(weight),
        graph_edges(*final(g)) == graph_edges(*old(g)),
{
    g.add_node(weight).index()
}

/// Adds an edge between two nodes, with `Graph::add_edge`. Its source panics on
/// a node that does not exist or once the index type is exhausted, which the
/// bounds rule out.
#[verifier::external_body]
pub(crate) fn graph_add_edge(g: &mut petgraph::graph::Graph<usize, (), petgraph::Directed, u32>, a: usize, b: usize)
    requires
        a < graph_nodes(*old(g)).len(),
        b < graph_nodes(*old(g)).len(),
        graph_edges(*old(g)).len() < u32::MAX,
    ensures
        graph_nodes(*final(g)) == graph_nodes(*old(g)),
        graph_edges(*final(g)) == graph_edges(*old(g)).push((a, b)),
{
    g.add_edge(petgraph::graph::NodeIndex::new(a), petgraph::graph::NodeIndex::new(b), ());
}

/// The neighbors of node `a` along the edges that leave it (`outgoing`) or enter
/// it, with `Graph::neighbors_directed`: its documentation lists them in reverse
/// order of the addition of the edges.
#[verifier::external_body]
pub(crate) fn graph_neighbors(g: &petgraph::graph::Graph<usize, (), petgraph::Directed, u32>, a: usize, outgoing: bool) -> (r:
    Vec<usize>)
    requires
        a < graph_nodes(*g).len(),
    ensures
        r@ == (if outgoing {
            out_targets(graph_edges(*g), a)
        } else {
            in_sources(graph_edges(*g), a)
        }).reverse(),
{
    let dir = if outgoing {
        petgraph::Direction::Outgoing
    } else {
        petgraph::Direction::Incoming
    };
    g.neighbors_directed(petgraph::graph::NodeIndex::new(a), dir).map(|n| n.index()).collect()
}

} // verus!
