//! What holds of a graph as nodes and edges are added to it.

use crate::edge::EdgeView;
use crate::graph::{is_first_named, none_named, GraphView};
use crate::node::NodeView;
use vstd::prelude::*;

verus! {

/// Adding nodes in two batches is adding both batches at once, the first before the
/// second: the graph then holds its own nodes, then the first batch, then the second, each
/// in order, and as many nodes as all three together. Edges and attributes stay.
pub proof fn lemma_with_nodes_twice(g: GraphView, first: Seq<NodeView>, second: Seq<NodeView>)
    ensures
        g.with_nodes(first).with_nodes(second) == g.with_nodes(first + second),
        g.with_nodes(first).with_nodes(second).nodes.len() == g.nodes.len() + first.len()
            + second.len(),
        forall|i: int|
            0 <= i < g.nodes.len() ==> g.with_nodes(first).with_nodes(second).nodes[i]
                == g.nodes[i],
        forall|i: int|
            0 <= i < first.len() ==> g.with_nodes(first).with_nodes(second).nodes[g.nodes.len()
                + i] == first[i],
        forall|i: int|
            0 <= i < second.len() ==> g.with_nodes(first).with_nodes(second).nodes[g.nodes.len()
                + first.len() + i] == second[i],
        g.with_nodes(first).with_nodes(second).edges == g.edges,
        g.with_nodes(first).with_nodes(second).attrs == g.attrs,
{
    assert((g.nodes + first) + second =~= g.nodes + (first + second));
}

/// Adding edges in two batches is adding both batches at once, the first before the
/// second: the graph then holds its own edges, then the first batch, then the second, each
/// in order, and as many edges as all three together. Nodes and attributes stay.
pub proof fn lemma_with_edges_twice(g: GraphView, first: Seq<EdgeView>, second: Seq<EdgeView>)
    ensures
        g.with_edges(first).with_edges(second) == g.with_edges(first + second),
        g.with_edges(first).with_edges(second).edges.len() == g.edges.len() + first.len()
            + second.len(),
        forall|i: int|
            0 <= i < g.edges.len() ==> g.with_edges(first).with_edges(second).edges[i]
                == g.edges[i],
        forall|i: int|
            0 <= i < first.len() ==> g.with_edges(first).with_edges(second).edges[g.edges.len()
                + i] == first[i],
        forall|i: int|
            0 <= i < second.len() ==> g.with_edges(first).with_edges(second).edges[g.edges.len()
                + first.len() + i] == second[i],
        g.with_edges(first).with_edges(second).nodes == g.nodes,
        g.with_edges(first).with_edges(second).attrs == g.attrs,
{
    assert((g.edges + first) + second =~= g.edges + (first + second));
}

/// Adding nodes and adding edges do not touch each other: either may come first.
pub proof fn lemma_nodes_edges_independent(
    g: GraphView,
    nodes: Seq<NodeView>,
    edges: Seq<EdgeView>,
)
    ensures
        g.with_nodes(nodes).with_edges(edges) == g.with_edges(edges).with_nodes(nodes),
{
}

/// Adding nodes moves no node: the first node of a name is still the first of that name,
/// at the same place.
pub proof fn lemma_found_node_stays(g: GraphView, added: Seq<NodeView>, name: Seq<char>, i: int)
    requires
        is_first_named(g.nodes, name, i),
    ensures
        is_first_named(g.with_nodes(added).nodes, name, i),
{
    assert((g.nodes + added).take(i) =~= g.nodes.take(i));
}

/// Where a graph holds no node of a name, the first such node among the added ones is the
/// first of the graph; where the added ones hold none either, the graph still holds none.
pub proof fn lemma_added_node_is_found(g: GraphView, added: Seq<NodeView>, name: Seq<char>)
    requires
        none_named(g.nodes, name),
    ensures
        forall|i: int|
            is_first_named(added, name, i) ==> is_first_named(
                g.with_nodes(added).nodes,
                name,
                g.nodes.len() + i,
            ),
        none_named(added, name) ==> none_named(g.with_nodes(added).nodes, name),
{
    let all = g.with_nodes(added).nodes;
    assert forall|i: int| is_first_named(added, name, i) implies is_first_named(
        all,
        name,
        g.nodes.len() + i,
    ) by {
        let before = all.take(g.nodes.len() + i);
        assert forall|j: int| 0 <= j < before.len() implies (#[trigger] before[j]).name
            != name by {
            if j < g.nodes.len() {
                assert(before[j] == g.nodes[j]);
            } else {
                assert(before[j] == added.take(i)[j - g.nodes.len()]);
            }
        }
    }
    if none_named(added, name) {
        assert forall|j: int| 0 <= j < all.len() implies (#[trigger] all[j]).name != name by {
            if j < g.nodes.len() {
                assert(all[j] == g.nodes[j]);
            } else {
                assert(all[j] == added[j - g.nodes.len()]);
            }
        }
    }
}

/// A graph without nodes holds no node of any name.
pub proof fn lemma_no_node_in_empty_graph(name: Seq<char>)
    ensures
        none_named(Seq::<NodeView>::empty(), name),
{
}

} // verus!
