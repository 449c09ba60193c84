//! The graph: nodes and edges in the order in which they were added, and attributes of
//! its own.

use crate::attributes::{insert_all, Attributes, AttributesContainer};
use crate::edge::{Edge, EdgeView};
use crate::node::{Node, NodeView};
use crate::text::{pair_texts, AttributeText};
use vstd::prelude::*;
use vstd::std_specs::cmp::PartialEqSpecImpl;

pub mod graph_items;
pub mod laws;

verus! {

/// An aggregate of nodes and edges. Both sequences only grow, at their end.
///
/// Nothing is checked between them: two nodes may share a name, and an edge may name a
/// node that the graph does not hold.
#[derive(Debug)]
pub struct Graph {
    pub nodes: Vec<Node>,
    pub edges: Vec<Edge>,
    pub attrs: Attributes,
}

/// What a graph holds: its nodes and its edges, each in order of addition, and its
/// attributes.
pub ghost struct GraphView {
    pub nodes: Seq<NodeView>,
    pub edges: Seq<EdgeView>,
    pub attrs: Map<Seq<char>, Seq<char>>,
}

impl GraphView {
    /// The graph with `added` after the nodes it holds.
    pub open spec fn with_nodes(self, added: Seq<NodeView>) -> GraphView {
        GraphView { nodes: self.nodes + added, ..self }
    }

    /// The graph with `added` after the edges it holds.
    pub open spec fn with_edges(self, added: Seq<EdgeView>) -> GraphView {
        GraphView { edges: self.edges + added, ..self }
    }
}

/// What each node of a sequence holds, in the same order.
pub open spec fn node_views(nodes: Seq<Node>) -> Seq<NodeView> {
    Seq::new(nodes.len(), |i: int| nodes[i]@)
}

/// What each edge of a sequence holds, in the same order.
pub open spec fn edge_views(edges: Seq<Edge>) -> Seq<EdgeView> {
    Seq::new(edges.len(), |i: int| edges[i]@)
}

/// Whether no node of the sequence has the given name.
pub open spec fn none_named(nodes: Seq<NodeView>, name: Seq<char>) -> bool {
    forall|j: int| 0 <= j < nodes.len() ==> (#[trigger] nodes[j]).name != name
}

/// Whether `i` is the place of the first node of the given name.
pub open spec fn is_first_named(nodes: Seq<NodeView>, name: Seq<char>, i: int) -> bool {
    &&& 0 <= i < nodes.len()
    &&& nodes[i].name == name
    &&& none_named(nodes.take(i), name)
}

impl View for Graph {
    type V = GraphView;

    open spec fn view(&self) -> GraphView {
        GraphView {
            nodes: node_views(self.nodes@),
            edges: edge_views(self.edges@),
            attrs: self.attrs@,
        }
    }
}

/// Appends a copy of each node of `src` to `dst`, in order.
fn append_nodes(dst: &mut Vec<Node>, src: &[Node])
    ensures
        node_views(final(dst)@) == node_views(old(dst)@) + node_views(src@),
{
    let ghost start = node_views(dst@);
    let mut i: usize = 0;
    while i < src.len()
        invariant
            i <= src.len(),
            node_views(dst@) == start + node_views(src@).take(i as int),
        decreases src.len() - i,
    {
        let ghost before = dst@;
        let copy = src[i].clone();
        dst.push(copy);
        proof {
            assert(node_views(dst@) =~= node_views(before).push(copy@));
            assert(node_views(src@).take(i + 1) =~= node_views(src@).take(i as int).push(
                src@[i as int]@,
            ));
            assert(node_views(dst@) =~= start + node_views(src@).take(i + 1));
        }
        i += 1;
    }
    proof {
        assert(node_views(src@).take(src.len() as int) =~= node_views(src@));
    }
}

/// Appends a copy of each edge of `src` to `dst`, in order.
fn append_edges(dst: &mut Vec<Edge>, src: &[Edge])
    ensures
        edge_views(final(dst)@) == edge_views(old(dst)@) + edge_views(src@),
{
    let ghost start = edge_views(dst@);
    let mut i: usize = 0;
    while i < src.len()
        invariant
            i <= src.len(),
            edge_views(dst@) == start + edge_views(src@).take(i as int),
        decreases src.len() - i,
    {
        let ghost before = dst@;
        let copy = src[i].clone();
        dst.push(copy);
        proof {
            assert(edge_views(dst@) =~= edge_views(before).push(copy@));
            assert(edge_views(src@).take(i + 1) =~= edge_views(src@).take(i as int).push(
                src@[i as int]@,
            ));
            assert(edge_views(dst@) =~= start + edge_views(src@).take(i + 1));
        }
        i += 1;
    }
    proof {
        assert(edge_views(src@).take(src.len() as int) =~= edge_views(src@));
    }
}

impl Graph {
    /// A graph without nodes, edges or attributes.
    pub fn new() -> (graph: Self)
        ensures
            graph@ == (GraphView { nodes: Seq::empty(), edges: Seq::empty(), attrs: Map::empty() }),
    {
        let graph = Graph { nodes: Vec::new(), edges: Vec::new(), attrs: Attributes::new() };
        proof {
            assert(node_views(graph.nodes@) =~= Seq::empty());
            assert(edge_views(graph.edges@) =~= Seq::empty());
        }
        graph
    }

    /// The graph with a copy of each of `nodes` added after the nodes it holds, in order.
    pub fn with_nodes(self, nodes: &[Node]) -> (graph: Self)
        ensures
            graph@ == self@.with_nodes(node_views(nodes@)),
    {
        let mut graph = self;
        append_nodes(&mut graph.nodes, nodes);
        graph
    }

    /// The graph with a copy of each of `edges` added after the edges it holds, in order.
    pub fn with_edges(self, edges: &[Edge]) -> (graph: Self)
        ensures
            graph@ == self@.with_edges(edge_views(edges@)),
    {
        let mut graph = self;
        append_edges(&mut graph.edges, edges);
        graph
    }

    /// The first node of the given name, in order of addition, or `None` where no node has
    /// that name.
    pub fn get_node<T: AttributeText>(&self, name: T) -> (found: Option<&Node>)
        ensures
            match found {
                Some(node) => exists|i: int|
                    is_first_named(self@.nodes, name.text(), i) && *node == self.nodes[i],
                None => none_named(self@.nodes, name.text()),
            },
    {
        let key = name.to_text();
        let mut i: usize = 0;
        while i < self.nodes.len()
            invariant
                i <= self.nodes.len(),
                key@ == name.text(),
                none_named(self@.nodes.take(i as int), name.text()),
            decreases self.nodes.len() - i,
        {
            if self.nodes[i].name == key {
                proof {
                    assert(is_first_named(self@.nodes, name.text(), i as int));
                }
                return Some(&self.nodes[i]);
            }
            proof {
                let seen = self@.nodes.take(i + 1);
                assert forall|j: int| 0 <= j < seen.len() implies (#[trigger] seen[j]).name
                    != name.text() by {
                    if j < i {
                        assert(self@.nodes.take(i as int)[j] == seen[j]);
                    }
                }
            }
            i += 1;
        }
        proof {
            assert(self@.nodes.take(self.nodes.len() as int) =~= self@.nodes);
        }
        None
    }
}

impl AttributesContainer for Graph {
    open spec fn attributes(&self) -> Option<Map<Seq<char>, Seq<char>>> {
        Some(self.attrs@)
    }

    fn get_attr<T: AttributeText>(&self, name: T) -> (value: Option<&str>) {
        match self.attrs.get(name) {
            Some(v) => Some(v.as_str()),
            None => None,
        }
    }

    fn with_attrs<K: AttributeText, V: AttributeText>(self, attrs: &[(K, V)]) -> (entity: Self)
        ensures
            entity@ == (GraphView { attrs: insert_all(self.attrs@, pair_texts(attrs@)), ..self@ }),
    {
        let mut entity = self;
        entity.attrs.extend(attrs);
        entity
    }
}

impl Clone for Graph {
    /// A graph of its own with the same nodes, edges and attributes.
    fn clone(&self) -> (copy: Self)
        ensures
            copy@ == self@,
    {
        let mut nodes: Vec<Node> = Vec::new();
        let mut edges: Vec<Edge> = Vec::new();
        append_nodes(&mut nodes, self.nodes.as_slice());
        append_edges(&mut edges, self.edges.as_slice());
        proof {
            assert(node_views(nodes@) =~= node_views(self.nodes@));
            assert(edge_views(edges@) =~= edge_views(self.edges@));
        }
        Graph { nodes, edges, attrs: self.attrs.clone() }
    }
}

impl PartialEqSpecImpl for Graph {
    open spec fn obeys_eq_spec() -> bool {
        true
    }

    /// Two graphs are equal when they hold equal nodes and equal edges, place by place, and
    /// equal attributes.
    open spec fn eq_spec(&self, other: &Graph) -> bool {
        self@ == other@
    }
}

/// Whether two sequences of nodes hold equal nodes, place by place.
fn same_nodes(left: &Vec<Node>, right: &Vec<Node>) -> (same: bool)
    ensures
        same == (node_views(left@) == node_views(right@)),
{
    if left.len() != right.len() {
        proof {
            assert(node_views(left@).len() != node_views(right@).len());
        }
        return false;
    }
    let mut i: usize = 0;
    while i < left.len()
        invariant
            i <= left.len(),
            left.len() == right.len(),
            forall|j: int| 0 <= j < i ==> (#[trigger] left[j])@ == right[j]@,
        decreases left.len() - i,
    {
        if !(left[i] == right[i]) {
            proof {
                assert(node_views(left@)[i as int] != node_views(right@)[i as int]);
            }
            return false;
        }
        i += 1;
    }
    proof {
        assert(node_views(left@) =~= node_views(right@));
    }
    true
}

/// Whether two sequences of edges hold equal edges, place by place.
fn same_edges(left: &Vec<Edge>, right: &Vec<Edge>) -> (same: bool)
    ensures
        same == (edge_views(left@) == edge_views(right@)),
{
    if left.len() != right.len() {
        proof {
            assert(edge_views(left@).len() != edge_views(right@).len());
        }
        return false;
    }
    let mut i: usize = 0;
    while i < left.len()
        invariant
            i <= left.len(),
            left.len() == right.len(),
            forall|j: int| 0 <= j < i ==> (#[trigger] left[j])@ == right[j]@,
        decreases left.len() - i,
    {
        if !(left[i] == right[i]) {
            proof {
                assert(edge_views(left@)[i as int] != edge_views(right@)[i as int]);
            }
            return false;
        }
        i += 1;
    }
    proof {
        assert(edge_views(left@) =~= edge_views(right@));
    }
    true
}

impl PartialEq for Graph {
    fn eq(&self, other: &Graph) -> (equal: bool) {
        same_nodes(&self.nodes, &other.nodes) && same_edges(&self.edges, &other.edges)
            && self.attrs == other.attrs
    }
}

} // verus!
