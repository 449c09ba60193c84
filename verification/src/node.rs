//! Nodes: a name and the attributes it carries.

use crate::attributes::{insert_all, Attributes, AttributesContainer};
use crate::text::{pair_texts, AttributeText};
use vstd::prelude::*;
use vstd::std_specs::cmp::PartialEqSpecImpl;

verus! {

/// A node of a graph. Its name is its identity within the graph.
#[derive(Debug)]
pub struct Node {
    pub name: String,
    pub attrs: Attributes,
}

/// What a node holds: its name and its attributes.
pub ghost struct NodeView {
    pub name: Seq<char>,
    pub attrs: Map<Seq<char>, Seq<char>>,
}

impl View for Node {
    type V = NodeView;

    open spec fn view(&self) -> NodeView {
        NodeView { name: self.name@, attrs: self.attrs@ }
    }
}

impl Node {
    /// A node of the given name, without attributes.
    pub fn new(name: &str) -> (node: Self)
        ensures
            node@ == (NodeView { name: name@, attrs: Map::empty() }),
    {
        Node { name: name.to_owned(), attrs: Attributes::new() }
    }
}

impl AttributesContainer for Node {
    open spec fn attributes(&self) -> Option<Map<Seq<char>, Seq<char>>> {
        Some(self.attrs@)
    }

    fn get_attr<T: AttributeText>(&self, name: T) -> (value: Option<&str>) {
        match self.attrs.get(name) {
            Some(v) => Some(v.as_str()),
            None => None,
        }
    }

    fn with_attrs<K: AttributeText, V: AttributeText>(self, attrs: &[(K, V)]) -> (entity: Self)
        ensures
            entity@ == (NodeView { attrs: insert_all(self.attrs@, pair_texts(attrs@)), ..self@ }),
    {
        let mut entity = self;
        entity.attrs.extend(attrs);
        entity
    }
}

impl Clone for Node {
    /// A node of its own with the same name and attributes.
    fn clone(&self) -> (copy: Self)
        ensures
            copy@ == self@,
    {
        Node { name: self.name.clone(), attrs: self.attrs.clone() }
    }
}

impl PartialEqSpecImpl for Node {
    open spec fn obeys_eq_spec() -> bool {
        true
    }

    /// Two nodes are equal when their names and their attributes are.
    open spec fn eq_spec(&self, other: &Node) -> bool {
        self@ == other@
    }
}

impl PartialEq for Node {
    fn eq(&self, other: &Node) -> (equal: bool) {
        self.name == other.name && self.attrs == other.attrs
    }
}

} // verus!
