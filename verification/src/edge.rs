//! Edges: two endpoint names and the attributes the connection carries.

use crate::attributes::{insert_all, Attributes, AttributesContainer};
use crate::text::{pair_texts, AttributeText};
use vstd::prelude::*;
use vstd::std_specs::cmp::PartialEqSpecImpl;

verus! {

/// A connection between the nodes named `a` and `b`, stored in that order.
///
/// The endpoints are names only: nothing says that a node of either name exists.
#[derive(Debug)]
pub struct Edge {
    pub a: String,
    pub b: String,
    pub attrs: Attributes,
}

/// What an edge holds: its two endpoints, in order, and its attributes.
pub ghost struct EdgeView {
    pub a: Seq<char>,
    pub b: Seq<char>,
    pub attrs: Map<Seq<char>, Seq<char>>,
}

impl View for Edge {
    type V = EdgeView;

    open spec fn view(&self) -> EdgeView {
        EdgeView { a: self.a@, b: self.b@, attrs: self.attrs@ }
    }
}

impl Edge {
    /// An edge from `a` to `b`, without attributes.
    pub fn new<A: AttributeText, B: AttributeText>(a: A, b: B) -> (edge: Self)
        ensures
            edge@ == (EdgeView { a: a.text(), b: b.text(), attrs: Map::empty() }),
    {
        Edge { a: a.into_text(), b: b.into_text(), attrs: Attributes::new() }
    }
}

impl AttributesContainer for Edge {
    open spec fn attributes(&self) -> Option<Map<Seq<char>, Seq<char>>> {
        Some(self.attrs@)
    }

    fn get_attr<T: AttributeText>(&self, name: T) -> (value: Option<&str>) {
        match self.attrs.get(name) {
            Some(v) => Some(v.as_str()),
            None => None,
        }
    }

    fn with_attrs<K: AttributeText, V: AttributeText>(self, attrs: &[(K, V)]) -> (entity: Self)
        ensures
            entity@ == (EdgeView { attrs: insert_all(self.attrs@, pair_texts(attrs@)), ..self@ }),
    {
        let mut entity = self;
        entity.attrs.extend(attrs);
        entity
    }
}

impl Clone for Edge {
    /// An edge of its own with the same endpoints and attributes.
    fn clone(&self) -> (copy: Self)
        ensures
            copy@ == self@,
    {
        Edge { a: self.a.clone(), b: self.b.clone(), attrs: self.attrs.clone() }
    }
}

impl PartialEqSpecImpl for Edge {
    open spec fn obeys_eq_spec() -> bool {
        true
    }

    /// Two edges are equal when their endpoints, position by position, and their
    /// attributes are.
    open spec fn eq_spec(&self, other: &Edge) -> bool {
        self@ == other@
    }
}

impl PartialEq for Edge {
    fn eq(&self, other: &Edge) -> (equal: bool) {
        self.a == other.a && self.b == other.b && self.attrs == other.attrs
    }
}

} // verus!
