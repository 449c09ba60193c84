//! An in-memory graph data model: nodes, edges and a graph that aggregates both,
//! each carrying an open-ended set of string attributes.
//!
//! - [`text`]: the string-like values that name and fill attributes.
//! - [`attributes`]: the attribute store, what it means to write attributes one after
//!   the other, and the capability of carrying attributes.
//! - [`node`], [`edge`], [`graph`]: the three entities. Each embeds one attribute store
//!   and forwards the capability to it; the graph holds its nodes and edges in order of
//!   addition.
//! - [`derive`]: which field of a declared type is its attribute store.
//!
//! Contracts speak of what a value holds: an attribute store is a finite map from names
//! to values, both sequences of characters, and an entity is its name or endpoints
//! together with that map.

pub mod attributes;
pub mod derive;
pub mod edge;
pub mod graph;
pub mod node;
pub mod text;
