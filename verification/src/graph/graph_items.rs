//! The items that a graph is made of.

pub mod edge;
pub mod node;
