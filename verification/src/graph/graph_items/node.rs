pub use crate::node::Node;
