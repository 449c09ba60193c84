pub use crate::edge::Edge;
