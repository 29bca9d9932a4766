//! Arithmetic computation graphs with hint nodes.
//!
//! A graph is built node by node, filled with concrete values for one chosen
//! input, and then validated: every computed node must agree with its
//! operation applied to its operands, and every hint (a value supplied from
//! outside the algebra) must agree with the node it is linked to.

pub mod builder;
pub mod error;
pub mod laws;
pub mod model;
pub mod node;

pub use builder::Builder;
pub use error::GraphError;
pub use node::{Node, OPERATION};
