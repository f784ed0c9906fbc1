//! The node interface of the simple scheduler: the names it uses and its errors.
use vstd::prelude::*;
pub use crate::core_node::{MethodName, NodeID, TopicName};

verus! {

/// What can go wrong when the simple scheduler routes a call.
#[derive(Debug)]
pub enum Error {
    /// No node is registered under the id.
    ComponentNotFound(NodeID),
    /// The node does not implement the operation.
    Unimplemented,
}

pub type Result<T> = std::result::Result<T, Error>;

} // verus!
