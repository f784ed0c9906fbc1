//! The names and errors of the component interface.
use vstd::prelude::*;
use crate::registry::Named;

verus! {

/// The kind of a component; one component of each kind is registered.
#[derive(Debug, Hash, PartialEq, Eq)]
pub struct ComponentType(String);

impl View for ComponentType {
    type V = Seq<char>;

    closed spec fn view(&self) -> Seq<char> {
        self.0@
    }
}

impl Clone for ComponentType {
    fn clone(&self) -> (c: Self)
        ensures
            c == *self,
    {
        ComponentType(self.0.clone())
    }
}

impl Named for ComponentType {
    open spec fn name(&self) -> Seq<char> {
        self@
    }

    fn same_name(&self, other: &Self) -> (same: bool) {
        self.0 == other.0
    }

    fn copy_name(&self) -> (copy: Self) {
        self.clone()
    }
}

/// What can go wrong when a component is called.
#[derive(Debug)]
pub enum Error {
    /// The component does not implement the operation.
    Unimplemented,
    /// No component of the type is registered.
    ComponentNotFound(ComponentType),
}

pub type Result<T> = std::result::Result<T, Error>;

/// The name of a topic that components broadcast on.
pub struct Topic(String);

} // verus!
