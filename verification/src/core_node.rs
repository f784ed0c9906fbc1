//! The names that nodes are known by, the errors of the node interface, and the
//! identifiers of asynchronous calls.
use vstd::prelude::*;
use crate::name_rule::{check_name, is_valid_name};
use crate::payload;
use crate::registry::Named;

verus! {

/// The identifier of a node.
#[derive(Debug, Hash, PartialEq, Eq)]
pub struct NodeID(String);

impl View for NodeID {
    type V = Seq<char>;

    closed spec fn view(&self) -> Seq<char> {
        self.0@
    }
}

impl NodeID {
    /// Every value holds a name that matches the name pattern: `try_from` is the only
    /// way to make one.
    #[verifier::type_invariant]
    closed spec fn holds_valid_name(self) -> bool {
        is_valid_name(self.0@)
    }
}

impl Clone for NodeID {
    fn clone(&self) -> (c: Self)
        ensures
            c == *self,
    {
        proof {
            use_type_invariant(self);
        }
        NodeID(self.0.clone())
    }
}

impl NodeID {
    /// The name, as text; it matches the name pattern.
    pub fn to_string(&self) -> (s: String)
        ensures
            s@ == self@,
            is_valid_name(s@),
    {
        proof {
            use_type_invariant(self);
        }
        self.0.clone()
    }
}

impl Named for NodeID {
    open spec fn name(&self) -> Seq<char> {
        self@
    }

    fn same_name(&self, other: &Self) -> (same: bool) {
        self.0 == other.0
    }

    fn copy_name(&self) -> (copy: Self) {
        self.clone()
    }
}

impl TryFrom<String> for NodeID {
    type Error = Error;

    /// A node id with the given text, when it matches the name pattern.
    fn try_from(value: String) -> (r: Result<Self>)
        ensures
            is_valid_name(value@) ==> (r matches Ok(n) && n@ == value@),
            !is_valid_name(value@) ==> r == Err::<Self, Error>(Error::InvalidNodeID(value)),
    {
        if check_name(value.as_str()) {
            Ok(NodeID(value))
        } else {
            Err(Error::InvalidNodeID(value))
        }
    }
}

impl vstd::std_specs::convert::TryFromSpecImpl<String> for NodeID {
    open spec fn obeys_try_from_spec() -> bool {
        true
    }

    closed spec fn try_from_spec(value: String) -> Result<Self> {
        if is_valid_name(value@) {
            Ok(NodeID(value))
        } else {
            Err(Error::InvalidNodeID(value))
        }
    }
}

impl From<NodeID> for String {
    /// The text of the name.
    fn from(val: NodeID) -> (s: String)
        ensures
            s@ == val@,
            is_valid_name(s@),
    {
        proof {
            use_type_invariant(&val);
        }
        val.0
    }
}

impl vstd::std_specs::convert::FromSpecImpl<NodeID> for String {
    open spec fn obeys_from_spec() -> bool {
        true
    }

    closed spec fn from_spec(val: NodeID) -> String {
        val.0
    }
}

/// The name of a method that a node serves.
#[derive(Debug, Hash, PartialEq, Eq)]
pub struct MethodName(String);

impl View for MethodName {
    type V = Seq<char>;

    closed spec fn view(&self) -> Seq<char> {
        self.0@
    }
}

impl MethodName {
    /// Every value holds a name that matches the name pattern: `try_from` is the only
    /// way to make one.
    #[verifier::type_invariant]
    closed spec fn holds_valid_name(self) -> bool {
        is_valid_name(self.0@)
    }
}

impl Clone for MethodName {
    fn clone(&self) -> (c: Self)
        ensures
            c == *self,
    {
        proof {
            use_type_invariant(self);
        }
        MethodName(self.0.clone())
    }
}

impl MethodName {
    /// The name, as text; it matches the name pattern.
    pub fn to_string(&self) -> (s: String)
        ensures
            s@ == self@,
            is_valid_name(s@),
    {
        proof {
            use_type_invariant(self);
        }
        self.0.clone()
    }
}

impl Named for MethodName {
    open spec fn name(&self) -> Seq<char> {
        self@
    }

    fn same_name(&self, other: &Self) -> (same: bool) {
        self.0 == other.0
    }

    fn copy_name(&self) -> (copy: Self) {
        self.clone()
    }
}

impl TryFrom<String> for MethodName {
    type Error = Error;

    /// A method name with the given text, when it matches the name pattern.
    fn try_from(value: String) -> (r: Result<Self>)
        ensures
            is_valid_name(value@) ==> (r matches Ok(n) && n@ == value@),
            !is_valid_name(value@) ==> r == Err::<Self, Error>(Error::InvalidMethodName(value)),
    {
        if check_name(value.as_str()) {
            Ok(MethodName(value))
        } else {
            Err(Error::InvalidMethodName(value))
        }
    }
}

impl vstd::std_specs::convert::TryFromSpecImpl<String> for MethodName {
    open spec fn obeys_try_from_spec() -> bool {
        true
    }

    closed spec fn try_from_spec(value: String) -> Result<Self> {
        if is_valid_name(value@) {
            Ok(MethodName(value))
        } else {
            Err(Error::InvalidMethodName(value))
        }
    }
}

impl From<MethodName> for String {
    /// The text of the name.
    fn from(val: MethodName) -> (s: String)
        ensures
            s@ == val@,
            is_valid_name(s@),
    {
        proof {
            use_type_invariant(&val);
        }
        val.0
    }
}

impl vstd::std_specs::convert::FromSpecImpl<MethodName> for String {
    open spec fn obeys_from_spec() -> bool {
        true
    }

    closed spec fn from_spec(val: MethodName) -> String {
        val.0
    }
}

/// The name of a topic that nodes broadcast on and subscribe to.
#[derive(Debug, Hash, PartialEq, Eq)]
pub struct TopicName(String);

impl View for TopicName {
    type V = Seq<char>;

    closed spec fn view(&self) -> Seq<char> {
        self.0@
    }
}

impl TopicName {
    /// Every value holds a name that matches the name pattern: `try_from` is the only
    /// way to make one.
    #[verifier::type_invariant]
    closed spec fn holds_valid_name(self) -> bool {
        is_valid_name(self.0@)
    }
}

impl Clone for TopicName {
    fn clone(&self) -> (c: Self)
        ensures
            c == *self,
    {
        proof {
            use_type_invariant(self);
        }
        TopicName(self.0.clone())
    }
}

impl TopicName {
    /// The name, as text; it matches the name pattern.
    pub fn to_string(&self) -> (s: String)
        ensures
            s@ == self@,
            is_valid_name(s@),
    {
        proof {
            use_type_invariant(self);
        }
        self.0.clone()
    }
}

impl Named for TopicName {
    open spec fn name(&self) -> Seq<char> {
        self@
    }

    fn same_name(&self, other: &Self) -> (same: bool) {
        self.0 == other.0
    }

    fn copy_name(&self) -> (copy: Self) {
        self.clone()
    }
}

impl TryFrom<String> for TopicName {
    type Error = Error;

    /// A topic name with the given text, when it matches the name pattern.
    fn try_from(value: String) -> (r: Result<Self>)
        ensures
            is_valid_name(value@) ==> (r matches Ok(n) && n@ == value@),
            !is_valid_name(value@) ==> r == Err::<Self, Error>(Error::InvalidTopicName(value)),
    {
        if check_name(value.as_str()) {
            Ok(TopicName(value))
        } else {
            Err(Error::InvalidTopicName(value))
        }
    }
}

impl vstd::std_specs::convert::TryFromSpecImpl<String> for TopicName {
    open spec fn obeys_try_from_spec() -> bool {
        true
    }

    closed spec fn try_from_spec(value: String) -> Result<Self> {
        if is_valid_name(value@) {
            Ok(TopicName(value))
        } else {
            Err(Error::InvalidTopicName(value))
        }
    }
}

impl From<TopicName> for String {
    /// The text of the name.
    fn from(val: TopicName) -> (s: String)
        ensures
            s@ == val@,
            is_valid_name(s@),
    {
        proof {
            use_type_invariant(&val);
        }
        val.0
    }
}

impl vstd::std_specs::convert::FromSpecImpl<TopicName> for String {
    open spec fn obeys_from_spec() -> bool {
        true
    }

    closed spec fn from_spec(val: TopicName) -> String {
        val.0
    }
}

/// A valid name survives the way into a node id, a method name or a topic name and
/// back to text; an invalid one is refused by each.
pub proof fn lemma_name_round_trip(value: String)
    ensures
        is_valid_name(value@) ==> {
            &&& <NodeID as vstd::std_specs::convert::TryFromSpec<String>>::try_from_spec(value) matches Ok(id)
                && <String as vstd::std_specs::convert::FromSpec<NodeID>>::from_spec(id)@ == value@
            &&& <MethodName as vstd::std_specs::convert::TryFromSpec<String>>::try_from_spec(value) matches Ok(m)
                && <String as vstd::std_specs::convert::FromSpec<MethodName>>::from_spec(m)@ == value@
            &&& <TopicName as vstd::std_specs::convert::TryFromSpec<String>>::try_from_spec(value) matches Ok(t)
                && <String as vstd::std_specs::convert::FromSpec<TopicName>>::from_spec(t)@ == value@
        },
        !is_valid_name(value@) ==> {
            &&& <NodeID as vstd::std_specs::convert::TryFromSpec<String>>::try_from_spec(value) is Err
            &&& <MethodName as vstd::std_specs::convert::TryFromSpec<String>>::try_from_spec(value) is Err
            &&& <TopicName as vstd::std_specs::convert::TryFromSpec<String>>::try_from_spec(value) is Err
        },
{
}

/// What can go wrong when nodes talk to each other.
#[derive(Debug)]
pub enum Error {
    /// The node id does not match the name pattern.
    InvalidNodeID(String),
    /// The method name does not match the name pattern.
    InvalidMethodName(String),
    /// The topic name does not match the name pattern.
    InvalidTopicName(String),
    /// No node is registered under the id.
    NodeNotFound(NodeID),
    /// The node does not implement the operation.
    UnimplementedOperation,
    /// A payload could not be built or read.
    PayloadError(payload::Error),
    /// A future could not be spawned.
    SpawnError,
}

pub type Result<T> = std::result::Result<T, Error>;

impl From<payload::Error> for Error {
    /// A payload error, as an error of the node interface.
    fn from(err: payload::Error) -> (e: Error)
        ensures
            e == Error::PayloadError(err),
    {
        Error::PayloadError(err)
    }
}

impl vstd::std_specs::convert::FromSpecImpl<payload::Error> for Error {
    open spec fn obeys_from_spec() -> bool {
        true
    }

    open spec fn from_spec(err: payload::Error) -> Error {
        Error::PayloadError(err)
    }
}

/// The identifier of one asynchronous call.
#[derive(Debug, Hash, PartialEq, Eq, Clone, Copy)]
pub struct AsyncCallID(pub uuid::Uuid);

} // verus!
