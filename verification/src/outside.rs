//! Types of outside crates that the library carries without looking inside.
use vstd::prelude::*;
use serde_json::Error as JsonFailure;

verus! {

/// What bincode reports when it cannot encode or decode a value.
#[verifier::external_type_specification]
#[verifier::external_body]
pub struct ExBincodeErrorKind(bincode::ErrorKind);

/// What serde_json reports when it cannot encode or decode a value.
#[verifier::external_type_specification]
#[verifier::external_body]
pub struct ExJsonError(JsonFailure);

/// A universally unique identifier.
#[verifier::external_type_specification]
#[verifier::external_body]
pub struct ExUuid(uuid::Uuid);

} // verus!
