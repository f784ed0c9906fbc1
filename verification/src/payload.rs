//! Payloads as they travel between nodes: the encoded bytes, how they were encoded,
//! and the name of the type they encode.
use vstd::prelude::*;
use crate::name_rule::{check_name, is_valid_name};

verus! {

/// What can go wrong with a payload.
#[derive(Debug)]
pub enum Error {
    /// The payload type name does not match the name pattern.
    InvalidPayloadType(String),
    /// A payload of one type was read as another.
    PayloadTypeNotMatch { expected: PayloadType, found: PayloadType },
    /// bincode could not encode or decode the value.
    BincodeError(bincode::Error),
    /// serde_json could not encode or decode the value.
    JsonError(serde_json::Error),
}

pub type Result<T> = std::result::Result<T, Error>;

/// How the bytes of a payload were produced.
#[derive(Debug, Clone, Copy, PartialEq, Eq, Structural)]
pub enum EncodeType {
    /// bincode, the compact binary format.
    Bincode,
    /// JSON text.
    Json,
}

/// The name of the type that a payload holds.
#[derive(Debug, PartialEq)]
pub struct PayloadType(String);

impl View for PayloadType {
    type V = Seq<char>;

    closed spec fn view(&self) -> Seq<char> {
        self.0@
    }
}

impl PayloadType {
    /// Every value holds a name that matches the name pattern: `try_from` is the only
    /// way to make one.
    #[verifier::type_invariant]
    closed spec fn holds_valid_name(self) -> bool {
        is_valid_name(self.0@)
    }
}

impl Clone for PayloadType {
    fn clone(&self) -> (c: Self)
        ensures
            c == *self,
    {
        proof {
            use_type_invariant(self);
        }
        PayloadType(self.0.clone())
    }
}

impl PayloadType {
    /// The name, as text; it matches the name pattern.
    pub fn to_string(&self) -> (s: String)
        ensures
            s@ == self@,
            is_valid_name(s@),
    {
        proof {
            use_type_invariant(self);
        }
        self.0.clone()
    }

    /// Whether the two payload types have the same name.
    pub fn same_as(&self, other: &PayloadType) -> (same: bool)
        ensures
            same == (self@ == other@),
    {
        self.0 == other.0
    }
}

impl TryFrom<String> for PayloadType {
    type Error = Error;

    /// A payload type of the given name, when the name matches the name pattern.
    fn try_from(value: String) -> (r: Result<Self>)
        ensures
            is_valid_name(value@) ==> (r matches Ok(t) && t@ == value@),
            !is_valid_name(value@) ==> r == Err::<Self, Error>(Error::InvalidPayloadType(value)),
    {
        if check_name(value.as_str()) {
            Ok(PayloadType(value))
        } else {
            Err(Error::InvalidPayloadType(value))
        }
    }
}

impl vstd::std_specs::convert::TryFromSpecImpl<String> for PayloadType {
    open spec fn obeys_try_from_spec() -> bool {
        true
    }

    closed spec fn try_from_spec(value: String) -> Result<Self> {
        if is_valid_name(value@) {
            Ok(PayloadType(value))
        } else {
            Err(Error::InvalidPayloadType(value))
        }
    }
}

impl From<PayloadType> for String {
    /// The name of the payload type.
    fn from(val: PayloadType) -> (s: String)
        ensures
            s@ == val@,
            is_valid_name(s@),
    {
        proof {
            use_type_invariant(&val);
        }
        val.0
    }
}

impl vstd::std_specs::convert::FromSpecImpl<PayloadType> for String {
    open spec fn obeys_from_spec() -> bool {
        true
    }

    closed spec fn from_spec(val: PayloadType) -> String {
        val.0
    }
}

/// Whether a payload holds the type `expected`: their names are equal.
pub open spec fn payload_type_matches(p: RawPayload, expected: PayloadType) -> bool {
    p.spec_payload_type()@ == expected@
}

/// A payload matches a type exactly when the two type names are equal: two different
/// names never match, however one begins or ends.
pub proof fn lemma_payload_type_matches(p: RawPayload, expected: PayloadType)
    ensures
        payload_type_matches(p, expected) <==> p.spec_payload_type()@ == expected@,
        p.spec_payload_type()@.len() != expected@.len() ==> !payload_type_matches(p, expected),
        (exists|i: int| 0 <= i < expected@.len() && i < p.spec_payload_type()@.len()
            && p.spec_payload_type()@[i] != expected@[i]) ==> !payload_type_matches(p, expected),
{
}

/// A payload built for a type passes the check for that type, whatever its bytes and
/// their encoding.
pub proof fn lemma_built_payload_matches(encode_type: EncodeType, payload_type: PayloadType, bytes: Vec<u8>, p: RawPayload)
    requires
        p.spec_encode_type() == encode_type,
        p.spec_payload_type() == payload_type,
        p.spec_raw() == bytes@,
    ensures
        payload_type_matches(p, payload_type),
{
}

/// A valid name survives the way into a payload type and back to text; an invalid one
/// is refused.
pub proof fn lemma_payload_type_round_trip(value: String)
    ensures
        is_valid_name(value@) ==> (<PayloadType as vstd::std_specs::convert::TryFromSpec<String>>::try_from_spec(value) matches Ok(t)
            && <String as vstd::std_specs::convert::FromSpec<PayloadType>>::from_spec(t)@ == value@),
        !is_valid_name(value@) ==> <PayloadType as vstd::std_specs::convert::TryFromSpec<String>>::try_from_spec(value) is Err,
{
}

/// A payload: bytes encoded one way, together with the name of the type they hold.
#[derive(Debug)]
pub struct RawPayload {
    encode_type: EncodeType,
    payload_type: PayloadType,
    raw: Vec<u8>,
}

impl Clone for RawPayload {
    fn clone(&self) -> (c: Self)
        ensures
            c.spec_encode_type() == self.spec_encode_type(),
            c.spec_payload_type() == self.spec_payload_type(),
            c.spec_raw() == self.spec_raw(),
    {
        let raw = self.raw.clone();
        assert(raw@ =~= self.raw@);
        RawPayload { encode_type: self.encode_type, payload_type: self.payload_type.clone(), raw }
    }
}

impl RawPayload {
    /// How the bytes were encoded.
    pub closed spec fn spec_encode_type(&self) -> EncodeType {
        self.encode_type
    }

    /// The type the bytes hold.
    pub closed spec fn spec_payload_type(&self) -> PayloadType {
        self.payload_type
    }

    /// The encoded bytes.
    pub closed spec fn spec_raw(&self) -> Seq<u8> {
        self.raw@
    }

    /// A payload made of its three parts.
    pub fn new(encode_type: EncodeType, payload_type: PayloadType, raw: Vec<u8>) -> (r: RawPayload)
        ensures
            r.spec_encode_type() == encode_type,
            r.spec_payload_type() == payload_type,
            r.spec_raw() == raw@,
    {
        RawPayload { encode_type, payload_type, raw }
    }

    /// How the bytes were encoded.
    pub fn encode_type(&self) -> (e: EncodeType)
        ensures
            e == self.spec_encode_type(),
    {
        self.encode_type
    }

    /// The type the bytes hold.
    pub fn payload_type(&self) -> (t: &PayloadType)
        ensures
            *t == self.spec_payload_type(),
    {
        &self.payload_type
    }

    /// The encoded bytes.
    pub fn raw(&self) -> (b: &[u8])
        ensures
            b@ == self.spec_raw(),
    {
        self.raw.as_slice()
    }

    /// The payload that an encoding produced: the encoding's error where it failed,
    /// else the bytes with how they were encoded and the type they hold.
    pub fn from_encoded(encode_type: EncodeType, payload_type: PayloadType, encoded: Result<Vec<u8>>) -> (r:
        Result<RawPayload>)
        ensures
            match encoded {
                Ok(bytes) => (r matches Ok(p) && p.spec_encode_type() == encode_type
                    && p.spec_payload_type() == payload_type && p.spec_raw() == bytes@),
                Err(e) => r == Err::<RawPayload, Error>(e),
            },
    {
        match encoded {
            Ok(raw) => Ok(RawPayload { encode_type, payload_type, raw }),
            Err(e) => Err(e),
        }
    }

    /// Checks that the payload holds the type `expected` before its bytes are decoded
    /// as one: otherwise the error names both types.
    pub fn check_payload_type(&self, expected: &PayloadType) -> (r: Result<()>)
        ensures
            r is Ok <==> self.spec_payload_type()@ == expected@,
            payload_type_matches(*self, *expected) ==> r is Ok,
            !payload_type_matches(*self, *expected) ==> r == Err::<(), Error>(
                Error::PayloadTypeNotMatch { expected: *expected, found: self.spec_payload_type() },
            ),
    {
        if self.payload_type.same_as(expected) {
            Ok(())
        } else {
            Err(Error::PayloadTypeNotMatch { expected: expected.clone(), found: self.payload_type.clone() })
        }
    }
}

} // verus!
