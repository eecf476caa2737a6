//! The decode failure kinds: a decode either yields a complete, fully-typed
//! value or fails entirely with one of these reasons.
use vstd::prelude::*;

verus! {

/// Why decoding a response body failed.
#[derive(Debug, Clone, Copy, PartialEq, Eq, Structural, Hash)]
pub enum DecodeError {
    /// The body is not a well-formed JSON document.
    MalformedJson,
    /// A field with a required shape is absent.
    MissingField,
    /// A field is present but holds a value of the wrong shape.
    TypeMismatch,
    /// The numeric status code is outside the closed set of known codes.
    UnknownMessageCode,
    /// A timestamp text does not match the fixed pattern.
    MalformedTimestamp,
}

impl DecodeError {
    /// A short fixed description of the failure reason.
    pub fn describe(&self) -> &'static str {
        match self {
            DecodeError::MalformedJson => "malformed JSON document",
            DecodeError::MissingField => "missing required field",
            DecodeError::TypeMismatch => "field has the wrong type",
            DecodeError::UnknownMessageCode => "unknown message code",
            DecodeError::MalformedTimestamp => "malformed timestamp",
        }
    }
}

} // verus!
