pub mod scan;
pub mod json;
pub mod trusted;
pub mod doc;
pub mod multipart;
pub mod extract;
pub mod dispatch;
pub mod laws;

use vstd::prelude::*;

verus! {

/// A failure of request extraction. All but the last are client mistakes;
/// `Deserialization` stands where an otherwise well-formed body fails to
/// decode as an operation document.
#[derive(Clone, Copy, PartialEq, Eq, Structural, Debug)]
pub enum ExtractError {
    EmptyBody,
    MissingQuery,
    MissingContentType,
    InvalidData,
    MethodNotAllowed,
    Deserialization,
}

impl ExtractError {
    /// The message carried by the client-facing error envelope.
    pub fn message(&self) -> (r: &'static str)
        ensures
            r@ == self.message_spec(),
    {
        match self {
            ExtractError::EmptyBody => "Empty body",
            ExtractError::MissingQuery => "Missing query",
            ExtractError::MissingContentType => "Missing content type",
            ExtractError::InvalidData => "Invalid data",
            ExtractError::MethodNotAllowed => "Method not allowed",
            ExtractError::Deserialization => "Failed to deserialize the request body",
        }
    }

    pub open spec fn message_spec(&self) -> Seq<char> {
        match self {
            ExtractError::EmptyBody => "Empty body"@,
            ExtractError::MissingQuery => "Missing query"@,
            ExtractError::MissingContentType => "Missing content type"@,
            ExtractError::InvalidData => "Invalid data"@,
            ExtractError::MethodNotAllowed => "Method not allowed"@,
            ExtractError::Deserialization => "Failed to deserialize the request body"@,
        }
    }
}

} // verus!
