//! Why a scene file could not be read.

use vstd::prelude::*;

verus! {

/// serde_json's error of a document that could not be parsed.
#[verifier::external_type_specification]
#[verifier::external_body]
pub struct ExJsonError(serde_json::Error);

/// A scene file that could not be turned into a scene.
pub enum ParserError {
    /// A file extension that no loader reads.
    FileExtension,
    /// The document does not describe a scene.
    SceneCorrupted,
    /// The file is not a well-formed document of its format.
    FormatCorrupted { source: serde_json::Error },
    /// The file does not exist.
    FileNotFound,
    /// The file could not be read.
    Read { source: std::io::Error },
    /// Any other I/O failure.
    IO(std::io::Error),
}

impl From<std::io::Error> for ParserError {
    fn from(e: std::io::Error) -> (r: ParserError)
        ensures
            r == ParserError::IO(e),
    {
        ParserError::IO(e)
    }
}

impl vstd::std_specs::convert::FromSpecImpl<std::io::Error> for ParserError {
    open spec fn obeys_from_spec() -> bool {
        true
    }

    open spec fn from_spec(e: std::io::Error) -> ParserError {
        ParserError::IO(e)
    }
}

} // verus!
