//! The error type shared by the whole library.
use vstd::prelude::*;
use crate::text::owned;

verus! {

broadcast use vstd::string::group_string_axioms;

/// What can go wrong while syncing, storing or querying items.
#[derive(Debug, Clone, PartialEq, Eq)]
pub enum PaiError {
    /// A source kind name that is none of the supported kinds.
    UnknownSourceKind(String),
    /// A bad filter or query parameter, such as a zero limit.
    InvalidArgument(String),
    /// The store failed.
    Storage(String),
    /// A source could not be reached, or answered with a failure status.
    Fetch(String),
    /// A response does not have the expected format.
    Parse(String),
    /// The configuration is missing or malformed.
    Config(String),
    /// Reading or writing a file or stream failed.
    Io(String),
}

impl PaiError {
    /// The message that describes the error: a prefix naming its kind, then its detail.
    pub open spec fn text(&self) -> Seq<char> {
        match self {
            PaiError::UnknownSourceKind(s) => "Unknown source kind: "@ + s@,
            PaiError::InvalidArgument(s) => "Invalid argument: "@ + s@,
            PaiError::Storage(s) => "Storage error: "@ + s@,
            PaiError::Fetch(s) => "Fetch error: "@ + s@,
            PaiError::Parse(s) => "Parse error: "@ + s@,
            PaiError::Config(s) => "Configuration error: "@ + s@,
            PaiError::Io(s) => "IO error: "@ + s@,
        }
    }

    /// The message that describes the error.
    pub fn to_string(&self) -> (r: String)
        ensures
            r@ == self.text(),
    {
        let (prefix, detail) = match self {
            PaiError::UnknownSourceKind(s) => ("Unknown source kind: ", s),
            PaiError::InvalidArgument(s) => ("Invalid argument: ", s),
            PaiError::Storage(s) => ("Storage error: ", s),
            PaiError::Fetch(s) => ("Fetch error: ", s),
            PaiError::Parse(s) => ("Parse error: ", s),
            PaiError::Config(s) => ("Configuration error: ", s),
            PaiError::Io(s) => ("IO error: ", s),
        };
        let mut m = owned(prefix);
        m.append(detail.as_str());
        m
    }
}

} // verus!
