//! The error type of batch sources.

use vstd::prelude::*;

verus! {

broadcast use vstd::string::group_string_axioms;

/// Unified error type for batch source operations.
#[derive(Debug, Clone, PartialEq)]
pub enum SourceError {
    /// An I/O failure, with the I/O error's message.
    Io(String),
    Connect(String),
    Decode(String),
    NotFound(String),
    Other(String),
}

/// How a source error reads.
pub open spec fn source_error_text(e: SourceError) -> Seq<char> {
    match e {
        SourceError::Io(m) => "I/O error: "@ + m@,
        SourceError::Connect(m) => "connect error: "@ + m@,
        SourceError::Decode(m) => "decode error: "@ + m@,
        SourceError::NotFound(m) => "source not found: "@ + m@,
        SourceError::Other(m) => m@,
    }
}

impl SourceError {
    /// How the error reads.
    pub fn to_string(&self) -> (r: String)
        ensures
            r@ == source_error_text(*self),
    {
        let (prefix, m) = match self {
            SourceError::Io(m) => ("I/O error: ", m),
            SourceError::Connect(m) => ("connect error: ", m),
            SourceError::Decode(m) => ("decode error: ", m),
            SourceError::NotFound(m) => ("source not found: ", m),
            SourceError::Other(m) => ("", m),
        };
        let mut out = String::from_str(prefix);
        out.append(m.as_str());
        proof {
            reveal_strlit("");
        }
        assert(out@ =~= source_error_text(*self));
        out
    }
}

} // verus!
