//! Failure taxonomy of the adapter: every failure is terminal and carries
//! a message naming what was wrong.

use vstd::prelude::*;

verus! {

/// A caller input violates a precondition (`Validation`), text is not
/// syntactically valid structured data (`Parse`), or a document parses
/// but a required field is absent or mistyped (`Schema`).
#[derive(Debug)]
pub enum WaveError {
    Validation(String),
    Parse(String),
    Schema(String),
}

impl WaveError {
    /// The message carried by this error.
    pub open spec fn spec_message(&self) -> Seq<char> {
        match self {
            WaveError::Validation(m) => m@,
            WaveError::Parse(m) => m@,
            WaveError::Schema(m) => m@,
        }
    }

    /// The human-readable message carried by this error.
    pub fn message(&self) -> (r: String)
        ensures
            r@ == self.spec_message(),
    {
        match self {
            WaveError::Validation(m) => m.clone(),
            WaveError::Parse(m) => m.clone(),
            WaveError::Schema(m) => m.clone(),
        }
    }
}

/// `r` failed with a `Validation` error carrying exactly `msg`.
pub open spec fn validation_err<T>(r: Result<T, WaveError>, msg: Seq<char>) -> bool {
    &&& r matches Err(e)
    &&& e matches WaveError::Validation(m)
    &&& m@ == msg
}

/// `r` failed with a `Schema` error carrying exactly `msg`.
pub open spec fn schema_err<T>(r: Result<T, WaveError>, msg: Seq<char>) -> bool {
    &&& r matches Err(e)
    &&& e matches WaveError::Schema(m)
    &&& m@ == msg
}

/// `r` failed with a `Parse` error whose message opens with `prefix`.
pub open spec fn parse_err<T>(r: Result<T, WaveError>, prefix: Seq<char>) -> bool {
    &&& r matches Err(e)
    &&& e matches WaveError::Parse(m)
    &&& crate::text::has_prefix(m@, prefix)
}

} // verus!
