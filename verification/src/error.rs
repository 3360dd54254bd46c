//! The failure conditions of one run of the tool.

use vstd::prelude::*;

verus! {

/// Everything that can go wrong during a run. None of these is recoverable:
/// each one is surfaced to the operator together with the index path.
#[derive(Clone, Copy, Debug, PartialEq, Eq, Structural)]
pub enum ToolError {
    /// No index path was supplied by the caller.
    MissingInput,
    /// The index file could not be opened or read.
    IoError,
    /// The bytes read are not a well-formed instance of the index format.
    DecodeError,
    /// An occurrence carries a range of more than four integers, which the
    /// index format does not define; the run aborts rather than skip it.
    MalformedRange,
}

impl ToolError {
    /// A diagnostic phrase for the operator; the caller prepends the path.
    pub fn message(&self) -> (s: &'static str)
        ensures
            *self is MissingInput ==> s@ == "expected the path of an index file as the first argument"@,
            *self is IoError ==> s@ == "the index file could not be opened or read"@,
            *self is DecodeError ==> s@ == "the file is not a valid SCIP index"@,
            *self is MalformedRange ==> s@ == "the index holds a range of more than four integers"@,
    {
        match self {
            ToolError::MissingInput => "expected the path of an index file as the first argument",
            ToolError::IoError => "the index file could not be opened or read",
            ToolError::DecodeError => "the file is not a valid SCIP index",
            ToolError::MalformedRange => "the index holds a range of more than four integers",
        }
    }
}

} // verus!
