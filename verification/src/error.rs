use vstd::prelude::*;

verus! {

/// The failures a rewrite pass can surface.
///
/// A non-match is not an error: it is the expected steady-state result for
/// most nodes and is reported through an ordinary `Option`/`bool` result.
#[derive(Clone, Copy, Debug, PartialEq, Eq, Structural)]
pub enum PathError {
    /// A query or target path carries structure that cannot be read as a
    /// plain segment sequence (for example generic arguments); such a path
    /// cannot be matched safely.
    InvalidPathShape,
    /// A remainder could not be located during reconstruction despite a
    /// reported match.  This signals an engine bug and aborts the pass.
    InternalInconsistency,
}

impl PathError {
    /// A short diagnostic text for this failure.
    pub fn message(&self) -> (m: &'static str)
        ensures
            *self is InvalidPathShape ==> m@ == "path contains arguments in angle brackets"@,
            *self is InternalInconsistency ==> m@ == "remainder of a matched path was lost"@,
    {
        match self {
            PathError::InvalidPathShape => "path contains arguments in angle brackets",
            PathError::InternalInconsistency => "remainder of a matched path was lost",
        }
    }
}

} // verus!
