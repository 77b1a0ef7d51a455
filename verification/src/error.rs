use vstd::prelude::*;

verus! {

/// What failed: the archive or input itself, or a resource underneath it
/// (a file, the disk-backed index). Structural faults abort a pass because
/// the input is incompatible; resource faults come from the environment.
#[derive(Debug, Clone, Copy, PartialEq, Eq, Structural)]
pub enum ErrorKind {
    Structure,
    Resource,
}

/// Error raised by the conversion engine: structural faults in the archive,
/// unknown tables, and malformed rows all surface as a message with a kind.
#[derive(Debug, Clone)]
pub struct OsmError {
    pub message: String,
    pub kind: ErrorKind,
}

impl OsmError {
    /// A structural fault of the input.
    pub fn new(message: String) -> (e: OsmError)
        ensures
            e.message@ == message@,
            e.kind == ErrorKind::Structure,
    {
        OsmError { message, kind: ErrorKind::Structure }
    }

    /// A fault of a resource underneath the pass.
    pub fn resource(message: String) -> (e: OsmError)
        ensures
            e.message@ == message@,
            e.kind == ErrorKind::Resource,
    {
        OsmError { message, kind: ErrorKind::Resource }
    }

    /// The error text, for callers that report the failure.
    pub fn message(&self) -> (m: &String)
        ensures
            m@ == self.message@,
    {
        &self.message
    }
}

} // verus!
