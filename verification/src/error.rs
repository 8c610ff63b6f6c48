use vstd::prelude::*;

verus! {

/// The failure taxonomy of the archiving tool. Every fatal condition is
/// reported as one of these kinds; the run aborts on the first occurrence.
#[derive(Clone, Copy, Debug, PartialEq, Eq, Structural)]
pub enum ErrorKind {
    /// The directory layout around a source file does not match the fixed
    /// camera convention (grandparent `DCIM`, parent `<number>CANON`).
    StructureViolation,
    /// Neither the filename pattern nor the embedded metadata yields a
    /// usable file number.
    MetadataUnavailable,
    /// The destination file exists and its bytes differ from the source.
    ConflictingContent,
    /// An external helper tool failed or produced unusable output.
    SubprocessFailure,
    /// A filesystem create or copy operation failed.
    IoFailure,
    /// An expected table is absent from the external database.
    SchemaViolation,
}

/// A fatal error: its kind plus a diagnostic naming the offending
/// file, path or value.
#[derive(Debug)]
pub struct OrganizeError {
    pub kind: ErrorKind,
    pub detail: String,
}

impl OrganizeError {
    pub fn new(kind: ErrorKind, detail: String) -> (r: OrganizeError)
        ensures
            r.kind == kind,
            r.detail@ == detail@,
    {
        OrganizeError { kind, detail }
    }
}

} // verus!
