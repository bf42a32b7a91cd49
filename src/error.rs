use vstd::prelude::*;

verus! {

/// The ways an operation of the library can fail.
#[derive(Debug, Clone, PartialEq, Eq)]
pub enum AkaibuError {
    /// Neither a container signature nor a resource signature matched; holds
    /// the header bytes that were looked at.
    UnrecognizedFormat(Vec<u8>),
    /// The container's index describes a structure that the data does not have.
    MalformedIndex,
    /// A recognised payload could not be decoded.
    DecodeFailure,
    /// The requested entry does not belong to the archive.
    EntryNotFound,
    /// The format was recognised but has no decoder.
    Unimplemented,
    /// No scheme, or one outside the offered list, was picked.
    InvalidSelection,
}

} // verus!
