//! The kinds of failure that the validators and the registry report.
use vstd::prelude::*;

verus! {

/// Why an input was refused. Each kind is returned to the immediate caller,
/// never swallowed.
#[derive(Debug, Clone, Copy, PartialEq, Eq, Structural)]
pub enum ValidationError {
    /// The path holds a character outside the path whitelist.
    InvalidPath,
    /// The file system could not read the path.
    ReadError,
    /// The content is neither an image nor a video.
    InvalidContentGroup,
    /// The content is an image or a video, but no concrete type was found.
    InvalidContentType,
    /// The file name's extension does not fit the type of its content.
    ExtensionMismatch,
    /// An identifier is not in the hyphenated 8-4-4-4-12 form.
    InvalidUuidFormat,
    /// A whitelist entry is not a valid top-level domain.
    InvalidWhitelistEntry,
    /// The registry already holds a record under this identifier.
    AlreadyExists,
    /// The registry holds no record under this identifier.
    NotFound,
}

} // verus!
