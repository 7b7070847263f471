//! The failures that end an extraction.

use vstd::prelude::*;

verus! {

/// Why an extraction ended without a document model.
#[derive(Debug, Clone, Copy, PartialEq, Eq, Structural)]
pub enum ExtractError {
    /// The archive or a document in it could not be opened or parsed.
    OpenError,
    /// A reference in the markup lacks the package's URI prefix.
    ReferenceResolutionError,
    /// A referenced image is not in the archive.
    ResourceNotFound,
    /// The bytes of a referenced image could not be decoded.
    UnsupportedImageFormat,
    /// A payload that must be text is not valid UTF-8.
    InvalidEncoding,
    /// The package offers no table of contents; never fatal.
    TocUnavailable,
}

} // verus!
