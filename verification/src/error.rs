use vstd::prelude::*;

verus! {

/// Typed failures of the engine.
///
/// Every fallible operation of this crate returns one of these; how a failure
/// is shown to a person is entirely the caller's concern.  Paths are carried
/// as plain strings so that errors can name the file they concern.
#[derive(Debug)]
#[allow(inconsistent_fields)]
pub enum Error {
    /// A generic input/output failure, optionally scoped to a path.
    Io { path: Option<String>, details: String },
    /// A file was not found.
    NotFound { path: String },
    /// Access to a file was denied.
    PermissionDenied { path: String },
    /// The file does not begin with the safe-file magic.
    InvalidMagic { path: String },
    /// The container layout is broken (oversized header, malformed fields,
    /// or a size that disagrees with the header).
    InvalidFormat { path: String, details: String },
    /// The format version byte differs from the engine's supported version.
    UnsupportedVersion { path: String, version: u8 },
    /// The file ends before the container layout says it should.
    IncompleteFile { path: String },
    /// The authentication tag did not match: the ciphertext, nonce or key
    /// was tampered with or corrupted.
    InvalidAuthenticationTag,
    /// Fewer shares than the scheme needs were supplied.
    NotEnoughShares { provided: u8, required: u8 },
    /// The sharing scheme failed for another reason.
    SharingFailed { details: String },
    /// A share file is damaged.
    ShareCorrupted { path: String },
    /// A share file's stored checksum disagrees with a fresh hash of its
    /// payload.
    ShareChecksumMismatch { path: String },
    /// The scheme-level consistency check failed during reconstruction.
    ShareVerificationFailed { details: String },
    /// Another reconstruction failure.
    OtherShareReconstructionError { details: String },
    /// An internal invariant was broken; a defect, not bad input.
    InternalError { details: String },
    /// An argument was out of its documented range.
    InvalidArgument { details: String },
}

impl Error {
    /// True when this is an `InvalidFormat` error naming `path`.
    pub open spec fn is_invalid_format_at(self, path: String) -> bool {
        match self {
            Error::InvalidFormat { path: p, details: _ } => p == path,
            _ => false,
        }
    }

    /// True when this is an `InternalError`.
    pub open spec fn is_internal(self) -> bool {
        self matches Error::InternalError { details: _ }
    }

    /// True when this is an `InvalidArgument` error.
    pub open spec fn is_invalid_argument(self) -> bool {
        self matches Error::InvalidArgument { details: _ }
    }

    /// True when this is a `SharingFailed` error.
    pub open spec fn is_sharing_failed(self) -> bool {
        self matches Error::SharingFailed { details: _ }
    }

    /// True when this is a `ShareVerificationFailed` error.
    pub open spec fn is_share_verification_failed(self) -> bool {
        self matches Error::ShareVerificationFailed { details: _ }
    }
}

} // verus!
