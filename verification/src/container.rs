use vstd::prelude::*;

verus! {

/// Abstract value of a [`SafeHeader`]: the five header fields over
/// mathematical sequences.
pub ghost struct SafeHeaderView {
    pub version: u8,
    pub timestamp: u64,
    pub label: Seq<char>,
    pub nonce: Seq<u8>,
    pub ciphertext_len: u64,
}

/// Safe-file header.
///
/// - `version` identifies the format version.
/// - `timestamp` is UNIX seconds when the file was created.
/// - `label` is an optional user label, empty when unset.
/// - `nonce` is the 12-byte cipher nonce used for this encryption.
/// - `ciphertext_len` is the size of the ciphertext region in bytes.
#[derive(Debug)]
pub struct SafeHeader {
    pub version: u8,
    pub timestamp: u64,
    pub label: String,
    pub nonce: Vec<u8>,
    pub ciphertext_len: u64,
}

impl View for SafeHeader {
    type V = SafeHeaderView;

    open spec fn view(&self) -> SafeHeaderView {
        SafeHeaderView {
            version: self.version,
            timestamp: self.timestamp,
            label: self.label@,
            nonce: self.nonce@,
            ciphertext_len: self.ciphertext_len,
        }
    }
}

impl SafeHeaderView {
    /// Structural soundness of a header value: the nonce has the cipher's
    /// nonce width.
    pub open spec fn wf(self) -> bool {
        self.nonce.len() == 12
    }
}

impl SafeHeader {
    /// Structural soundness of a header.
    pub open spec fn wf(&self) -> bool {
        self@.wf()
    }
}

/// Abstract value of a [`ShareFile`].
pub ghost struct ShareFileView {
    pub version: u8,
    pub timestamp: u64,
    pub label: Seq<char>,
    pub share: Seq<u8>,
    pub checksum: Seq<u8>,
}

/// Single key share as persisted to disk.
///
/// - `version` identifies the format version.
/// - `timestamp` is UNIX seconds, copied from the parent safe file so all
///   shares of one split carry the same stamp.
/// - `label` is the user label, copied from the parent.
/// - `share` is the opaque payload produced by the sharing scheme.
/// - `checksum` is a 32-byte hash of `share`, re-checked before the share
///   may take part in reconstruction.
#[derive(Debug)]
pub struct ShareFile {
    pub version: u8,
    pub timestamp: u64,
    pub label: String,
    pub share: Vec<u8>,
    pub checksum: Vec<u8>,
}

impl View for ShareFile {
    type V = ShareFileView;

    open spec fn view(&self) -> ShareFileView {
        ShareFileView {
            version: self.version,
            timestamp: self.timestamp,
            label: self.label@,
            share: self.share@,
            checksum: self.checksum@,
        }
    }
}

impl ShareFileView {
    /// Structural soundness of a share record: the checksum has the hash's
    /// output width.
    pub open spec fn wf(self) -> bool {
        self.checksum.len() == 32
    }
}

impl ShareFile {
    /// Structural soundness of a share record.
    pub open spec fn wf(&self) -> bool {
        self@.wf()
    }
}

} // verus!
