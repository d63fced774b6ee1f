//! Safe-file engine: a verified container format, streaming authenticated
//! encryption, and threshold secret sharing of the symmetric key.
//!
//! A file is encrypted under a fresh 256-bit key with a 96-bit-nonce
//! authenticated stream cipher and written as a versioned container; the key
//! is split into `total` shares of which any `threshold` reconstruct it.
//! Front ends (a command line, a graphical shell) feed bytes in and out; the
//! format, framing, checksum and key-lifecycle rules live here.

use vstd::prelude::*;

pub mod container;
pub mod crypto;
pub mod decryption_panel;
pub mod encryption_panel;
pub mod error;
pub mod file_row;
pub mod format;
pub mod hash;
pub mod laws;
pub mod multifile_selector;
pub mod ops;
pub mod shamir;
pub mod slider_row;
pub mod stream_aes;
pub mod text_row;
pub mod utils;

verus! {

/// Container format version this engine reads and writes.
pub const VERSION: u8 = 1;

/// What a panel asks of its host after handling a message: show an error
/// text, or nothing.
pub enum PanelCommand {
    ShowError(String),
    Nothing,
}

} // verus!
