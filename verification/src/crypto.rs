use vstd::prelude::*;

use crate::container::SafeHeader;
use crate::error::Error;
use crate::format::{
    spec_header_body, spec_magic, spec_read_header, write_header, read_header, HeaderParse,
    HEADER_CEILING,
};
use crate::stream_aes::{cipher_stream, gcm_tag_of, encrypt_bytes, decrypt_bytes, MAX_STREAM_LEN};
use vstd::bytes::spec_u32_to_le_bytes;

verus! {

/// How often a driver loop reports progress: at most once per this many
/// microseconds, so a slow consumer is never flooded.
pub const REPORT_INTERVAL_US: u128 = 200000;

/// Whether a progress report is due: enough time has passed since the last
/// one, or the stream just completed (completion is always reported).
pub fn progress_due(elapsed_us: u128, processed: u64, total: u64) -> (r: bool)
    ensures
        r == (elapsed_us >= REPORT_INTERVAL_US || processed == total),
{
    elapsed_us >= REPORT_INTERVAL_US || processed == total
}

/// The complete on-disk form of a safe file: magic, little-endian length of
/// the header, header bytes, ciphertext, 16-byte tag.
pub open spec fn spec_safe_file(h: crate::container::SafeHeaderView, ct: Seq<u8>, tag: Seq<u8>) -> Seq<u8> {
    spec_magic() + spec_u32_to_le_bytes(spec_header_body(h).len() as u32) + spec_header_body(h)
        + ct + tag
}

/// Encrypts `input` under `key` and `nonce` and frames the result as a
/// complete safe file: the framed `header`, then the ciphertext (one byte
/// per plaintext byte), then the tag over the ciphertext.  The input must
/// stay within the single-nonce counter range, the engine's precondition.
///
/// Fails only when the serialized header would not fit under the ceiling
/// that reading enforces.
pub fn encrypt_stream(input: &[u8], key: &[u8], nonce: &[u8], header: &SafeHeader) -> (r: Result<
    Vec<u8>,
    Error,
>)
    requires
        key@.len() == 32,
        nonce@.len() == 12,
        header.wf(),
        input@.len() <= MAX_STREAM_LEN,
    ensures
        match r {
            Ok(out) => {
                &&& spec_header_body(header@).len() <= HEADER_CEILING
                &&& gcm_tag_of(key@, nonce@, cipher_stream(key@, nonce@, input@)).len() == 16
                &&& out@ == spec_safe_file(
                    header@,
                    cipher_stream(key@, nonce@, input@),
                    gcm_tag_of(key@, nonce@, cipher_stream(key@, nonce@, input@)),
                )
            },
            Err(e) => {
                &&& spec_header_body(header@).len() > HEADER_CEILING
                &&& e.is_invalid_argument()
            },
        },
{
    let mut out: Vec<u8> = Vec::new();
    match write_header(&mut out, header) {
        Ok(()) => (),
        Err(e) => {
            return Err(e);
        },
    }
    let (mut ct, mut tag) = encrypt_bytes(key, nonce, input);
    out.append(&mut ct);
    out.append(&mut tag);
    Ok(out)
}

/// Parses a safe file and decrypts its ciphertext region under `key`.
///
/// The header is gated first (magic, ceiling, layout, version); then the
/// file's total size must equal header region plus declared ciphertext plus
/// tag, else `InvalidFormat`; then a declared ciphertext longer than the
/// single-nonce counter range is refused, also `InvalidFormat`; then the
/// stream is decrypted and the tag checked, `InvalidAuthenticationTag` on
/// mismatch.  On success returns the plaintext and the parsed header.
/// Plaintext equals the keystream applied to the ciphertext region; the
/// tag check is what vouches for it.
pub fn decrypt_stream(input: &[u8], key: &[u8], path: &String) -> (r: Result<
    (Vec<u8>, SafeHeader),
    Error,
>)
    requires
        key@.len() == 32,
    ensures
        match spec_read_header(input@) {
            HeaderParse::Good(hv, hlen) => {
                let data = input@.skip(8 + hlen as int);
                if data.len() < 16 || data.len() - 16 != hv.ciphertext_len {
                    r matches Err(e) && e.is_invalid_format_at(*path)
                } else if hv.ciphertext_len > MAX_STREAM_LEN {
                    r matches Err(e) && e.is_invalid_format_at(*path)
                } else {
                    let ct = data.take(data.len() - 16);
                    let tag = data.skip(data.len() - 16);
                    match r {
                        Ok(p) => {
                            &&& tag == gcm_tag_of(key@, hv.nonce, ct)
                            &&& p.0@ == cipher_stream(key@, hv.nonce, ct)
                            &&& p.1@ == hv
                        },
                        Err(e) => {
                            &&& tag != gcm_tag_of(key@, hv.nonce, ct)
                            &&& e == Error::InvalidAuthenticationTag
                        },
                    }
                }
            },
            HeaderParse::Incomplete => r matches Err(e) && e == (Error::IncompleteFile {
                path: *path,
            }),
            HeaderParse::BadMagic => r matches Err(e) && e == (Error::InvalidMagic {
                path: *path,
            }),
            HeaderParse::TooBig => r matches Err(e) && e.is_invalid_format_at(*path),
            HeaderParse::Malformed => r matches Err(e) && e.is_invalid_format_at(*path),
            HeaderParse::WrongVersion(v) => r matches Err(e) && e == (Error::UnsupportedVersion {
                path: *path,
                version: v,
            }),
        },
{
    let (header, hlen) = match read_header(input, path) {
        Ok(p) => p,
        Err(e) => {
            return Err(e);
        },
    };
    let data_start = 8 + hlen as usize;
    let remaining = input.len() - data_start;
    if remaining < 16 {
        return Err(
            Error::InvalidFormat { path: path.clone(), details: "file size mismatch".to_owned() },
        );
    }
    if (remaining - 16) as u64 != header.ciphertext_len {
        return Err(
            Error::InvalidFormat { path: path.clone(), details: "file size mismatch".to_owned() },
        );
    }
    if header.ciphertext_len > MAX_STREAM_LEN {
        return Err(
            Error::InvalidFormat {
                path: path.clone(),
                details: "ciphertext exceeds the single-nonce limit".to_owned(),
            },
        );
    }
    let data = vstd::slice::slice_subrange(input, data_start, input.len());
    proof {
        assert(data@ =~= input@.skip(8 + hlen as int));
    }
    let pt = match decrypt_bytes(key, header.nonce.as_slice(), data) {
        Ok(pt) => pt,
        Err(e) => {
            return Err(e);
        },
    };
    Ok((pt, header))
}

} // verus!
