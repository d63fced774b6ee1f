use vstd::prelude::*;
use aes_gcm::aead::rand_core::RngCore;

use crate::container::{SafeHeader, SafeHeaderView};
use crate::crypto::{encrypt_stream, decrypt_stream, spec_safe_file};
use crate::error::Error;
use crate::format::{SafeInfo, spec_header_body, spec_read_header, HeaderParse, HEADER_CEILING};
use crate::shamir::{
    create_shares, reconstruct_key, zeroize_vec, is_share_encoding, reconstruct_accepts,
    reconstruct_refusal, share_payload, shares_for_key, payloads_of, distinct_x, sss_accepts,
    sss_secret_of,
};
use crate::stream_aes::{cipher_stream, gcm_tag_of, MAX_STREAM_LEN};
use crate::VERSION;
use vstd::utf8::encode_utf8;

verus! {

/// What encryption hands back: the safe-file bytes, one encoded share
/// record per share, and the metadata of the safe file.
#[derive(Debug)]
pub struct EncryptResult {
    pub safe_file: Vec<u8>,
    pub share_files: Vec<Vec<u8>>,
    pub info: SafeInfo,
}

/// What decryption hands back: the recovered plaintext and the metadata of
/// the safe file it came from.
#[derive(Debug)]
pub struct DecryptResult {
    pub output: Vec<u8>,
    pub info: SafeInfo,
}

/// Relies on the operating system's secure random source, reached through
/// aes_gcm's `OsRng` re-export: fills the buffer in place; of the values
/// themselves nothing can be said.
#[verifier::external_body]
fn fill_random(buf: &mut Vec<u8>)
    ensures
        final(buf)@.len() == old(buf)@.len(),
{
    aes_gcm::aead::OsRng.fill_bytes(buf.as_mut_slice());
}

/// `file` is a complete safe file carrying `timestamp` and `label`, whose
/// ciphertext region is `plaintext` enciphered under `key` and `nonce` and
/// whose tag is the cipher's tag over that region.
pub open spec fn safe_encoding_with(
    file: Seq<u8>,
    timestamp: u64,
    label: Seq<char>,
    plaintext: Seq<u8>,
    key: Seq<u8>,
    nonce: Seq<u8>,
) -> bool {
    &&& key.len() == 32
    &&& nonce.len() == 12
    &&& gcm_tag_of(key, nonce, cipher_stream(key, nonce, plaintext)).len() == 16
    &&& file == spec_safe_file(
        SafeHeaderView {
            version: VERSION,
            timestamp,
            label,
            nonce,
            ciphertext_len: plaintext.len() as u64,
        },
        cipher_stream(key, nonce, plaintext),
        gcm_tag_of(key, nonce, cipher_stream(key, nonce, plaintext)),
    )
}

/// `file` is a complete safe file for `plaintext` under some 32-byte key
/// and 12-byte nonce.
pub open spec fn is_safe_encoding(
    file: Seq<u8>,
    timestamp: u64,
    label: Seq<char>,
    plaintext: Seq<u8>,
) -> bool {
    exists|key: Seq<u8>, nonce: Seq<u8>|
        safe_encoding_with(file, timestamp, label, plaintext, key, nonce)
}

/// Both halves of one split under the same key: the safe file is
/// `plaintext` enciphered under it, and the share records encode payloads
/// of which any `threshold` reconstruct it.
pub open spec fn split_encoding_with(
    file: Seq<u8>,
    shares: Seq<Vec<u8>>,
    timestamp: u64,
    label: Seq<char>,
    plaintext: Seq<u8>,
    threshold: u8,
    key: Seq<u8>,
    nonce: Seq<u8>,
) -> bool {
    &&& safe_encoding_with(file, timestamp, label, plaintext, key, nonce)
    &&& shares_for_key(shares, timestamp, label, threshold, key)
}

/// `file` and `shares` are one split of `plaintext`: the same 32-byte key
/// that enciphered the file is what any `threshold` of the share records
/// reconstruct.
pub open spec fn is_split_encoding(
    file: Seq<u8>,
    shares: Seq<Vec<u8>>,
    timestamp: u64,
    label: Seq<char>,
    plaintext: Seq<u8>,
    threshold: u8,
) -> bool {
    exists|key: Seq<u8>, nonce: Seq<u8>|
        split_encoding_with(file, shares, timestamp, label, plaintext, threshold, key, nonce)
}

/// The tag at the end of `data` is the one the cipher computes under `key`
/// and `nonce` over the region before it.
pub open spec fn tag_matches(key: Seq<u8>, nonce: Seq<u8>, data: Seq<u8>) -> bool
    recommends
        data.len() >= 16,
{
    data.skip(data.len() - 16) == gcm_tag_of(key, nonce, data.take(data.len() - 16))
}

/// The whole encryption path: generates a fresh 32-byte key and 12-byte
/// nonce, stream-encrypts `input` into a framed safe file carrying
/// `timestamp` and `label` (empty when absent), splits the key into
/// `shares` share records of which any `threshold` reconstruct it, and
/// zeroes the key and nonce buffers before returning, on every path.
///
/// Rejected before any cryptographic work: a threshold of zero or above
/// the share count (`InvalidArgument`), an input longer than
/// [`MAX_STREAM_LEN`] (`InvalidArgument`), and a label too long for the
/// header ceiling (`InvalidArgument`).  The scheme itself refuses fewer
/// than two shares in all (`SharingFailed`).  On any other input the
/// operation succeeds.
pub fn encrypt_and_split(
    input: &[u8],
    shares: u8,
    threshold: u8,
    label: Option<&String>,
    timestamp: u64,
) -> (r: Result<EncryptResult, Error>)
    ensures
        ({
            let lab_view = match label {
                Option::Some(l) => l@,
                Option::None => Seq::<char>::empty(),
            };
            match r {
                Ok(res) => {
                    &&& 1 <= threshold <= shares
                    &&& 2 <= shares
                    &&& input@.len() <= MAX_STREAM_LEN
                    &&& is_safe_encoding(res.safe_file@, timestamp, lab_view, input@)
                    &&& is_split_encoding(
                        res.safe_file@,
                        res.share_files@,
                        timestamp,
                        lab_view,
                        input@,
                        threshold,
                    )
                    &&& res.share_files@.len() == shares as int
                    &&& forall|i: int|
                        0 <= i < res.share_files@.len() ==> is_share_encoding(
                            (#[trigger] res.share_files@[i])@,
                            timestamp,
                            lab_view,
                            97,
                        )
                    &&& res.info.version == VERSION
                    &&& res.info.timestamp == timestamp
                    &&& res.info.label@ == lab_view
                    &&& res.info.ciphertext_len == input@.len()
                },
                Err(e) => {
                    ||| ((threshold == 0 || threshold > shares) && e.is_invalid_argument())
                    ||| (1 <= threshold <= shares && input@.len() > MAX_STREAM_LEN
                        && e.is_invalid_argument())
                    ||| (1 <= threshold <= shares && input@.len() <= MAX_STREAM_LEN && 37
                        + encode_utf8(lab_view).len() > HEADER_CEILING && e.is_invalid_argument())
                    ||| (1 <= threshold <= shares && input@.len() <= MAX_STREAM_LEN && 37
                        + encode_utf8(lab_view).len() <= HEADER_CEILING && shares < 2
                        && e.is_sharing_failed())
                },
            }
        }),
{
    if threshold == 0 || threshold > shares {
        return Err(
            Error::InvalidArgument {
                details: "threshold must be at least 1 and at most the number of shares".to_owned(),
            },
        );
    }
    if input.len() as u64 > MAX_STREAM_LEN {
        return Err(
            Error::InvalidArgument {
                details: "input is longer than one nonce may encrypt".to_owned(),
            },
        );
    }
    let mut key: Vec<u8> = vec![0u8; 32];
    fill_random(&mut key);
    let mut nonce: Vec<u8> = vec![0u8; 12];
    fill_random(&mut nonce);
    let lab: String = match label {
        Option::Some(l) => (*l).clone(),
        Option::None => String::new(),
    };
    let header = SafeHeader {
        version: VERSION,
        timestamp,
        label: lab.clone(),
        nonce: nonce.clone(),
        ciphertext_len: input.len() as u64,
    };
    let safe_file = match encrypt_stream(input, key.as_slice(), nonce.as_slice(), &header) {
        Ok(s) => s,
        Err(e) => {
            zeroize_vec(&mut key);
            zeroize_vec(&mut nonce);
            proof {
                lemma_header_len(header@);
            }
            return Err(e);
        },
    };
    let share_files = match create_shares(key.as_slice(), threshold, shares, &lab, timestamp) {
        Ok(s) => s,
        Err(e) => {
            zeroize_vec(&mut key);
            zeroize_vec(&mut nonce);
            proof {
                lemma_header_len(header@);
            }
            return Err(e);
        },
    };
    proof {
        assert(safe_encoding_with(safe_file@, timestamp, header@.label, input@, key@, nonce@));
        assert(split_encoding_with(
            safe_file@,
            share_files@,
            timestamp,
            header@.label,
            input@,
            threshold,
            key@,
            nonce@,
        ));
    }
    zeroize_vec(&mut key);
    zeroize_vec(&mut nonce);
    let info = SafeInfo {
        version: VERSION,
        timestamp,
        label: lab,
        ciphertext_len: input.len() as u64,
    };
    Ok(EncryptResult { safe_file, share_files, info })
}

/// The serialized header is the fixed fields plus the label's UTF-8 bytes.
proof fn lemma_header_len(hv: SafeHeaderView)
    requires
        hv.wf(),
    ensures
        spec_header_body(hv).len() == 37 + encode_utf8(hv.label).len(),
{
    vstd::bytes::lemma_auto_spec_u64_to_from_le_bytes();
}

/// The whole decryption path: reconstructs the key from the share files
/// (each the pair of its path and its bytes), then parses and
/// stream-decrypts the safe file, and zeroes the key buffer before
/// returning, on every path.
///
/// The shares are judged first, in order: the first file that fails the
/// codec or checksum gate decides the error, and an empty list is
/// `NotEnoughShares`.  A reconstructed key of any length but 32 bytes is
/// an `InternalError`.  Then the safe file is gated (magic, ceiling,
/// layout, version), its size must match the header exactly, and the tag
/// must check out under the reconstructed key.
pub fn decrypt_and_reconstruct(
    safe_bytes: &[u8],
    safe_path: &String,
    share_files: &Vec<(String, Vec<u8>)>,
) -> (r: Result<DecryptResult, Error>)
    ensures
        ({
            let files = share_files@;
            let key = sss_secret_of(payloads_of(files));
            match r {
                Ok(res) => {
                    &&& reconstruct_accepts(files)
                    &&& distinct_x(payloads_of(files))
                    &&& sss_accepts(payloads_of(files))
                    &&& share_payload(files[0]).len() == 97
                    &&& key.len() == 32
                    &&& match spec_read_header(safe_bytes@) {
                        HeaderParse::Good(hv, hlen) => {
                            let data = safe_bytes@.skip(8 + hlen as int);
                            let ct = data.take(data.len() - 16);
                            &&& data.len() >= 16
                            &&& data.len() - 16 == hv.ciphertext_len
                            &&& hv.ciphertext_len <= MAX_STREAM_LEN
                            &&& tag_matches(key, hv.nonce, data)
                            &&& res.output@ == cipher_stream(key, hv.nonce, ct)
                            &&& res.info.version == hv.version
                            &&& res.info.timestamp == hv.timestamp
                            &&& res.info.label@ == hv.label
                            &&& res.info.ciphertext_len == hv.ciphertext_len
                        },
                        _ => false,
                    }
                },
                Err(e) => {
                    ||| reconstruct_refusal(files, e)
                    ||| (reconstruct_accepts(files) && sss_accepts(payloads_of(files))
                        && share_payload(files[0]).len() != 97 && e.is_internal())
                    ||| (reconstruct_accepts(files) && sss_accepts(payloads_of(files))
                        && share_payload(files[0]).len() == 97 && match spec_read_header(
                        safe_bytes@,
                    ) {
                        HeaderParse::Good(hv, hlen) => {
                            let data = safe_bytes@.skip(8 + hlen as int);
                            ||| ((data.len() < 16 || data.len() - 16 != hv.ciphertext_len)
                                && e.is_invalid_format_at(*safe_path))
                            ||| (data.len() >= 16 && data.len() - 16 == hv.ciphertext_len
                                && hv.ciphertext_len > MAX_STREAM_LEN && e.is_invalid_format_at(
                                *safe_path,
                            ))
                            ||| (data.len() >= 16 && data.len() - 16 == hv.ciphertext_len
                                && hv.ciphertext_len <= MAX_STREAM_LEN && !tag_matches(
                                key,
                                hv.nonce,
                                data,
                            ) && e == Error::InvalidAuthenticationTag)
                        },
                        HeaderParse::Incomplete => e == (Error::IncompleteFile {
                            path: *safe_path,
                        }),
                        HeaderParse::BadMagic => e == (Error::InvalidMagic { path: *safe_path }),
                        HeaderParse::TooBig => e.is_invalid_format_at(*safe_path),
                        HeaderParse::Malformed => e.is_invalid_format_at(*safe_path),
                        HeaderParse::WrongVersion(v) => e == (Error::UnsupportedVersion {
                            path: *safe_path,
                            version: v,
                        }),
                        })
                },
            }
        }),
{
    let mut key = match reconstruct_key(share_files) {
        Ok(k) => k,
        Err(e) => {
            return Err(e);
        },
    };
    if key.len() != 32 {
        zeroize_vec(&mut key);
        return Err(Error::InternalError { details: "reconstructed key wrong length".to_owned() });
    }
    let (output, header) = match decrypt_stream(safe_bytes, key.as_slice(), safe_path) {
        Ok(p) => p,
        Err(e) => {
            proof {
                assert(key@ == sss_secret_of(payloads_of(share_files@)));
                match spec_read_header(safe_bytes@) {
                    HeaderParse::Good(hv, hlen) => {
                        let data = safe_bytes@.skip(8 + hlen as int);
                        if data.len() >= 16 && data.len() - 16 == hv.ciphertext_len
                            && hv.ciphertext_len <= MAX_STREAM_LEN {
                            assert(!tag_matches(key@, hv.nonce, data));
                        }
                    },
                    _ => (),
                }
            }
            zeroize_vec(&mut key);
            return Err(e);
        },
    };
    proof {
        assert(key@ == sss_secret_of(payloads_of(share_files@)));
        match spec_read_header(safe_bytes@) {
            HeaderParse::Good(hv, hlen) => {
                let data = safe_bytes@.skip(8 + hlen as int);
                assert(tag_matches(key@, hv.nonce, data) && output@ == cipher_stream(
                    key@,
                    hv.nonce,
                    data.take(data.len() - 16),
                ));
            },
            _ => (),
        }
    }
    zeroize_vec(&mut key);
    let info = SafeInfo {
        version: header.version,
        timestamp: header.timestamp,
        label: header.label,
        ciphertext_len: header.ciphertext_len,
    };
    Ok(DecryptResult { output, info })
}

} // verus!
