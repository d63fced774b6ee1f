use vstd::prelude::*;
use vstd::bytes::{
    spec_u32_to_le_bytes, spec_u32_from_le_bytes, spec_u64_to_le_bytes, spec_u64_from_le_bytes,
    u32_from_le_bytes, u32_to_le_bytes, u64_from_le_bytes, u64_to_le_bytes,
    lemma_auto_spec_u32_to_from_le_bytes, lemma_auto_spec_u64_to_from_le_bytes,
};
use vstd::slice::{slice_subrange, slice_to_vec};
use vstd::utf8::{valid_utf8, decode_utf8, encode_utf8, encode_utf8_valid_utf8, encode_utf8_decode_utf8};

use crate::container::{SafeHeader, SafeHeaderView, ShareFile, ShareFileView};
use crate::error::Error;
use crate::hash::{sha256, sha256_of, bytes_eq};
use crate::VERSION;

verus! {

/// Largest accepted length of a serialized header, a sanity ceiling that
/// bounds memory use against hostile or corrupt input.
pub const HEADER_CEILING: u32 = 1048576;

/// The four magic bytes that open every safe file.
pub open spec fn spec_magic() -> Seq<u8> {
    seq![0x53u8, 0x46u8, 0x49u8, 0x4cu8]
}

/// The magic as an exec value.
pub fn magic_bytes() -> (v: Vec<u8>)
    ensures
        v@ == spec_magic(),
{
    let mut v: Vec<u8> = Vec::new();
    v.push(0x53u8);
    v.push(0x46u8);
    v.push(0x49u8);
    v.push(0x4cu8);
    proof {
        assert(v@ =~= spec_magic());
    }
    v
}

/// Serialized form of the header fields alone (what stands between the
/// length word and the ciphertext): version byte, timestamp, label length,
/// UTF-8 label bytes, nonce, ciphertext length.
pub open spec fn spec_header_body(h: SafeHeaderView) -> Seq<u8> {
    seq![h.version] + spec_u64_to_le_bytes(h.timestamp) + spec_u64_to_le_bytes(
        encode_utf8(h.label).len() as u64,
    ) + encode_utf8(h.label) + h.nonce + spec_u64_to_le_bytes(h.ciphertext_len)
}

/// Decodes a header body; `None` when the bytes do not follow the layout.
pub open spec fn spec_decode_header_body(b: Seq<u8>) -> Option<SafeHeaderView> {
    if b.len() < 37 {
        Option::None
    } else {
        let lab_len = spec_u64_from_le_bytes(b.subrange(9, 17)) as int;
        if b.len() != 37 + lab_len {
            Option::None
        } else {
            let lab = b.subrange(17, 17 + lab_len);
            if valid_utf8(lab) {
                Option::Some(
                    SafeHeaderView {
                        version: b[0],
                        timestamp: spec_u64_from_le_bytes(b.subrange(1, 9)),
                        label: decode_utf8(lab),
                        nonce: b.subrange(17 + lab_len, 29 + lab_len),
                        ciphertext_len: spec_u64_from_le_bytes(
                            b.subrange(29 + lab_len, 37 + lab_len),
                        ),
                    },
                )
            } else {
                Option::None
            }
        }
    }
}

/// Outcome of reading a safe-file prefix: exactly one of these holds of any
/// byte sequence.
pub ghost enum HeaderParse {
    /// The bytes end before the magic, the length word, or the announced
    /// header region is complete.
    Incomplete,
    /// The first four bytes are not the magic.
    BadMagic,
    /// The announced header length is above [`HEADER_CEILING`].
    TooBig,
    /// The header region does not follow the field layout.
    Malformed,
    /// The header decodes but its version byte is not [`VERSION`].
    WrongVersion(u8),
    /// A well-formed current-version header, and its serialized length.
    Good(SafeHeaderView, u32),
}

/// Total description of header reading: what [`read_header`] returns on any
/// input whatsoever.
pub open spec fn spec_read_header(b: Seq<u8>) -> HeaderParse {
    if b.len() < 4 {
        HeaderParse::Incomplete
    } else if b.subrange(0, 4) != spec_magic() {
        HeaderParse::BadMagic
    } else if b.len() < 8 {
        HeaderParse::Incomplete
    } else {
        let hlen = spec_u32_from_le_bytes(b.subrange(4, 8));
        if hlen > HEADER_CEILING {
            HeaderParse::TooBig
        } else if b.len() < 8 + hlen {
            HeaderParse::Incomplete
        } else {
            match spec_decode_header_body(b.subrange(8, 8 + hlen)) {
                Option::None => HeaderParse::Malformed,
                Option::Some(hv) => if hv.version != VERSION {
                    HeaderParse::WrongVersion(hv.version)
                } else {
                    HeaderParse::Good(hv, hlen)
                },
            }
        }
    }
}

/// Serializes `header` and appends the framed form — magic, 4-byte
/// little-endian length, header bytes — to `out`.
///
/// Succeeds exactly when the serialized header fits under the ceiling that
/// [`read_header`] enforces, so that what is written can always be read
/// back; on failure `out` is untouched.
pub fn write_header(out: &mut Vec<u8>, header: &SafeHeader) -> (r: Result<(), Error>)
    requires
        header.wf(),
    ensures
        match r {
            Ok(()) => {
                &&& spec_header_body(header@).len() <= HEADER_CEILING
                &&& final(out)@ == old(out)@ + spec_magic() + spec_u32_to_le_bytes(
                    spec_header_body(header@).len() as u32,
                ) + spec_header_body(header@)
            },
            Err(e) => {
                &&& spec_header_body(header@).len() > HEADER_CEILING
                &&& e.is_invalid_argument()
                &&& final(out)@ == old(out)@
            },
        },
{
    proof {
        lemma_auto_spec_u64_to_from_le_bytes();
    }
    let label_bytes: &[u8] = header.label.as_str().as_bytes();
    if label_bytes.len() >= (HEADER_CEILING - 36) as usize {
        return Err(
            Error::InvalidArgument { details: "label too long for the header ceiling".to_owned() },
        );
    }
    let body_len: u32 = 37u32 + label_bytes.len() as u32;

    let mut body: Vec<u8> = Vec::new();
    body.push(header.version);
    let mut ts = u64_to_le_bytes(header.timestamp);
    body.append(&mut ts);
    let mut ll = u64_to_le_bytes(label_bytes.len() as u64);
    body.append(&mut ll);
    body.extend_from_slice(label_bytes);
    body.extend_from_slice(header.nonce.as_slice());
    let mut cl = u64_to_le_bytes(header.ciphertext_len);
    body.append(&mut cl);

    proof {
        assert(body@ =~= spec_header_body(header@));
    }

    let mut magic = magic_bytes();
    out.append(&mut magic);
    let mut lenw = u32_to_le_bytes(body_len);
    out.append(&mut lenw);
    out.append(&mut body);
    Ok(())
}

/// Decodes a header body; inverse of the body layout in
/// [`spec_header_body`].
fn decode_header_body(b: &[u8]) -> (r: Option<SafeHeader>)
    ensures
        match spec_decode_header_body(b@) {
            Option::Some(hv) => r matches Option::Some(h) && h@ == hv && h.wf(),
            Option::None => r is None,
        },
{
    if b.len() < 37 {
        return Option::None;
    }
    let version = b[0];
    let timestamp = u64_from_le_bytes(slice_subrange(b, 1, 9));
    let lab_len64 = u64_from_le_bytes(slice_subrange(b, 9, 17));
    if lab_len64 > b.len() as u64 {
        return Option::None;
    }
    let lab_len = lab_len64 as usize;
    if b.len() - 37 != lab_len {
        return Option::None;
    }
    let lab_bytes: Vec<u8> = slice_to_vec(slice_subrange(b, 17, 17 + lab_len));
    let label = match bytes_to_string(lab_bytes) {
        Option::Some(s) => s,
        Option::None => {
            return Option::None;
        },
    };
    let nonce: Vec<u8> = slice_to_vec(slice_subrange(b, 17 + lab_len, 29 + lab_len));
    let ciphertext_len = u64_from_le_bytes(slice_subrange(b, 29 + lab_len, 37 + lab_len));
    Option::Some(SafeHeader { version, timestamp, label, nonce, ciphertext_len })
}

/// Reads and validates a framed header from the start of `bytes`, which may
/// continue with the ciphertext; `path` only names the source in errors.
///
/// Returns the header and its serialized length, or: `InvalidMagic` when the
/// magic is absent, `InvalidFormat` when the announced length is above the
/// ceiling or the header region is malformed, `UnsupportedVersion` when the
/// version byte differs from [`VERSION`], `IncompleteFile` when the bytes
/// end too soon.
pub fn read_header(bytes: &[u8], path: &String) -> (r: Result<(SafeHeader, u32), Error>)
    ensures
        match spec_read_header(bytes@) {
            HeaderParse::Good(hv, hlen) => r matches Ok(p) && p.0@ == hv && p.0.wf() && p.1
                == hlen,
            HeaderParse::Incomplete => r matches Err(e) && e == (Error::IncompleteFile { path: *path }),
            HeaderParse::BadMagic => r matches Err(e) && e == (Error::InvalidMagic { path: *path }),
            HeaderParse::TooBig => r matches Err(e) && e.is_invalid_format_at(*path),
            HeaderParse::Malformed => r matches Err(e) && e.is_invalid_format_at(*path),
            HeaderParse::WrongVersion(v) => r matches Err(e) && e == (Error::UnsupportedVersion {
                path: *path,
                version: v,
            }),
        },
{
    if bytes.len() < 4 {
        return Err(Error::IncompleteFile { path: path.clone() });
    }
    if !(bytes[0] == 0x53u8 && bytes[1] == 0x46u8 && bytes[2] == 0x49u8 && bytes[3] == 0x4cu8) {
        proof {
            assert(bytes@.subrange(0, 4) != spec_magic());
        }
        return Err(Error::InvalidMagic { path: path.clone() });
    }
    proof {
        assert(bytes@.subrange(0, 4) =~= spec_magic());
    }
    if bytes.len() < 8 {
        return Err(Error::IncompleteFile { path: path.clone() });
    }
    let hlen = u32_from_le_bytes(slice_subrange(bytes, 4, 8));
    if hlen > HEADER_CEILING {
        return Err(
            Error::InvalidFormat { path: path.clone(), details: "header too large".to_owned() },
        );
    }
    if (bytes.len() as u64) < 8u64 + hlen as u64 {
        return Err(Error::IncompleteFile { path: path.clone() });
    }
    let body = slice_subrange(bytes, 8, 8 + hlen as usize);
    match decode_header_body(body) {
        Option::None => Err(
            Error::InvalidFormat { path: path.clone(), details: "malformed header".to_owned() },
        ),
        Option::Some(h) => {
            if h.version != VERSION {
                Err(Error::UnsupportedVersion { path: path.clone(), version: h.version })
            } else {
                Ok((h, hlen))
            }
        },
    }
}

/// Relies on `String::from_utf8`: returns the string whose UTF-8 encoding is
/// exactly the given bytes, or nothing when the bytes are not valid UTF-8.
#[verifier::external_body]
fn bytes_to_string(v: Vec<u8>) -> (r: Option<String>)
    ensures
        match r {
            Option::Some(s) => valid_utf8(v@) && s@ == decode_utf8(v@),
            Option::None => !valid_utf8(v@),
        },
{
    match String::from_utf8(v) {
        Ok(s) => Option::Some(s),
        Err(_) => Option::None,
    }
}

/// Reading back what [`write_header`] wrote recovers the very header: the
/// framed encoding of a well-formed current-version header, followed by
/// anything at all, parses to that header.
pub proof fn lemma_header_round_trip(hv: SafeHeaderView, rest: Seq<u8>)
    requires
        hv.wf(),
        hv.version == VERSION,
        spec_header_body(hv).len() <= HEADER_CEILING,
    ensures
        spec_read_header(
            spec_magic() + spec_u32_to_le_bytes(spec_header_body(hv).len() as u32)
                + spec_header_body(hv) + rest,
        ) == HeaderParse::Good(hv, spec_header_body(hv).len() as u32),
{
    lemma_auto_spec_u32_to_from_le_bytes();
    lemma_auto_spec_u64_to_from_le_bytes();
    let body = spec_header_body(hv);
    let all = spec_magic() + spec_u32_to_le_bytes(body.len() as u32) + body + rest;
    assert(all.subrange(0, 4) =~= spec_magic());
    assert(all.subrange(4, 8) =~= spec_u32_to_le_bytes(body.len() as u32));
    assert(all.len() >= 8 + body.len() as int);
    assert(all.subrange(8, 8 + body.len() as int) =~= body);
    assert(encode_utf8(hv.label).len() <= HEADER_CEILING);
    lemma_header_body_round_trip(hv);
}

/// The body layout decodes to the fields it was built from.
pub proof fn lemma_header_body_round_trip(hv: SafeHeaderView)
    requires
        hv.wf(),
        encode_utf8(hv.label).len() <= u64::MAX,
    ensures
        spec_decode_header_body(spec_header_body(hv)) == Option::Some(hv),
{
    lemma_auto_spec_u64_to_from_le_bytes();
    encode_utf8_valid_utf8(hv.label);
    encode_utf8_decode_utf8(hv.label);
    let lab = encode_utf8(hv.label);
    let b = spec_header_body(hv);
    let ll = lab.len() as int;
    assert(b.len() == 37 + ll);
    assert(b.subrange(1, 9) =~= spec_u64_to_le_bytes(hv.timestamp));
    assert(b.subrange(9, 17) =~= spec_u64_to_le_bytes(lab.len() as u64));
    assert(b.subrange(17, 17 + ll) =~= lab);
    assert(b.subrange(17 + ll, 29 + ll) =~= hv.nonce);
    assert(b.subrange(29 + ll, 37 + ll) =~= spec_u64_to_le_bytes(hv.ciphertext_len));
    assert(b[0] == hv.version);
}

/// Serialized form of a share record: version byte, timestamp, label length,
/// UTF-8 label bytes, share length, share payload, 32-byte checksum.
pub open spec fn spec_share_body(s: ShareFileView) -> Seq<u8> {
    seq![s.version] + spec_u64_to_le_bytes(s.timestamp) + spec_u64_to_le_bytes(
        encode_utf8(s.label).len() as u64,
    ) + encode_utf8(s.label) + spec_u64_to_le_bytes(s.share.len() as u64) + s.share + s.checksum
}

/// Structural decoding of a share record; `None` when the bytes do not
/// follow the layout.  The checksum is read but not yet judged.
pub open spec fn spec_decode_share_struct(b: Seq<u8>) -> Option<ShareFileView> {
    if b.len() < 57 {
        Option::None
    } else {
        let ll = spec_u64_from_le_bytes(b.subrange(9, 17)) as int;
        if ll > b.len() - 57 {
            Option::None
        } else {
            let lab = b.subrange(17, 17 + ll);
            let sl = spec_u64_from_le_bytes(b.subrange(17 + ll, 25 + ll)) as int;
            if sl != b.len() - 57 - ll {
                Option::None
            } else if valid_utf8(lab) {
                Option::Some(
                    ShareFileView {
                        version: b[0],
                        timestamp: spec_u64_from_le_bytes(b.subrange(1, 9)),
                        label: decode_utf8(lab),
                        share: b.subrange(25 + ll, 25 + ll + sl),
                        checksum: b.subrange(25 + ll + sl, 57 + ll + sl),
                    },
                )
            } else {
                Option::None
            }
        }
    }
}

/// Outcome of decoding a share record: exactly one of these holds of any
/// byte sequence.
pub ghost enum ShareParse {
    /// The bytes do not follow the record layout.
    Malformed,
    /// The record decodes but its version byte is not [`VERSION`].
    WrongVersion(u8),
    /// The record decodes but its stored checksum is not the hash of its
    /// payload: tampering or corruption.
    ChecksumMismatch(ShareFileView),
    /// A well-formed, current-version, checksum-consistent record.
    Good(ShareFileView),
}

/// Total description of share decoding: what [`decode_share`] returns on
/// any input whatsoever.
pub open spec fn spec_decode_share(b: Seq<u8>) -> ShareParse {
    match spec_decode_share_struct(b) {
        Option::None => ShareParse::Malformed,
        Option::Some(sv) => if sv.version != VERSION {
            ShareParse::WrongVersion(sv.version)
        } else if sv.checksum != sha256_of(sv.share) {
            ShareParse::ChecksumMismatch(sv)
        } else {
            ShareParse::Good(sv)
        },
    }
}

/// Serializes a share record.
pub fn encode_share(sf: &ShareFile) -> (v: Vec<u8>)
    requires
        sf.wf(),
    ensures
        v@ == spec_share_body(sf@),
{
    proof {
        lemma_auto_spec_u64_to_from_le_bytes();
    }
    let label_bytes: &[u8] = sf.label.as_str().as_bytes();
    let mut v: Vec<u8> = Vec::new();
    v.push(sf.version);
    let mut ts = u64_to_le_bytes(sf.timestamp);
    v.append(&mut ts);
    let mut ll = u64_to_le_bytes(label_bytes.len() as u64);
    v.append(&mut ll);
    v.extend_from_slice(label_bytes);
    let mut sl = u64_to_le_bytes(sf.share.len() as u64);
    v.append(&mut sl);
    v.extend_from_slice(sf.share.as_slice());
    v.extend_from_slice(sf.checksum.as_slice());
    proof {
        assert(v@ =~= spec_share_body(sf@));
    }
    v
}

/// Structural decoding of a share record.
fn decode_share_struct(b: &[u8]) -> (r: Option<ShareFile>)
    ensures
        match spec_decode_share_struct(b@) {
            Option::Some(sv) => r matches Option::Some(s) && s@ == sv && s.wf(),
            Option::None => r is None,
        },
{
    if b.len() < 57 {
        return Option::None;
    }
    let version = b[0];
    let timestamp = u64_from_le_bytes(slice_subrange(b, 1, 9));
    let lab_len64 = u64_from_le_bytes(slice_subrange(b, 9, 17));
    if lab_len64 > (b.len() - 57) as u64 {
        return Option::None;
    }
    let ll = lab_len64 as usize;
    let share_len64 = u64_from_le_bytes(slice_subrange(b, 17 + ll, 25 + ll));
    if share_len64 != (b.len() - 57 - ll) as u64 {
        return Option::None;
    }
    let sl = share_len64 as usize;
    let lab_bytes: Vec<u8> = slice_to_vec(slice_subrange(b, 17, 17 + ll));
    let label = match bytes_to_string(lab_bytes) {
        Option::Some(s) => s,
        Option::None => {
            return Option::None;
        },
    };
    let share: Vec<u8> = slice_to_vec(slice_subrange(b, 25 + ll, 25 + ll + sl));
    let checksum: Vec<u8> = slice_to_vec(slice_subrange(b, 25 + ll + sl, 57 + ll + sl));
    Option::Some(ShareFile { version, timestamp, label, share, checksum })
}

/// Decodes a share record and judges its integrity; `path` only names the
/// source in errors.
///
/// No record whose stored checksum disagrees with a freshly computed hash
/// of its payload is ever handed to a caller: such a record fails here with
/// `ShareChecksumMismatch` naming the file, before reconstruction could see
/// it.  A record that does not follow the layout fails as `ShareCorrupted`;
/// one of another format version as `UnsupportedVersion`.
pub fn decode_share(bytes: &[u8], path: &String) -> (r: Result<ShareFile, Error>)
    ensures
        match spec_decode_share(bytes@) {
            ShareParse::Good(sv) => r matches Ok(s) && s@ == sv && s.wf(),
            ShareParse::Malformed => r matches Err(e) && e == (Error::ShareCorrupted {
                path: *path,
            }),
            ShareParse::WrongVersion(v) => r matches Err(e) && e == (Error::UnsupportedVersion {
                path: *path,
                version: v,
            }),
            ShareParse::ChecksumMismatch(_) => r matches Err(e) && e
                == (Error::ShareChecksumMismatch { path: *path }),
        },
{
    let sf = match decode_share_struct(bytes) {
        Option::Some(s) => s,
        Option::None => {
            return Err(Error::ShareCorrupted { path: path.clone() });
        },
    };
    if sf.version != VERSION {
        return Err(Error::UnsupportedVersion { path: path.clone(), version: sf.version });
    }
    let computed = sha256(sf.share.as_slice());
    if !bytes_eq(computed.as_slice(), sf.checksum.as_slice()) {
        return Err(Error::ShareChecksumMismatch { path: path.clone() });
    }
    Ok(sf)
}

/// Decoding what [`encode_share`] wrote recovers the very record: the
/// encoding of a well-formed, current-version share record whose checksum
/// is the hash of its payload decodes to that record.
pub proof fn lemma_share_round_trip(sv: ShareFileView)
    requires
        sv.wf(),
        sv.version == VERSION,
        sv.checksum == sha256_of(sv.share),
        encode_utf8(sv.label).len() <= u64::MAX,
        sv.share.len() <= u64::MAX,
    ensures
        spec_decode_share(spec_share_body(sv)) == ShareParse::Good(sv),
{
    lemma_share_struct_round_trip(sv);
}

/// The share record layout decodes to the fields it was built from.
pub proof fn lemma_share_struct_round_trip(sv: ShareFileView)
    requires
        sv.wf(),
        encode_utf8(sv.label).len() <= u64::MAX,
        sv.share.len() <= u64::MAX,
    ensures
        spec_decode_share_struct(spec_share_body(sv)) == Option::Some(sv),
{
    lemma_auto_spec_u64_to_from_le_bytes();
    encode_utf8_valid_utf8(sv.label);
    encode_utf8_decode_utf8(sv.label);
    let lab = encode_utf8(sv.label);
    let b = spec_share_body(sv);
    let ll = lab.len() as int;
    let sl = sv.share.len() as int;
    assert(b.len() == 57 + ll + sl);
    assert(b.subrange(1, 9) =~= spec_u64_to_le_bytes(sv.timestamp));
    assert(b.subrange(9, 17) =~= spec_u64_to_le_bytes(lab.len() as u64));
    assert(b.subrange(17, 17 + ll) =~= lab);
    assert(b.subrange(17 + ll, 25 + ll) =~= spec_u64_to_le_bytes(sv.share.len() as u64));
    assert(b.subrange(25 + ll, 25 + ll + sl) =~= sv.share);
    assert(b.subrange(25 + ll + sl, 57 + ll + sl) =~= sv.checksum);
    assert(b[0] == sv.version);
}

/// Metadata of a safe file: what [`inspect_safe_from_path`] shows without
/// touching the ciphertext.
#[derive(Debug)]
pub struct SafeInfo {
    pub version: u8,
    pub timestamp: u64,
    pub label: String,
    pub ciphertext_len: u64,
}

/// Reads a safe file's metadata from its bytes without touching the
/// ciphertext region; `path` only names the source in errors.  A pure
/// reading: the bytes are untouched and equal inputs give equal results,
/// so inspection can be repeated at will.
pub fn inspect_safe_from_path(bytes: &[u8], path: &String) -> (r: Result<SafeInfo, Error>)
    ensures
        match spec_read_header(bytes@) {
            HeaderParse::Good(hv, hlen) => r matches Ok(i) && i.version == hv.version
                && i.timestamp == hv.timestamp && i.label@ == hv.label && i.ciphertext_len
                == hv.ciphertext_len,
            HeaderParse::Incomplete => r matches Err(e) && e == (Error::IncompleteFile {
                path: *path,
            }),
            HeaderParse::BadMagic => r matches Err(e) && e == (Error::InvalidMagic {
                path: *path,
            }),
            HeaderParse::TooBig => r matches Err(e) && e.is_invalid_format_at(*path),
            HeaderParse::Malformed => r matches Err(e) && e.is_invalid_format_at(*path),
            HeaderParse::WrongVersion(v) => r matches Err(e) && e == (Error::UnsupportedVersion {
                path: *path,
                version: v,
            }),
        },
{
    let (header, _hlen) = match read_header(bytes, path) {
        Ok(p) => p,
        Err(e) => {
            return Err(e);
        },
    };
    Ok(
        SafeInfo {
            version: header.version,
            timestamp: header.timestamp,
            label: header.label,
            ciphertext_len: header.ciphertext_len,
        },
    )
}

} // verus!
