use safefile::container::{SafeHeader, ShareFile};
use safefile::error::Error;
use safefile::format::{
    decode_share, encode_share, inspect_safe_from_path, read_header, write_header,
};
use safefile::hash::sha256;
use safefile::ops::encrypt_and_split;
use sha2::Digest;

fn header(version: u8, label: &str) -> SafeHeader {
    SafeHeader {
        version,
        timestamp: 1234567890,
        label: label.to_string(),
        nonce: (0u8..12).collect(),
        ciphertext_len: 4096,
    }
}

#[test]
fn header_round_trips_through_bytes() {
    let h = header(1, "backup of march");
    let mut bytes = Vec::new();
    write_header(&mut bytes, &h).expect("write");
    let (back, hlen) = read_header(&bytes, &"f".to_string()).expect("read");
    assert_eq!(back.version, 1);
    assert_eq!(back.timestamp, 1234567890);
    assert_eq!(back.label, "backup of march");
    assert_eq!(back.nonce, (0u8..12).collect::<Vec<u8>>());
    assert_eq!(back.ciphertext_len, 4096);
    assert_eq!(bytes.len(), 8 + hlen as usize);
}

#[test]
fn container_layout_is_exact() {
    let h = header(1, "");
    let mut bytes = Vec::new();
    write_header(&mut bytes, &h).expect("write");
    assert_eq!(&bytes[0..4], b"SFIL");
    // Header body: version(1) timestamp(8) label_len(8) nonce(12) len(8).
    assert_eq!(u32::from_le_bytes(bytes[4..8].try_into().unwrap()), 37);
    assert_eq!(bytes[8], 1);
    assert_eq!(u64::from_le_bytes(bytes[9..17].try_into().unwrap()), 1234567890);
    assert_eq!(u64::from_le_bytes(bytes[17..25].try_into().unwrap()), 0);
    assert_eq!(&bytes[25..37], &(0u8..12).collect::<Vec<u8>>()[..]);
    assert_eq!(u64::from_le_bytes(bytes[37..45].try_into().unwrap()), 4096);
}

#[test]
fn bad_magic_is_rejected() {
    let h = header(1, "");
    let mut bytes = Vec::new();
    write_header(&mut bytes, &h).expect("write");
    bytes[0] = b'X';
    let err = read_header(&bytes, &"f".to_string()).expect_err("magic");
    match err {
        Error::InvalidMagic { path } => assert_eq!(path, "f"),
        other => panic!("unexpected error: {:?}", other),
    }
}

#[test]
fn truncated_header_is_incomplete() {
    let h = header(1, "some label");
    let mut bytes = Vec::new();
    write_header(&mut bytes, &h).expect("write");
    for cut in [0, 3, 7, bytes.len() - 1] {
        let err = read_header(&bytes[..cut], &"f".to_string()).expect_err("truncated");
        assert!(matches!(err, Error::IncompleteFile { .. }), "cut {}: {:?}", cut, err);
    }
}

#[test]
fn oversized_header_length_is_rejected() {
    let mut bytes = b"SFIL".to_vec();
    bytes.extend_from_slice(&(2_000_000u32).to_le_bytes());
    bytes.extend_from_slice(&[0u8; 64]);
    let err = read_header(&bytes, &"f".to_string()).expect_err("ceiling");
    assert!(matches!(err, Error::InvalidFormat { .. }), "{:?}", err);
}

#[test]
fn malformed_header_body_is_rejected() {
    let mut bytes = b"SFIL".to_vec();
    bytes.extend_from_slice(&(10u32).to_le_bytes());
    bytes.extend_from_slice(&[0u8; 10]);
    let err = read_header(&bytes, &"f".to_string()).expect_err("malformed");
    assert!(matches!(err, Error::InvalidFormat { .. }), "{:?}", err);
}

#[test]
fn version_gate_rejects_other_versions() {
    let h = header(2, "");
    let mut bytes = Vec::new();
    write_header(&mut bytes, &h).expect("write");
    let err = read_header(&bytes, &"f".to_string()).expect_err("version");
    match err {
        Error::UnsupportedVersion { path, version } => {
            assert_eq!(path, "f");
            assert_eq!(version, 2);
        },
        other => panic!("unexpected error: {:?}", other),
    }
    let err = inspect_safe_from_path(&bytes, &"f".to_string()).expect_err("version");
    assert!(matches!(err, Error::UnsupportedVersion { version: 2, .. }), "{:?}", err);
}

#[test]
fn share_record_round_trips() {
    let payload = vec![9u8, 8, 7, 6, 5];
    let sf = ShareFile {
        version: 1,
        timestamp: 42,
        label: "доля".to_string(),
        share: payload.clone(),
        checksum: sha256(&payload),
    };
    let bytes = encode_share(&sf);
    let back = decode_share(&bytes, &"share".to_string()).expect("decode");
    assert_eq!(back.version, 1);
    assert_eq!(back.timestamp, 42);
    assert_eq!(back.label, "доля");
    assert_eq!(back.share, payload);
    assert_eq!(back.checksum, sha256(&payload));
}

#[test]
fn share_checksum_is_the_sha256_of_the_payload() {
    let payload = b"payload bytes".to_vec();
    let digest = sha256(&payload);
    assert_eq!(digest.len(), 32);
    // Cross-check the trusted hash against sha2 called directly.
    let expected = sha2::Sha256::digest(&payload);
    assert_eq!(digest, expected.to_vec());
    // And a mismatching stored checksum is refused.
    let mut wrong = digest.clone();
    wrong[0] ^= 1;
    let sf = ShareFile {
        version: 1,
        timestamp: 0,
        label: String::new(),
        share: payload,
        checksum: wrong,
    };
    let bytes = encode_share(&sf);
    let err = decode_share(&bytes, &"p".to_string()).expect_err("checksum");
    match err {
        Error::ShareChecksumMismatch { path } => assert_eq!(path, "p"),
        other => panic!("unexpected error: {:?}", other),
    }
}

#[test]
fn share_version_gate() {
    let payload = vec![1u8, 2, 3];
    let sf = ShareFile {
        version: 9,
        timestamp: 0,
        label: String::new(),
        share: payload.clone(),
        checksum: sha256(&payload),
    };
    let bytes = encode_share(&sf);
    let err = decode_share(&bytes, &"p".to_string()).expect_err("version");
    assert!(matches!(err, Error::UnsupportedVersion { version: 9, .. }), "{:?}", err);
}

#[test]
fn garbage_share_bytes_are_corrupt() {
    let err = decode_share(b"not a share record", &"p".to_string()).expect_err("garbage");
    match err {
        Error::ShareCorrupted { path } => assert_eq!(path, "p"),
        other => panic!("unexpected error: {:?}", other),
    }
}

#[test]
fn inspect_is_idempotent_even_after_failed_decryption() {
    let data = b"inspect me twice".to_vec();
    let res = encrypt_and_split(&data, 3, 2, Some(&"l".to_string()), 99).expect("encrypt");
    let safe = res.safe_file;
    let a = inspect_safe_from_path(&safe, &"s".to_string()).expect("inspect");
    let err = safefile::ops::decrypt_and_reconstruct(&safe, &"s".to_string(), &Vec::new())
        .expect_err("no shares");
    assert!(matches!(err, Error::NotEnoughShares { .. }), "{:?}", err);
    let b = inspect_safe_from_path(&safe, &"s".to_string()).expect("inspect again");
    assert_eq!(a.version, b.version);
    assert_eq!(a.timestamp, b.timestamp);
    assert_eq!(a.label, b.label);
    assert_eq!(a.ciphertext_len, b.ciphertext_len);
    assert_eq!(a.version, 1);
    assert_eq!(a.timestamp, 99);
    assert_eq!(a.label, "l");
    assert_eq!(a.ciphertext_len, data.len() as u64);
}

#[test]
fn label_over_the_ceiling_is_rejected() {
    let big = "x".repeat(1_050_000);
    let h = header(1, &big);
    let mut bytes = Vec::new();
    let err = write_header(&mut bytes, &h).expect_err("too long");
    assert!(matches!(err, Error::InvalidArgument { .. }), "{:?}", err);
    assert!(bytes.is_empty());
}
