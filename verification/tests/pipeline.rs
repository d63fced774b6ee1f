use safefile::error::Error;
use safefile::ops::{decrypt_and_reconstruct, encrypt_and_split};
use safefile::shamir::reconstruct_key;

fn split(
    data: &[u8],
    shares: u8,
    threshold: u8,
    label: Option<&String>,
) -> (Vec<u8>, Vec<Vec<u8>>) {
    let res = encrypt_and_split(data, shares, threshold, label, 1700000000).expect("encrypt");
    (res.safe_file, res.share_files)
}

fn named(shares: &[Vec<u8>]) -> Vec<(String, Vec<u8>)> {
    shares
        .iter()
        .enumerate()
        .map(|(i, s)| (format!("share_{:03}.bin", i + 1), s.clone()))
        .collect()
}

#[test]
fn round_trip_with_all_shares() {
    let data = b"attack at dawn, retreat at dusk".to_vec();
    let (safe, shares) = split(&data, 5, 3, None);
    let res = decrypt_and_reconstruct(&safe, &"safe.bin".to_string(), &named(&shares))
        .expect("decrypt");
    assert_eq!(res.output, data);
    assert_eq!(res.info.version, 1);
    assert_eq!(res.info.timestamp, 1700000000);
    assert_eq!(res.info.label, "");
    assert_eq!(res.info.ciphertext_len, data.len() as u64);
}

#[test]
fn round_trip_with_each_threshold_subset() {
    let data = b"threshold subsets".to_vec();
    let (safe, shares) = split(&data, 4, 2, None);
    for i in 0..4 {
        for j in 0..4 {
            if i == j {
                continue;
            }
            let subset = vec![shares[i].clone(), shares[j].clone()];
            let res = decrypt_and_reconstruct(&safe, &"s".to_string(), &named(&subset))
                .expect("any two shares should do, in any order");
            assert_eq!(res.output, data);
        }
    }
}

#[test]
fn round_trip_empty_plaintext() {
    let data: Vec<u8> = Vec::new();
    let (safe, shares) = split(&data, 3, 2, None);
    let res =
        decrypt_and_reconstruct(&safe, &"s".to_string(), &named(&shares)).expect("decrypt");
    assert_eq!(res.output, data);
    assert_eq!(res.info.ciphertext_len, 0);
}

#[test]
fn round_trip_with_label() {
    let data = b"labelled".to_vec();
    let label = "метка секрета".to_string();
    let (safe, shares) = split(&data, 3, 2, Some(&label));
    let res =
        decrypt_and_reconstruct(&safe, &"s".to_string(), &named(&shares)).expect("decrypt");
    assert_eq!(res.output, data);
    assert_eq!(res.info.label, label);
}

#[test]
fn ten_mib_five_shares_threshold_three() {
    let mut data = vec![0u8; 10 * 1024 * 1024];
    for (i, b) in data.iter_mut().enumerate() {
        *b = (i % 251) as u8;
    }
    let res = encrypt_and_split(&data, 5, 3, None, 1700000000).expect("encrypt");
    assert_eq!(res.share_files.len(), 5);
    assert_eq!(res.info.ciphertext_len, 10 * 1024 * 1024);

    let subset = vec![
        res.share_files[0].clone(),
        res.share_files[2].clone(),
        res.share_files[4].clone(),
    ];
    let out = decrypt_and_reconstruct(&res.safe_file, &"s".to_string(), &named(&subset))
        .expect("decrypt with three of five");
    assert_eq!(out.output, data);

    let two = vec![res.share_files[1].clone(), res.share_files[3].clone()];
    let err = decrypt_and_reconstruct(&res.safe_file, &"s".to_string(), &named(&two))
        .expect_err("two of five must not reconstruct");
    assert!(matches!(err, Error::ShareVerificationFailed { .. }), "{:?}", err);
}

#[test]
fn insufficient_shares_never_reconstruct() {
    let data = b"secret".to_vec();
    let (safe, shares) = split(&data, 3, 3, None);
    for keep in 0..3 {
        let mut subset = shares.clone();
        subset.remove(keep);
        let err = decrypt_and_reconstruct(&safe, &"s".to_string(), &named(&subset))
            .expect_err("two of three must fail");
        assert!(matches!(err, Error::ShareVerificationFailed { .. }), "{:?}", err);
    }
}

#[test]
fn no_shares_at_all() {
    let err = reconstruct_key(&Vec::new()).expect_err("nothing to reconstruct from");
    match err {
        Error::NotEnoughShares { provided, required } => {
            assert_eq!(provided, 0);
            assert_eq!(required, 1);
        },
        other => panic!("unexpected error: {:?}", other),
    }
}

#[test]
fn ciphertext_tampering_is_detected_at_every_position() {
    let data = b"do not touch a single byte of this".to_vec();
    let (safe, shares) = split(&data, 3, 2, None);
    let files = named(&shares);
    let crypto_region = safe.len() - data.len() - 16..safe.len();
    for i in crypto_region {
        let mut bad = safe.clone();
        bad[i] ^= 0x01;
        let err = decrypt_and_reconstruct(&bad, &"s".to_string(), &files)
            .expect_err("tampered byte must be caught");
        assert!(matches!(err, Error::InvalidAuthenticationTag), "byte {}: {:?}", i, err);
    }
}

#[test]
fn share_payload_tampering_is_detected_at_every_position() {
    let data = b"share integrity".to_vec();
    let (safe, shares) = split(&data, 3, 2, None);
    // A share record trails with its 32-byte checksum; everything between
    // the fixed fields and the checksum includes the payload.
    let record = &shares[0];
    let payload_region = 25..record.len() - 32;
    for i in payload_region {
        let mut bad = shares.clone();
        bad[0][i] ^= 0xff;
        let files = named(&bad);
        let err = decrypt_and_reconstruct(&safe, &"s".to_string(), &files)
            .expect_err("tampered share must be caught");
        match err {
            Error::ShareChecksumMismatch { path } => assert_eq!(path, "share_001.bin"),
            other => panic!("byte {}: unexpected error: {:?}", i, other),
        }
    }
}

#[test]
fn share_checksum_tampering_is_detected() {
    let data = b"checksum region".to_vec();
    let (safe, shares) = split(&data, 3, 2, None);
    let last = shares[1].len() - 1;
    let mut bad = shares.clone();
    bad[1][last] ^= 0x80;
    let err = decrypt_and_reconstruct(&safe, &"s".to_string(), &named(&bad))
        .expect_err("tampered checksum must be caught");
    match err {
        Error::ShareChecksumMismatch { path } => assert_eq!(path, "share_002.bin"),
        other => panic!("unexpected error: {:?}", other),
    }
}

#[test]
fn first_bad_share_decides_the_error() {
    let data = b"ordering".to_vec();
    let (safe, shares) = split(&data, 3, 2, None);
    let mut bad = shares.clone();
    let n1 = bad[1].len();
    let n2 = bad[2].len();
    bad[1][n1 - 1] ^= 1;
    bad[2][n2 - 1] ^= 1;
    let err = decrypt_and_reconstruct(&safe, &"s".to_string(), &named(&bad))
        .expect_err("tampered shares must be caught");
    match err {
        Error::ShareChecksumMismatch { path } => assert_eq!(path, "share_002.bin"),
        other => panic!("unexpected error: {:?}", other),
    }
}

#[test]
fn size_mismatch_is_detected() {
    let data = b"size matters".to_vec();
    let (safe, shares) = split(&data, 3, 2, None);
    let files = named(&shares);

    let mut truncated = safe.clone();
    truncated.pop();
    let err = decrypt_and_reconstruct(&truncated, &"s".to_string(), &files)
        .expect_err("truncated file must be caught");
    match err {
        Error::InvalidFormat { path, details } => {
            assert_eq!(path, "s");
            assert_eq!(details, "file size mismatch");
        },
        other => panic!("unexpected error: {:?}", other),
    }

    let mut extended = safe.clone();
    extended.push(0);
    let err = decrypt_and_reconstruct(&extended, &"s".to_string(), &files)
        .expect_err("oversized file must be caught");
    assert!(matches!(err, Error::InvalidFormat { .. }), "{:?}", err);
}

#[test]
fn threshold_arguments_are_gated() {
    let data = b"args".to_vec();
    let err = encrypt_and_split(&data, 5, 0, None, 0).expect_err("zero threshold");
    assert!(matches!(err, Error::InvalidArgument { .. }), "{:?}", err);
    let err = encrypt_and_split(&data, 3, 4, None, 0).expect_err("threshold above shares");
    assert!(matches!(err, Error::InvalidArgument { .. }), "{:?}", err);
}

#[test]
fn single_share_split_is_refused_by_the_scheme() {
    let data = b"lonely".to_vec();
    let err = encrypt_and_split(&data, 1, 1, None, 0).expect_err("one share in all");
    assert!(matches!(err, Error::SharingFailed { .. }), "{:?}", err);
}

#[test]
fn threshold_one_reconstructs_from_one_share() {
    let data = b"one is enough".to_vec();
    let (safe, shares) = split(&data, 3, 1, None);
    let one = vec![shares[2].clone()];
    let res = decrypt_and_reconstruct(&safe, &"s".to_string(), &named(&one)).expect("decrypt");
    assert_eq!(res.output, data);
}

#[test]
fn mixed_splits_fail_verification() {
    let data = b"mix and match".to_vec();
    let (safe, shares_a) = split(&data, 3, 2, None);
    let (_, shares_b) = split(&data, 3, 2, None);
    let mixed = vec![shares_a[0].clone(), shares_b[1].clone()];
    let err = decrypt_and_reconstruct(&safe, &"s".to_string(), &named(&mixed))
        .expect_err("shares of different splits must not combine");
    // Independent splits draw independent x-coordinates: usually the mix
    // fails the scheme's consistency check, but colliding x-coordinates
    // are refused before the scheme sees them.
    assert!(
        matches!(
            err,
            Error::ShareVerificationFailed { .. } | Error::OtherShareReconstructionError { .. }
        ),
        "{:?}",
        err
    );
}

#[test]
fn duplicate_shares_are_refused() {
    let data = b"one share twice is still one share".to_vec();
    let (safe, shares) = split(&data, 3, 2, None);
    let twice = vec![shares[0].clone(), shares[0].clone()];
    let err = decrypt_and_reconstruct(&safe, &"s".to_string(), &named(&twice))
        .expect_err("a repeated share must not count twice");
    assert!(matches!(err, Error::OtherShareReconstructionError { .. }), "{:?}", err);

    let err = reconstruct_key(&named(&vec![
        shares[1].clone(),
        shares[2].clone(),
        shares[1].clone(),
    ]))
    .expect_err("a repeated share among sound ones is refused");
    assert!(matches!(err, Error::OtherShareReconstructionError { .. }), "{:?}", err);
}

#[test]
fn wrong_length_key_is_an_internal_error() {
    // Shares of a 16-byte secret reconstruct consistently, but the engine
    // demands a 32-byte key.
    let secret = [7u8; 16];
    let payloads = sss_rs::wrapped_sharing::share(secret, 2, 3, true).expect("share");
    let records: Vec<Vec<u8>> = payloads
        .iter()
        .map(|p| {
            let sf = safefile::container::ShareFile {
                version: 1,
                timestamp: 0,
                label: String::new(),
                share: p.clone(),
                checksum: safefile::hash::sha256(p),
            };
            safefile::format::encode_share(&sf)
        })
        .collect();
    let data = b"whatever".to_vec();
    let (safe, _) = split(&data, 3, 2, None);
    let err = decrypt_and_reconstruct(&safe, &"s".to_string(), &named(&records))
        .expect_err("a 16-byte key must be refused");
    assert!(matches!(err, Error::InternalError { .. }), "{:?}", err);
}

#[test]
fn inconsistent_share_lengths_are_reported() {
    let secret_a = [1u8; 32];
    let secret_b = [2u8; 16];
    let pa = sss_rs::wrapped_sharing::share(secret_a, 2, 2, true).expect("share");
    let pb = sss_rs::wrapped_sharing::share(secret_b, 2, 2, true).expect("share");
    let make = |p: &Vec<u8>| {
        let sf = safefile::container::ShareFile {
            version: 1,
            timestamp: 0,
            label: String::new(),
            share: p.clone(),
            checksum: safefile::hash::sha256(p),
        };
        safefile::format::encode_share(&sf)
    };
    let records = vec![make(&pa[0]), make(&pb[1])];
    let err = reconstruct_key(&named(&records)).expect_err("lengths differ");
    assert!(matches!(err, Error::OtherShareReconstructionError { .. }), "{:?}", err);
}

#[test]
fn wrong_key_fails_authentication() {
    let data = b"two different safes".to_vec();
    let (safe_a, _shares_a) = split(&data, 3, 2, None);
    let (_safe_b, shares_b) = split(&data, 3, 2, None);
    let err = decrypt_and_reconstruct(&safe_a, &"s".to_string(), &named(&shares_b))
        .expect_err("the other safe's key must not authenticate");
    assert!(matches!(err, Error::InvalidAuthenticationTag), "{:?}", err);
}

#[test]
fn each_encryption_draws_fresh_randomness() {
    let data = b"same plaintext, fresh key and nonce".to_vec();
    let (safe_a, _) = split(&data, 3, 2, None);
    let (safe_b, _) = split(&data, 3, 2, None);
    assert_ne!(safe_a, safe_b, "two encryptions must never share key and nonce");
}
