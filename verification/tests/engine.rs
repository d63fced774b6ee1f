use aes_gcm::aead::Aead;
use aes_gcm::KeyInit;
use safefile::stream_aes::{decrypt_bytes, encrypt_bytes, Decryptor, Encryptor};

#[test]
fn engine_round_trips_bytes() {
    let key = [0x42u8; 32];
    let nonce = [0x17u8; 12];
    let data: Vec<u8> = (0..100_000u32).map(|i| (i % 256) as u8).collect();
    let (ct, tag) = encrypt_bytes(&key, &nonce, &data);
    assert_eq!(ct.len(), data.len());
    assert_eq!(tag.len(), 16);
    let mut stream = ct.clone();
    stream.extend_from_slice(&tag);
    let pt = decrypt_bytes(&key, &nonce, &stream).expect("tag must check out");
    assert_eq!(pt, data);
}

#[test]
fn engine_matches_the_reference_cipher() {
    // The streaming engine must produce the very bytes that the ordinary
    // one-shot AES-256-GCM implementation produces.
    let key = [7u8; 32];
    let nonce = [9u8; 12];
    let data = b"the quick brown fox jumps over the lazy dog".to_vec();
    let (ct, tag) = encrypt_bytes(&key, &nonce, &data);

    let cipher = aes_gcm::Aes256Gcm::new((&key).into());
    let mut reference = cipher
        .encrypt(aes_gcm::Nonce::from_slice(&nonce), data.as_slice())
        .expect("reference encrypt");
    let ref_tag = reference.split_off(reference.len() - 16);
    assert_eq!(ct, reference);
    assert_eq!(tag, ref_tag);
}

#[test]
fn chunked_feeding_equals_one_shot() {
    let key = [1u8; 32];
    let nonce = [2u8; 12];
    let data: Vec<u8> = (0..5000u32).map(|i| (i * 7 % 256) as u8).collect();
    let (expect_ct, expect_tag) = encrypt_bytes(&key, &nonce, &data);

    let mut enc = Encryptor::new(&key, &nonce);
    let mut ct = Vec::new();
    for chunk in data.chunks(17) {
        ct.extend_from_slice(&enc.update(chunk));
    }
    let (last, tag) = enc.finalize();
    ct.extend_from_slice(&last);
    assert_eq!(ct, expect_ct);
    assert_eq!(tag, expect_tag);

    let mut dec = Decryptor::new(&key, &nonce);
    let mut pt = Vec::new();
    for chunk in ct.chunks(23) {
        pt.extend_from_slice(&dec.update(chunk));
    }
    pt.extend_from_slice(&dec.update(&tag));
    let last = dec.finalize().expect("tag must check out");
    pt.extend_from_slice(&last);
    assert_eq!(pt, data);
}

#[test]
fn a_flipped_tag_fails_finalize() {
    let key = [3u8; 32];
    let nonce = [4u8; 12];
    let data = b"authenticity".to_vec();
    let (ct, mut tag) = encrypt_bytes(&key, &nonce, &data);
    tag[15] ^= 0x01;
    let mut stream = ct;
    stream.extend_from_slice(&tag);
    let err = decrypt_bytes(&key, &nonce, &stream);
    assert!(err.is_err());
}

#[test]
fn different_nonces_differ_in_ciphertext() {
    let key = [5u8; 32];
    let data = b"nonce separation".to_vec();
    let (ct1, _) = encrypt_bytes(&key, &[0u8; 12], &data);
    let (ct2, _) = encrypt_bytes(&key, &[1u8; 12], &data);
    assert_ne!(ct1, ct2);
    assert_ne!(ct1, data, "ciphertext must not be the plaintext");
}
