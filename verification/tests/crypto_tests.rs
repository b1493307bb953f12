use clawbox_core::crypto::{
    decrypt, derive_key, encrypt, encrypt_with_nonce, generate_salt, DerivedKey, EncryptedData,
    KEY_LEN, NONCE_LEN, SALT_LEN, TAG_LEN,
};
use clawbox_core::Error;

#[test]
fn test_encrypt_decrypt() {
    let password = "test-password";
    let salt = generate_salt();
    let key = derive_key(password, &salt).unwrap();

    let plaintext = b"Hello, World!";
    let encrypted = encrypt(plaintext, &key).unwrap();
    let decrypted = decrypt(&encrypted, &key).unwrap();

    assert_eq!(plaintext.as_slice(), decrypted.as_slice());
}

#[test]
fn crypto_test_wrong_password() {
    let salt = generate_salt();
    let key1 = derive_key("password1", &salt).unwrap();
    let key2 = derive_key("password2", &salt).unwrap();

    let plaintext = b"Secret data";
    let encrypted = encrypt(plaintext, &key1).unwrap();

    // Decryption with wrong key should fail
    assert!(decrypt(&encrypted, &key2).is_err());
}

#[test]
fn wrong_key_gives_decryption_error() {
    let key1 = DerivedKey::from_bytes(vec![1u8; 32]);
    let key2 = DerivedKey::from_bytes(vec![2u8; 32]);
    let encrypted = encrypt(b"Secret data", &key1).unwrap();
    assert!(matches!(decrypt(&encrypted, &key2), Err(Error::Decryption(_))));
}

#[test]
fn salt_has_fixed_length_and_varies() {
    let a = generate_salt();
    let b = generate_salt();
    assert_eq!(a.len(), SALT_LEN);
    assert_eq!(b.len(), 32);
    assert_ne!(a, b);
}

#[test]
fn derive_key_is_deterministic_and_depends_on_salt() {
    let salt = vec![7u8; 32];
    let other_salt = vec![8u8; 32];
    let key1 = derive_key("pw", &salt).unwrap();
    let key2 = derive_key("pw", &salt).unwrap();
    let key3 = derive_key("pw", &other_salt).unwrap();
    assert_eq!(key1.to_bytes(), key2.to_bytes());
    assert_ne!(key1.to_bytes(), key3.to_bytes());
    assert_eq!(key1.to_bytes().len(), KEY_LEN);
    assert_ne!(key1.to_bytes(), salt);
}

#[test]
fn derive_key_rejects_short_salt() {
    let result = derive_key("pw", &[1u8, 2, 3, 4, 5, 6, 7]);
    assert!(matches!(result, Err(Error::Encryption(_))));
}

#[test]
fn derive_key_accepts_shortest_salt() {
    assert!(derive_key("", &[0u8; 8]).is_ok());
}

#[test]
fn nonces_are_not_reused() {
    let key = DerivedKey::from_bytes(vec![9u8; 32]);
    let mut seen: Vec<Vec<u8>> = Vec::new();
    for _ in 0..2000 {
        let sealed = encrypt(b"x", &key).unwrap();
        assert_eq!(sealed.nonce.len(), NONCE_LEN);
        assert!(!seen.contains(&sealed.nonce));
        seen.push(sealed.nonce);
    }
}

#[test]
fn ciphertext_is_sealed_and_tagged() {
    let key = DerivedKey::from_bytes(vec![3u8; 32]);
    let plaintext = b"sixteen byte msg";
    let sealed = encrypt(plaintext, &key).unwrap();
    assert_eq!(sealed.ciphertext.len(), plaintext.len() + TAG_LEN);
    assert_ne!(&sealed.ciphertext[..plaintext.len()], plaintext.as_slice());
}

#[test]
fn empty_plaintext_round_trips() {
    let key = DerivedKey::from_bytes(vec![3u8; 32]);
    let sealed = encrypt(b"", &key).unwrap();
    assert_eq!(sealed.ciphertext.len(), 16);
    assert_eq!(decrypt(&sealed, &key).unwrap(), Vec::<u8>::new());
}

#[test]
fn tampered_ciphertext_is_rejected() {
    let key = DerivedKey::from_bytes(vec![3u8; 32]);
    let mut sealed = encrypt(b"payload", &key).unwrap();
    sealed.ciphertext[0] ^= 1;
    assert!(matches!(decrypt(&sealed, &key), Err(Error::Decryption(_))));
}

#[test]
fn nonce_of_wrong_length_is_rejected() {
    let key = DerivedKey::from_bytes(vec![3u8; 32]);
    let sealed = encrypt(b"payload", &key).unwrap();
    let short = EncryptedData { nonce: sealed.nonce[..11].to_vec(), ciphertext: sealed.ciphertext };
    assert!(matches!(decrypt(&short, &key), Err(Error::Decryption(_))));
}

#[test]
fn truncated_ciphertext_is_rejected() {
    let key = DerivedKey::from_bytes(vec![3u8; 32]);
    let sealed = encrypt(b"payload", &key).unwrap();
    let cut = EncryptedData { nonce: sealed.nonce, ciphertext: sealed.ciphertext[..10].to_vec() };
    assert!(matches!(decrypt(&cut, &key), Err(Error::Decryption(_))));
}

#[test]
fn key_from_bytes_pads_and_truncates() {
    let short = DerivedKey::from_bytes(vec![1, 2, 3]);
    let mut expected = vec![0u8; 32];
    expected[0] = 1;
    expected[1] = 2;
    expected[2] = 3;
    assert_eq!(short.to_bytes(), expected);

    let long: Vec<u8> = (0u8..40).collect();
    let cut = DerivedKey::from_bytes(long.clone());
    assert_eq!(cut.to_bytes(), long[..32].to_vec());

    let empty = DerivedKey::from_bytes(Vec::new());
    assert_eq!(empty.to_bytes(), vec![0u8; 32]);
}

#[test]
fn blob_is_nonce_then_ciphertext() {
    let envelope = EncryptedData { nonce: vec![1u8; 12], ciphertext: vec![2u8; 20] };
    let blob = envelope.to_blob();
    assert_eq!(blob.len(), 32);
    assert_eq!(&blob[..12], &[1u8; 12]);
    assert_eq!(&blob[12..], &[2u8; 20]);
    let back = EncryptedData::from_blob(&blob).unwrap();
    assert_eq!(back.nonce, vec![1u8; 12]);
    assert_eq!(back.ciphertext, vec![2u8; 20]);
}

#[test]
fn blob_shorter_than_a_nonce_is_malformed() {
    assert!(EncryptedData::from_blob(&[0u8; 11]).is_none());
    assert!(EncryptedData::from_blob(&[]).is_none());
    let exact = EncryptedData::from_blob(&[5u8; 12]).unwrap();
    assert_eq!(exact.nonce, vec![5u8; 12]);
    assert!(exact.ciphertext.is_empty());
}

#[test]
fn round_trip_for_several_messages() {
    let key = derive_key("round-trip", &[4u8; 16]).unwrap();
    for message in [&b""[..], &b"a"[..], &b"hello world"[..], &[0u8; 1000][..]] {
        let sealed = encrypt(message, &key).unwrap();
        assert_eq!(decrypt(&sealed, &key).unwrap(), message.to_vec());
    }
}

fn hex(bytes: &[u8]) -> String {
    bytes.iter().map(|b| format!("{:02x}", b)).collect()
}

#[test]
fn sealing_under_a_given_nonce_is_aes_256_gcm() {
    let key = DerivedKey::from_bytes(vec![0u8; 32]);
    let sealed = encrypt_with_nonce(b"", &key, vec![0u8; 12]).unwrap();
    assert_eq!(sealed.nonce, vec![0u8; 12]);
    assert_eq!(hex(&sealed.ciphertext), "530f8afbc74536b9a963b4f1c4cb738b");

    let sealed = encrypt_with_nonce(&[0u8; 16], &key, vec![0u8; 12]).unwrap();
    assert_eq!(
        hex(&sealed.ciphertext),
        "cea7403d4d606b6e074ec5d3baf39d18d0d1c8a799996bf0265b98b5d48ab919"
    );
    assert_eq!(decrypt(&sealed, &key).unwrap(), vec![0u8; 16]);
}

#[test]
fn sealing_depends_on_key_and_nonce() {
    let key = DerivedKey::from_bytes(vec![0u8; 32]);
    let other = DerivedKey::from_bytes(vec![1u8; 32]);
    let a = encrypt_with_nonce(b"message", &key, vec![0u8; 12]).unwrap();
    let b = encrypt_with_nonce(b"message", &key, vec![1u8; 12]).unwrap();
    let c = encrypt_with_nonce(b"message", &other, vec![0u8; 12]).unwrap();
    let d = encrypt_with_nonce(b"message", &key, vec![0u8; 12]).unwrap();
    assert_ne!(a.ciphertext, b.ciphertext);
    assert_ne!(a.ciphertext, c.ciphertext);
    assert_eq!(a.ciphertext, d.ciphertext);
}

#[test]
fn sealing_refuses_a_nonce_of_wrong_length() {
    let key = DerivedKey::from_bytes(vec![0u8; 32]);
    assert!(matches!(encrypt_with_nonce(b"m", &key, vec![0u8; 11]), Err(Error::Encryption(_))));
    assert!(matches!(encrypt_with_nonce(b"m", &key, vec![0u8; 13]), Err(Error::Encryption(_))));
    assert!(matches!(encrypt_with_nonce(b"m", &key, Vec::new()), Err(Error::Encryption(_))));
}
