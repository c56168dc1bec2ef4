use audire::crypto::{
    aead_open, aead_seal, derive_kek, mint_recovery_envelope, new_identity_keypair, new_vault_key, open_recovery_envelope,
    open_sealed, random_array, random_bytes, seal_for_recipient, CryptoError, KekMaterial,
};

#[test]
fn argon2_round_trip() {
    let salt = random_bytes(16).unwrap();
    let a = derive_kek("hunter2-correct-horse", &salt).unwrap();
    let b = derive_kek("hunter2-correct-horse", &salt).unwrap();
    assert_eq!(a.0, b.0);
    let c = derive_kek("different", &salt).unwrap();
    assert_ne!(a.0, c.0);
}

#[test]
fn aead_round_trip() {
    let key = random_array::<32>().unwrap();
    let blob = aead_seal(&key, b"hello world", b"meta").unwrap();
    let pt = aead_open(&key, &blob, b"meta").unwrap();
    assert_eq!(pt, b"hello world");
    assert!(aead_open(&key, &blob, b"different aad").is_err());
}

#[test]
fn sealed_box_round_trip() {
    let kp = new_identity_keypair().unwrap();
    let blob = seal_for_recipient(&kp.public, b"vault key bytes").unwrap();
    let opened = open_sealed(&kp.secret, &blob).unwrap();
    assert_eq!(opened, b"vault key bytes");
}

#[test]
fn recovery_round_trip() {
    let kek = KekMaterial(random_array::<32>().unwrap());
    let kek_copy = kek.0;
    let (hex, blob) = mint_recovery_envelope(&kek).unwrap();
    let recovered = open_recovery_envelope(&hex, &blob).unwrap();
    assert_eq!(recovered.0, kek_copy);
}

#[test]
fn random_bytes_have_the_requested_length() {
    assert_eq!(random_bytes(0).unwrap().len(), 0);
    assert_eq!(random_bytes(16).unwrap().len(), 16);
}

#[test]
fn short_salt_is_refused() {
    assert!(matches!(derive_kek("pw", b"1234567"), Err(CryptoError::Argon2SaltTooShort)));
    assert!(derive_kek("pw", b"12345678").is_ok());
}

#[test]
fn sealed_blob_is_nonce_then_ciphertext_and_tag() {
    let key = random_array::<32>().unwrap();
    let blob = aead_seal(&key, b"abc", b"").unwrap();
    assert_eq!(blob.len(), 24 + 3 + 16);
}

#[test]
fn truncated_blobs_do_not_open() {
    let key = random_array::<32>().unwrap();
    assert!(matches!(aead_open(&key, &[0u8; 10], b""), Err(CryptoError::AeadBlobTooShort)));
    let kp = new_identity_keypair().unwrap();
    assert!(matches!(open_sealed(&kp.secret, &[0u8; 20]), Err(CryptoError::SealedBlobTooShort)));
}

#[test]
fn tampered_blob_does_not_open() {
    let key = random_array::<32>().unwrap();
    let mut blob = aead_seal(&key, b"payload", b"aad").unwrap();
    let last = blob.len() - 1;
    blob[last] ^= 1;
    assert!(matches!(aead_open(&key, &blob, b"aad"), Err(CryptoError::Open)));
}

#[test]
fn another_recipient_cannot_open_a_sealed_box() {
    let alice = new_identity_keypair().unwrap();
    let bob = new_identity_keypair().unwrap();
    let blob = seal_for_recipient(&alice.public, b"secret").unwrap();
    assert!(open_sealed(&bob.secret, &blob).is_err());
}

#[test]
fn recovery_key_must_be_hex_of_32_bytes() {
    let kek = KekMaterial([7u8; 32]);
    let (hex, blob) = mint_recovery_envelope(&kek).unwrap();
    assert_eq!(hex.len(), 64);
    assert!(matches!(open_recovery_envelope("zz", &blob), Err(CryptoError::RecoveryHex)));
    assert!(matches!(open_recovery_envelope("abcd", &blob), Err(CryptoError::RecoveryKeyLength)));
    let padded = format!("  {}\n", hex);
    assert_eq!(open_recovery_envelope(&padded, &blob).unwrap().0, [7u8; 32]);
}

#[test]
fn vault_keys_differ() {
    let a = new_vault_key().unwrap();
    let b = new_vault_key().unwrap();
    assert_ne!(a.0, b.0);
}

#[test]
fn crypto_error_texts() {
    assert_eq!(CryptoError::Rng.message(), "system rng fill failed");
    assert_eq!(CryptoError::RecoveryKeyLength.message(), "recovery key must be 32 bytes");
    assert_eq!(CryptoError::SealedBlobTooShort.message(), "sealed blob too short");
    assert_eq!(CryptoError::AeadBlobTooShort.message(), "aead blob too short");
    assert_eq!(CryptoError::Argon2SaltTooShort.message(), "argon2 derive: salt is too short");
}
