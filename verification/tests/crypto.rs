use backuptool::crypto::{
    decrypt, decrypt_handles, derive_key, encrypt, encrypt_handles, random_salt, Cipher, CHACHA_MAX_LEN,
    DEFAULT_M_COST, DEFAULT_P_COST, DEFAULT_T_COST, NONCE_LEN, TAG_LEN,
};
use backuptool::error::BackupError;

#[test]
fn roundtrip_aes() {
    let key = [7u8; 32];
    let blob = encrypt(Cipher::Aes256Gcm, &key, b"hello world").unwrap();
    assert_eq!(decrypt(Cipher::Aes256Gcm, &key, &blob).unwrap(), b"hello world");
}

#[test]
fn roundtrip_chacha() {
    let key = [9u8; 32];
    let blob = encrypt(Cipher::ChaCha20Poly1305, &key, b"data").unwrap();
    assert_eq!(decrypt(Cipher::ChaCha20Poly1305, &key, &blob).unwrap(), b"data");
}

#[test]
fn wrong_key_fails() {
    let blob = encrypt(Cipher::Aes256Gcm, &[1u8; 32], b"x").unwrap();
    assert!(decrypt(Cipher::Aes256Gcm, &[2u8; 32], &blob).is_err());
}

#[test]
fn parse_names() {
    assert_eq!(Cipher::parse("aes256gcm").unwrap(), Cipher::Aes256Gcm);
    assert_eq!(Cipher::parse("none").unwrap(), Cipher::Plain);
    assert!(Cipher::parse("bogus").is_err());
}

#[test]
fn derive_key_is_deterministic() {
    let salt = [3u8; 16];
    let a = derive_key("pw", &salt, DEFAULT_M_COST, DEFAULT_T_COST, DEFAULT_P_COST).unwrap();
    let b = derive_key("pw", &salt, DEFAULT_M_COST, DEFAULT_T_COST, DEFAULT_P_COST).unwrap();
    assert_eq!(a, b);
}

#[test]
fn parse_ignores_case_space_and_takes_aliases() {
    assert_eq!(Cipher::parse("  AES-256-GCM ").unwrap(), Cipher::Aes256Gcm);
    assert_eq!(Cipher::parse("aes").unwrap(), Cipher::Aes256Gcm);
    assert_eq!(Cipher::parse("ChaCha").unwrap(), Cipher::ChaCha20Poly1305);
    assert_eq!(Cipher::parse("chacha20").unwrap(), Cipher::ChaCha20Poly1305);
    assert_eq!(Cipher::parse("chacha20poly1305").unwrap(), Cipher::ChaCha20Poly1305);
    assert_eq!(Cipher::parse("").unwrap(), Cipher::Plain);
    match Cipher::parse(" Bogus ") {
        Err(BackupError::UnknownCipher(s)) => assert_eq!(s, "bogus"),
        _ => panic!("expected an unknown-cipher error"),
    }
    // text beyond ASCII is lower-cased by the Unicode rules
    match Cipher::parse("ÄES") {
        Err(BackupError::UnknownCipher(s)) => assert_eq!(s, "äes"),
        _ => panic!("expected an unknown-cipher error"),
    }
}

#[test]
fn names_parse_back() {
    for c in [Cipher::Plain, Cipher::Aes256Gcm, Cipher::ChaCha20Poly1305] {
        assert_eq!(Cipher::parse(c.name()).unwrap(), c);
    }
    assert_eq!(Cipher::Plain.name(), "none");
    assert_eq!(Cipher::Aes256Gcm.name(), "aes256gcm");
    assert_eq!(Cipher::ChaCha20Poly1305.name(), "chacha20poly1305");
}

#[test]
fn blob_is_nonce_then_sealed_text() {
    let key = [5u8; 32];
    let pt = b"some plaintext bytes";
    for c in [Cipher::Aes256Gcm, Cipher::ChaCha20Poly1305] {
        let blob = encrypt(c, &key, pt).unwrap();
        assert_eq!(blob.len(), NONCE_LEN + pt.len() + TAG_LEN);
        // the sealed text is not the plaintext handed back
        assert_ne!(&blob[NONCE_LEN..NONCE_LEN + pt.len()], &pt[..]);
    }
}

#[test]
fn fresh_nonce_each_time() {
    let key = [5u8; 32];
    let a = encrypt(Cipher::Aes256Gcm, &key, b"same").unwrap();
    let b = encrypt(Cipher::Aes256Gcm, &key, b"same").unwrap();
    assert_ne!(a, b);
    assert_eq!(decrypt(Cipher::Aes256Gcm, &key, &a).unwrap(), b"same");
    assert_eq!(decrypt(Cipher::Aes256Gcm, &key, &b).unwrap(), b"same");
}

#[test]
fn empty_plaintext_roundtrips() {
    let key = [4u8; 32];
    let blob = encrypt(Cipher::ChaCha20Poly1305, &key, b"").unwrap();
    assert_eq!(blob.len(), NONCE_LEN + TAG_LEN);
    assert_eq!(decrypt(Cipher::ChaCha20Poly1305, &key, &blob).unwrap(), b"");
}

#[test]
fn plain_cipher_is_refused() {
    let key = [0u8; 32];
    assert!(matches!(encrypt(Cipher::Plain, &key, b"x"), Err(BackupError::EncryptNoCipher)));
    assert!(matches!(decrypt(Cipher::Plain, &key, &[0u8; 40]), Err(BackupError::DecryptNoCipher)));
}

#[test]
fn short_blob_is_refused() {
    let key = [0u8; 32];
    assert!(matches!(decrypt(Cipher::Aes256Gcm, &key, &[0u8; 11]), Err(BackupError::BlobTooShort)));
}

#[test]
fn tampered_blob_fails_authentication() {
    let key = [8u8; 32];
    let mut blob = encrypt(Cipher::ChaCha20Poly1305, &key, b"payload").unwrap();
    let last = blob.len() - 1;
    blob[last] ^= 1;
    assert!(matches!(decrypt(Cipher::ChaCha20Poly1305, &key, &blob), Err(BackupError::DecryptFailed)));
}

#[test]
fn cipher_mismatch_fails() {
    let key = [8u8; 32];
    let blob = encrypt(Cipher::Aes256Gcm, &key, b"payload").unwrap();
    assert!(decrypt(Cipher::ChaCha20Poly1305, &key, &blob).is_err());
}

#[test]
fn derive_key_depends_on_password_and_salt() {
    let a = derive_key("pw", &[3u8; 16], DEFAULT_M_COST, DEFAULT_T_COST, DEFAULT_P_COST).unwrap();
    let b = derive_key("pw2", &[3u8; 16], DEFAULT_M_COST, DEFAULT_T_COST, DEFAULT_P_COST).unwrap();
    let c = derive_key("pw", &[4u8; 16], DEFAULT_M_COST, DEFAULT_T_COST, DEFAULT_P_COST).unwrap();
    assert_ne!(a, b);
    assert_ne!(a, c);
}

#[test]
fn derive_key_rejects_bad_costs_and_short_salt() {
    assert!(matches!(derive_key("pw", &[3u8; 16], 1, DEFAULT_T_COST, DEFAULT_P_COST), Err(BackupError::KdfParams)));
    assert!(matches!(derive_key("pw", &[3u8; 16], DEFAULT_M_COST, 0, DEFAULT_P_COST), Err(BackupError::KdfParams)));
    assert!(matches!(derive_key("pw", &[3u8; 16], DEFAULT_M_COST, DEFAULT_T_COST, 0), Err(BackupError::KdfParams)));
    assert!(matches!(derive_key("pw", &[3u8; 4], DEFAULT_M_COST, DEFAULT_T_COST, DEFAULT_P_COST), Err(BackupError::Kdf)));
}

#[test]
fn salts_are_random() {
    let a = random_salt().unwrap();
    let b = random_salt().unwrap();
    assert_eq!(a.len(), 16);
    assert_ne!(a, b);
}

#[test]
fn chacha_length_band_is_refused_up_front() {
    assert!(encrypt_handles(Cipher::ChaCha20Poly1305, 1 << 20));
    assert!(encrypt_handles(Cipher::Aes256Gcm, usize::MAX));
    if usize::BITS == 64 {
        let limit = CHACHA_MAX_LEN as usize;
        assert!(encrypt_handles(Cipher::ChaCha20Poly1305, limit));
        assert!(!encrypt_handles(Cipher::ChaCha20Poly1305, limit + 1));
        assert!(!encrypt_handles(Cipher::ChaCha20Poly1305, limit + 63));
        assert!(encrypt_handles(Cipher::ChaCha20Poly1305, limit + 64));
        assert!(encrypt_handles(Cipher::ChaCha20Poly1305, 0xFFFF_FFFF * 64));
        assert!(decrypt_handles(Cipher::ChaCha20Poly1305, limit + NONCE_LEN + TAG_LEN));
        assert!(!decrypt_handles(Cipher::ChaCha20Poly1305, limit + 1 + NONCE_LEN + TAG_LEN));
    }
    assert!(decrypt_handles(Cipher::ChaCha20Poly1305, 5));
    assert!(decrypt_handles(Cipher::Aes256Gcm, usize::MAX));
}
