use base64::engine::general_purpose::STANDARD;
use base64::Engine;
use noc_lens::crypto::{
    created_key, decrypt, encrypt, encrypt_with_drawn_nonce, encrypt_with_nonce, master_key_from_env,
    master_key_from_keyring, to_key_array, KeyringKey, StoredKey,
};

fn test_key() -> [u8; 32] {
    master_key_from_env(&STANDARD.encode([7u8; 32])).unwrap()
}

#[test]
fn encrypt_then_decrypt_roundtrip() {
    let key = test_key();
    let secret = "P@ssw0rd-測試";
    let enc = encrypt(&key, secret).unwrap();
    assert_ne!(enc, secret.as_bytes());
    let dec = decrypt(&key, &enc).unwrap();
    assert_eq!(dec, secret);
}

#[test]
fn ciphertext_differs_each_time() {
    let key = test_key();
    let a = encrypt(&key, "same").unwrap();
    let b = encrypt(&key, "same").unwrap();
    assert_ne!(a, b, "nonce 應使每次密文不同");
}

#[test]
fn env_key_is_decoded_and_trimmed() {
    let k = master_key_from_env(&format!("  {}\n", STANDARD.encode([7u8; 32]))).unwrap();
    assert_eq!(k, [7u8; 32]);
}

#[test]
fn env_key_of_wrong_length_is_refused() {
    let e = master_key_from_env(&STANDARD.encode([1u8; 16])).unwrap_err();
    assert_eq!(e.code(), "CRYPTO_ERROR");
    assert_eq!(e.message(), "加密錯誤：主金鑰長度需為 32 位元組，實際為 16");
}

#[test]
fn env_key_that_is_not_base64_is_refused() {
    let e = master_key_from_env("***").unwrap_err();
    assert_eq!(e.code(), "CRYPTO_ERROR");
    assert!(e.message().starts_with("加密錯誤：主金鑰 base64 解析失敗："));
}

#[test]
fn key_array_needs_exactly_32_bytes() {
    assert_eq!(to_key_array(&[3u8; 32]).unwrap(), [3u8; 32]);
    assert_eq!(to_key_array(&[3u8; 31]).unwrap_err().code(), "CRYPTO_ERROR");
}

#[test]
fn sealed_layout_is_nonce_then_ciphertext_and_tag() {
    let key = [9u8; 32];
    let nonce = [5u8; 12];
    let out = encrypt_with_nonce(&key, &nonce, "abc").unwrap();
    assert_eq!(out.len(), 12 + 3 + 16);
    assert_eq!(&out[..12], &nonce[..]);
    assert_eq!(decrypt(&key, &out).unwrap(), "abc");
}

#[test]
fn decrypt_rejects_short_or_tampered_data() {
    let key = [9u8; 32];
    let e = decrypt(&key, &[0u8; 5]).unwrap_err();
    assert_eq!(e.message(), "加密錯誤：密文長度不足");
    let mut out = encrypt(&key, "abc").unwrap();
    let last = out.len() - 1;
    out[last] ^= 1;
    assert_eq!(decrypt(&key, &out).unwrap_err().code(), "CRYPTO_ERROR");
    let other = [8u8; 32];
    let good = encrypt(&key, "abc").unwrap();
    assert_eq!(decrypt(&other, &good).unwrap_err().code(), "CRYPTO_ERROR");
}

#[test]
fn keyring_key_existing_missing_and_failed() {
    match master_key_from_keyring(StoredKey::Found(STANDARD.encode([4u8; 32]))).unwrap() {
        KeyringKey::Existing(k) => assert_eq!(k, [4u8; 32]),
        other => panic!("unexpected {:?}", other),
    }
    match master_key_from_keyring(StoredKey::Missing).unwrap() {
        KeyringKey::Created { key, encoded } => {
            assert_eq!(STANDARD.decode(encoded.as_bytes()).unwrap(), key.to_vec());
        }
        other => panic!("unexpected {:?}", other),
    }
    let e = master_key_from_keyring(StoredKey::Failed("locked".to_string())).unwrap_err();
    assert_eq!(e.code(), "KEYRING_ERROR");
    assert_eq!(e.message(), "金鑰庫錯誤：locked");
}

#[test]
fn created_key_is_read_back_as_the_same_key() {
    let k = [0xABu8; 32];
    let encoded = match created_key(Ok(k)).unwrap() {
        KeyringKey::Created { key, encoded } => {
            assert_eq!(key, k);
            encoded
        }
        other => panic!("unexpected {:?}", other),
    };
    match master_key_from_keyring(StoredKey::Found(encoded)).unwrap() {
        KeyringKey::Existing(read) => assert_eq!(read, k),
        other => panic!("unexpected {:?}", other),
    }
}

#[test]
fn random_source_failure_is_a_crypto_error() {
    let e = created_key(Err("entropy unavailable".to_string())).unwrap_err();
    assert_eq!(e.message(), "加密錯誤：entropy unavailable");
    let e = encrypt_with_drawn_nonce(&[1u8; 32], Err("entropy unavailable".to_string()), "abc").unwrap_err();
    assert_eq!(e.code(), "CRYPTO_ERROR");
    let out = encrypt_with_drawn_nonce(&[1u8; 32], Ok([2u8; 12]), "abc").unwrap();
    assert_eq!(out, encrypt_with_nonce(&[1u8; 32], &[2u8; 12], "abc").unwrap());
}

#[test]
fn keyring_create_then_read_gives_the_same_key() {
    match master_key_from_keyring(StoredKey::Missing).unwrap() {
        KeyringKey::Created { key, encoded } => {
            match master_key_from_keyring(StoredKey::Found(encoded)).unwrap() {
                KeyringKey::Existing(read) => assert_eq!(read, key),
                other => panic!("unexpected {:?}", other),
            }
        }
        other => panic!("unexpected {:?}", other),
    }
}
