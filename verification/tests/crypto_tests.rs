use aes_gcm::aead::{Aead, KeyInit};
use base64::Engine;
use rokio::crypto::{decrypt_string, derive_key, encrypt_string, encrypt_with_nonce};
use rokio::error::VaultError;

const MACHINE: &str = "ROKIO-LINUX-testhost-tester";

fn decode(blob: &str) -> Vec<u8> {
    base64::engine::general_purpose::STANDARD.decode(blob).unwrap()
}

fn encode(bytes: &[u8]) -> String {
    base64::engine::general_purpose::STANDARD.encode(bytes)
}

#[test]
fn test_encrypt_decrypt_roundtrip() {
    let key = derive_key("test_password", MACHINE);
    let plaintext = "Hello, ROKIO!";

    let encrypted = encrypt_string(plaintext, &key).unwrap();
    let decrypted = decrypt_string(&encrypted, &key).unwrap();

    assert_eq!(plaintext, decrypted);
}

#[test]
fn test_wrong_key_fails() {
    let key1 = derive_key("password1", MACHINE);
    let key2 = derive_key("password2", MACHINE);

    let encrypted = encrypt_string("secret", &key1).unwrap();
    let result = decrypt_string(&encrypted, &key2);

    assert!(result.is_err());
    assert_eq!(result, Err(VaultError::Authentication));
}

#[test]
fn derive_key_is_pbkdf2_over_the_prefixed_machine_id() {
    let key = derive_key("correct-horse", MACHINE);
    let mut expected = [0u8; 32];
    pbkdf2::pbkdf2_hmac::<sha2::Sha256>(
        b"correct-horse",
        b"ROKIO-VAULT-ROKIO-LINUX-testhost-tester",
        100_000,
        &mut expected,
    );
    assert_eq!(key, expected);
    assert_ne!(key, [0u8; 32]);
}

#[test]
fn known_answers() {
    let key = derive_key("correct-horse", MACHINE);
    assert_eq!(
        key,
        [
            90, 14, 52, 106, 65, 81, 187, 179, 145, 95, 99, 10, 42, 57, 237, 64, 190, 232, 214,
            208, 161, 159, 120, 185, 83, 202, 69, 21, 71, 154, 210, 10
        ]
    );
    let nonce = [1u8, 2, 3, 4, 5, 6, 7, 8, 9, 10, 11, 12];
    assert_eq!(
        encrypt_with_nonce("token", &key, &nonce).unwrap(),
        "AQIDBAUGBwgJCgsMFXLJpT8jiaBo4mUdtKRgyAq6wvlx"
    );
    assert_eq!(
        decrypt_string("AQIDBAUGBwgJCgsMFXLJpT8jiaBo4mUdtKRgyAq6wvlx", &key).unwrap(),
        "token"
    );
    assert_eq!(
        encrypt_with_nonce("abc", &[7u8; 32], &[9u8; 12]).unwrap(),
        "CQkJCQkJCQkJCQkJRufnL2tOHBDlGVGK/Iobk5uwTw=="
    );
    assert_eq!(
        decrypt_string("CQkJCQkJCQkJCQkJRufnL2tOHBDlGVGK/Iobk5uwTw==", &[7u8; 32]).unwrap(),
        "abc"
    );
    assert_eq!(
        decrypt_string("CQkJCQkJCQkJCQkJRufnL2tOHBDlGVGK/Iobk5uwTw==", &[8u8; 32]),
        Err(VaultError::Authentication)
    );
}

#[test]
fn derive_key_depends_on_both_inputs_and_on_nothing_else() {
    let key = derive_key("pw", MACHINE);
    assert_eq!(key, derive_key("pw", MACHINE));
    assert_ne!(key, derive_key("pw2", MACHINE));
    assert_ne!(key, derive_key("pw", "ROKIO-LINUX-otherhost-tester"));
    assert_ne!(derive_key("", MACHINE), derive_key("", ""));
}

#[test]
fn a_blob_is_nonce_then_ciphertext_then_tag() {
    let key = [7u8; 32];
    let nonce = [9u8; 12];
    let blob = encrypt_with_nonce("abc", &key, &nonce).unwrap();
    let bytes = decode(&blob);
    assert_eq!(bytes.len(), 12 + 3 + 16);
    for text in ["", "x", "žluťoučký", "a longer text of many bytes"] {
        let sealed = decode(&encrypt_string(text, &key).unwrap());
        assert_eq!(sealed.len(), 12 + text.len() + 16);
    }
    assert_eq!(&bytes[..12], &nonce);
    assert_ne!(&bytes[12..15], b"abc");
    assert_eq!(decrypt_string(&blob, &key).unwrap(), "abc");
}

#[test]
fn a_blob_is_what_the_cipher_gives_for_key_and_nonce() {
    let key = derive_key("pw", MACHINE);
    let nonce = [1u8, 2, 3, 4, 5, 6, 7, 8, 9, 10, 11, 12];
    let cipher = aes_gcm::Aes256Gcm::new_from_slice(&key).unwrap();
    let sealed = cipher
        .encrypt(aes_gcm::Nonce::from_slice(&nonce), "token".as_bytes())
        .unwrap();
    let mut combined = nonce.to_vec();
    combined.extend_from_slice(&sealed);
    assert_eq!(
        encrypt_with_nonce("token", &key, &nonce).unwrap(),
        encode(&combined)
    );
}

#[test]
fn equal_nonces_give_equal_blobs_and_fresh_nonces_fresh_blobs() {
    let key = [1u8; 32];
    let a = encrypt_with_nonce("same", &key, &[0u8; 12]).unwrap();
    let b = encrypt_with_nonce("same", &key, &[0u8; 12]).unwrap();
    let c = encrypt_with_nonce("same", &key, &[1u8; 12]).unwrap();
    assert_eq!(a, b);
    assert_ne!(a, c);
    let d = encrypt_string("same", &key).unwrap();
    let e = encrypt_string("same", &key).unwrap();
    assert_ne!(d, e);
    assert_eq!(decrypt_string(&d, &key).unwrap(), "same");
    assert_eq!(decrypt_string(&e, &key).unwrap(), "same");
}

#[test]
fn round_trip_of_empty_and_non_ascii_text() {
    let key = derive_key("pw", MACHINE);
    for text in ["", "a", "_|WARNING:-DO-NOT-SHARE-THIS.|_ABCDEF", "žluťoučký kůň 🐎"] {
        let blob = encrypt_string(text, &key).unwrap();
        assert_eq!(decrypt_string(&blob, &key).unwrap(), text);
    }
}

#[test]
fn every_single_byte_mutation_is_rejected() {
    let key = derive_key("pw", MACHINE);
    let blob = encrypt_with_nonce("secret token", &key, &[3u8; 12]).unwrap();
    let bytes = decode(&blob);
    for i in 0..bytes.len() {
        for bit in [0x01u8, 0x80u8] {
            let mut mutated = bytes.clone();
            mutated[i] ^= bit;
            assert_eq!(
                decrypt_string(&encode(&mutated), &key),
                Err(VaultError::Authentication),
                "byte {}",
                i
            );
        }
    }
    let chars: Vec<char> = blob.chars().collect();
    for i in 0..chars.len() {
        let mut mutated = chars.clone();
        mutated[i] = if chars[i] == 'A' { 'B' } else { 'A' };
        let text: String = mutated.into_iter().collect();
        assert!(decrypt_string(&text, &key).is_err(), "char {}", i);
    }
}

#[test]
fn malformed_base64_is_a_decode_error() {
    let key = [0u8; 32];
    assert_eq!(decrypt_string("not base64!", &key), Err(VaultError::Decode));
    assert_eq!(decrypt_string("AAA", &key), Err(VaultError::Decode));
    assert_eq!(decrypt_string("QQ=", &key), Err(VaultError::Decode));
}

#[test]
fn a_blob_shorter_than_a_nonce_is_rejected_before_the_cipher() {
    let key = [0u8; 32];
    assert_eq!(decrypt_string("", &key), Err(VaultError::Authentication));
    assert_eq!(
        decrypt_string(&encode(&[0u8; 11]), &key),
        Err(VaultError::Authentication)
    );
    assert_eq!(
        decrypt_string(&encode(&[0u8; 12]), &key),
        Err(VaultError::Authentication)
    );
    assert_eq!(
        decrypt_string(&encode(&[0u8; 27]), &key),
        Err(VaultError::Authentication)
    );
}

#[test]
fn plaintext_that_is_not_utf8_is_a_decode_error() {
    let key = [5u8; 32];
    let nonce = [6u8; 12];
    let cipher = aes_gcm::Aes256Gcm::new_from_slice(&key).unwrap();
    let sealed = cipher
        .encrypt(aes_gcm::Nonce::from_slice(&nonce), &[0xffu8, 0xfe, 0x80][..])
        .unwrap();
    let mut combined = nonce.to_vec();
    combined.extend_from_slice(&sealed);
    assert_eq!(decrypt_string(&encode(&combined), &key), Err(VaultError::Decode));
}

#[test]
fn error_messages_are_sentences() {
    assert_eq!(VaultError::Locked.message(), "Vault is locked");
    assert_eq!(VaultError::AccountNotFound.message(), "Account not found");
    assert_eq!(
        VaultError::Authentication.message(),
        "Decryption failed: invalid key or corrupted data"
    );
    for e in [
        VaultError::Encryption,
        VaultError::Decode,
        VaultError::NotFound,
        VaultError::Parse,
        VaultError::DuplicateAccount,
        VaultError::Io,
    ] {
        assert!(!e.message().is_empty());
    }
}
