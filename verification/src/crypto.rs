//! Key derivation and the authenticated cipher.
//!
//! A key is derived from a password and the identity of the machine, so a
//! vault opens only on the machine that made it. A text is sealed with
//! AES-256-GCM under a fresh 96-bit nonce; nonce, ciphertext and tag are
//! stored together as one base64 blob.

use vstd::prelude::*;
use vstd::utf8::{encode_utf8, decode_utf8, valid_utf8, encode_utf8_decode_utf8,
    encode_utf8_valid_utf8};
use vstd::string::StringExecFns;
use vstd::slice::slice_subrange;
use crate::error::VaultError;
use crate::trusted::{pbkdf2_hmac_sha256, aes256_gcm_seal, aes256_gcm_open, base64_encode,
    base64_decode, pbkdf2_sha256_key, aes256_gcm_encrypt, aes256_gcm_decrypt,
    base64_encode_standard, base64_decode_standard, random_nonce, AES_GCM_MAX_PLAINTEXT,
    AES_GCM_TAG_LEN};

verus! {

/// Iterations of the key derivation.
pub const PBKDF2_ITERATIONS: u32 = 100_000;

/// Bytes in a key.
pub const KEY_LEN: usize = 32;

/// Bytes in a nonce.
pub const NONCE_LEN: usize = 12;

/// What the machine identity is prefixed with to make the salt.
pub open spec fn salt_prefix() -> Seq<char> {
    "ROKIO-VAULT-"@
}

/// The key for `password` on the machine `machine_id`: PBKDF2-HMAC-SHA-256
/// over the password, salted with the prefixed machine identity.
pub open spec fn derived_key(password: Seq<char>, machine_id: Seq<char>) -> Seq<u8> {
    pbkdf2_hmac_sha256(
        encode_utf8(password),
        encode_utf8(salt_prefix() + machine_id),
        PBKDF2_ITERATIONS,
        KEY_LEN as nat,
    )
}

/// The blob for `plaintext` sealed under `key` with `nonce`: base64 of the
/// nonce followed by ciphertext and tag.
pub open spec fn sealed_blob(plaintext: Seq<char>, key: Seq<u8>, nonce: Seq<u8>) -> Seq<char> {
    base64_encode(nonce + aes256_gcm_seal(key, nonce, encode_utf8(plaintext)))
}

/// What opening `blob` under `key` gives: the text, or why there is none.
/// A blob that is not base64 is a decode failure; one too short to hold a
/// nonce, or whose tag does not verify, is an authentication failure; one
/// whose plaintext is not UTF-8 is a decode failure.
pub open spec fn opened_blob(blob: Seq<char>, key: Seq<u8>) -> Result<Seq<char>, VaultError> {
    match base64_decode(blob) {
        None => Err(VaultError::Decode),
        Some(combined) => if combined.len() < NONCE_LEN {
            Err(VaultError::Authentication)
        } else {
            match aes256_gcm_open(
                key,
                combined.subrange(0, NONCE_LEN as int),
                combined.subrange(NONCE_LEN as int, combined.len() as int),
            ) {
                None => Err(VaultError::Authentication),
                Some(plaintext) => if valid_utf8(plaintext) {
                    Ok(decode_utf8(plaintext))
                } else {
                    Err(VaultError::Decode)
                },
            }
        },
    }
}

/// The nonce that a blob was sealed with: the first twelve bytes under its
/// base64.
pub open spec fn blob_nonce(blob: Seq<char>) -> Option<Seq<u8>> {
    match base64_decode(blob) {
        Some(combined) => if combined.len() >= NONCE_LEN {
            Some(combined.subrange(0, NONCE_LEN as int))
        } else {
            None
        },
        None => None,
    }
}

/// The number of bytes under the base64 of a blob: for a blob that seals
/// a text, the lengths of nonce, text and tag together.
pub open spec fn blob_len(blob: Seq<char>) -> Option<nat> {
    match base64_decode(blob) {
        Some(combined) => Some(combined.len()),
        None => None,
    }
}

/// Whether a text is short enough for the cipher to seal.
pub open spec fn sealable(plaintext: Seq<char>) -> bool {
    encode_utf8(plaintext).len() <= AES_GCM_MAX_PLAINTEXT
}

/// Equal passwords on equal machines give equal keys.
pub proof fn lemma_derived_key_is_a_function(
    password: Seq<char>,
    machine_id: Seq<char>,
    other_password: Seq<char>,
    other_machine_id: Seq<char>,
)
    requires
        password == other_password,
        machine_id == other_machine_id,
    ensures
        derived_key(password, machine_id) == derived_key(other_password, other_machine_id),
{
}

/// Blobs sealed with different nonces differ, whatever they seal: a token
/// saved twice under fresh nonces is stored as two different texts.
pub proof fn lemma_fresh_nonce_fresh_blob(
    blob: Seq<char>,
    nonce: Seq<u8>,
    other_blob: Seq<char>,
    other_nonce: Seq<u8>,
)
    requires
        blob_nonce(blob) == Some(nonce),
        blob_nonce(other_blob) == Some(other_nonce),
        nonce != other_nonce,
    ensures
        blob != other_blob,
{
}

/// Derives the 32-byte key for `password` on the machine `machine_id`.
pub fn derive_key(password: &str, machine_id: &str) -> (key: [u8; 32])
    ensures
        key@ == derived_key(password@, machine_id@),
{
    let mut salt: String = String::from_str("ROKIO-VAULT-");
    salt.append(machine_id);
    pbkdf2_sha256_key(password.as_bytes(), salt.as_str().as_bytes(), PBKDF2_ITERATIONS)
}

/// Seals `plaintext` under `key` with the given nonce.
///
/// A nonce must never be used twice with one key: [`encrypt_string`] draws a
/// fresh one for each call.
pub fn encrypt_with_nonce(plaintext: &str, key: &[u8; 32], nonce: &[u8; 12]) -> (r: Result<
    String,
    VaultError,
>)
    ensures
        sealable(plaintext@) ==> r is Ok,
        !sealable(plaintext@) ==> r == Err::<String, VaultError>(VaultError::Encryption),
        r matches Ok(blob) ==> {
            &&& blob@ == sealed_blob(plaintext@, key@, nonce@)
            &&& blob_nonce(blob@) == Some(nonce@)
            &&& blob_len(blob@) == Some(
                NONCE_LEN as nat + encode_utf8(plaintext@).len() + AES_GCM_TAG_LEN as nat,
            )
            &&& opened_blob(blob@, key@) == Ok::<Seq<char>, VaultError>(plaintext@)
        },
{
    match aes256_gcm_encrypt(key, nonce, plaintext.as_bytes()) {
        Err(_) => Err(VaultError::Encryption),
        Ok(sealed) => {
            let mut combined: Vec<u8> = Vec::new();
            combined.extend_from_slice(nonce.as_slice());
            combined.extend_from_slice(sealed.as_slice());
            let blob: String = base64_encode_standard(combined.as_slice());
            proof {
                assert(nonce@.len() == NONCE_LEN);
                assert(combined@ =~= nonce@ + sealed@);
                assert(combined@.subrange(0, NONCE_LEN as int) =~= nonce@);
                assert(combined@.subrange(NONCE_LEN as int, combined@.len() as int) =~= sealed@);
                encode_utf8_valid_utf8(plaintext@);
                encode_utf8_decode_utf8(plaintext@);
            }
            Ok(blob)
        },
    }
}

/// Seals `plaintext` under `key` with a fresh random nonce. The blob opens
/// to `plaintext` under the same key.
pub fn encrypt_string(plaintext: &str, key: &[u8; 32]) -> (r: Result<String, VaultError>)
    ensures
        sealable(plaintext@) ==> r is Ok,
        !sealable(plaintext@) ==> r == Err::<String, VaultError>(VaultError::Encryption),
        r matches Ok(blob) ==> {
            &&& exists|nonce: Seq<u8>|
                nonce.len() == NONCE_LEN && blob@ == sealed_blob(plaintext@, key@, nonce)
                    && blob_nonce(blob@) == Some(nonce)
            &&& blob_len(blob@) == Some(
                NONCE_LEN as nat + encode_utf8(plaintext@).len() + AES_GCM_TAG_LEN as nat,
            )
            &&& opened_blob(blob@, key@) == Ok::<Seq<char>, VaultError>(plaintext@)
        },
{
    let nonce: [u8; 12] = random_nonce();
    encrypt_with_nonce(plaintext, key, &nonce)
}

/// Opens `encrypted` under `key`.
pub fn decrypt_string(encrypted: &str, key: &[u8; 32]) -> (r: Result<String, VaultError>)
    ensures
        match r {
            Ok(text) => opened_blob(encrypted@, key@) == Ok::<Seq<char>, VaultError>(text@),
            Err(e) => opened_blob(encrypted@, key@) == Err::<Seq<char>, VaultError>(e),
        },
{
    let combined: Vec<u8> = match base64_decode_standard(encrypted) {
        Ok(bytes) => bytes,
        Err(_) => {
            return Err(VaultError::Decode);
        },
    };
    if combined.len() < NONCE_LEN {
        return Err(VaultError::Authentication);
    }
    let nonce: &[u8] = slice_subrange(combined.as_slice(), 0, NONCE_LEN);
    let sealed: &[u8] = slice_subrange(combined.as_slice(), NONCE_LEN, combined.len());
    let plaintext: Vec<u8> = match aes256_gcm_decrypt(key, nonce, sealed) {
        Ok(bytes) => bytes,
        Err(_) => {
            return Err(VaultError::Authentication);
        },
    };
    let ghost bytes = plaintext@;
    match String::from_utf8(plaintext) {
        Ok(text) => {
            proof {
                encode_utf8_decode_utf8(text@);
            }
            Ok(text)
        },
        Err(_) => Err(VaultError::Decode),
    }
}

} // verus!
