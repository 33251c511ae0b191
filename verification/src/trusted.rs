//! Calls out of the verified code. Each item here has a contract that Verus
//! believes without proof; the contracts state what the called code
//! documents or its source shows, and nothing else in the crate is assumed.
//!
//! Where a result is a function of the arguments that takes a standard to
//! define (a key derivation, a cipher, an encoding), the result has a name
//! without a definition, and the contract equates the two.

use vstd::prelude::*;
use vstd::utf8::{valid_utf8, encode_utf8};
use aes_gcm::aead::{Aead, KeyInit};
use aes_gcm::{Aes256Gcm, Key, Nonce};
use base64::Engine;
use rand::{Rng, RngCore};

verus! {

/// The longest plaintext, in bytes, that AES-GCM takes as one message.
pub const AES_GCM_MAX_PLAINTEXT: u64 = 0x10_0000_0000;

/// Bytes in the tag that closes a sealed message.
pub const AES_GCM_TAG_LEN: u64 = 16;

/// PBKDF2 with HMAC-SHA-256: the `len` bytes derived from `password` and
/// `salt` in `rounds` iterations.
pub uninterp spec fn pbkdf2_hmac_sha256(
    password: Seq<u8>,
    salt: Seq<u8>,
    rounds: u32,
    len: nat,
) -> Seq<u8>;

/// AES-256-GCM without associated data: the ciphertext of `plaintext` under
/// `key` and `nonce`, followed by its tag.
pub uninterp spec fn aes256_gcm_seal(key: Seq<u8>, nonce: Seq<u8>, plaintext: Seq<u8>) -> Seq<u8>;

/// AES-256-GCM without associated data: the plaintext under `sealed`, or
/// `None` where the tag at its end does not authenticate it for `key` and
/// `nonce`.
pub uninterp spec fn aes256_gcm_open(key: Seq<u8>, nonce: Seq<u8>, sealed: Seq<u8>) -> Option<
    Seq<u8>,
>;

/// Base64 with the standard alphabet and padding: the text for `bytes`.
pub uninterp spec fn base64_encode(bytes: Seq<u8>) -> Seq<char>;

/// Base64 with the standard alphabet and padding: the bytes that `text`
/// stands for, or `None` where it is not canonical base64.
pub uninterp spec fn base64_decode(text: Seq<char>) -> Option<Seq<u8>>;

#[verifier::external_type_specification]
#[verifier::external_body]
pub struct ExAeadError(aes_gcm::Error);

#[verifier::external_type_specification]
#[verifier::external_body]
pub struct ExDecodeError(base64::DecodeError);

#[verifier::external_type_specification]
#[verifier::external_body]
pub struct ExFromUtf8Error(std::string::FromUtf8Error);

/// Reads the wall clock with [`std::time::SystemTime::now`] and hands back
/// its distance from 1970-01-01T00:00:00Z in whole seconds: `Ok` for a clock
/// set after that instant, `Err` for one set before it. Nothing is claimed
/// about the value.
#[verifier::external_body]
pub(crate) fn unix_time_now() -> Result<u64, u64> {
    match std::time::SystemTime::now().duration_since(std::time::UNIX_EPOCH) {
        Ok(after) => Ok(after.as_secs()),
        Err(before) => Err(before.duration().as_secs()),
    }
}

/// The wall clock as whole seconds since 1970-01-01T00:00:00Z: what
/// [`std::time::SystemTime::now`] reads, turned into a `chrono::DateTime`
/// and asked for its `timestamp`. A clock set before 1970 gives a negative
/// count. Nothing is claimed about the value.
#[verifier::external_body]
pub(crate) fn utc_timestamp_now() -> i64 {
    chrono::DateTime::<chrono::Utc>::from(std::time::SystemTime::now()).timestamp()
}

/// `uuid::Uuid::new_v4().to_string()`: a random version-4 UUID in its
/// hyphenated form. Nothing is claimed about the value.
#[verifier::external_body]
pub(crate) fn new_uuid_v4() -> String {
    uuid::Uuid::new_v4().to_string()
}

/// `rand::thread_rng().gen_range(0..below)`: a random index. The call
/// panics on an empty range, and what it returns lies in the range; nothing
/// else is claimed.
#[verifier::external_body]
pub(crate) fn random_below(below: usize) -> (index: usize)
    requires
        below > 0,
    ensures
        index < below,
{
    rand::thread_rng().gen_range(0..below)
}

/// Twelve bytes from `rand::thread_rng()`, a cryptographically secure
/// generator seeded by the operating system. Nothing is claimed about the
/// value.
#[verifier::external_body]
pub(crate) fn random_nonce() -> [u8; 12] {
    let mut nonce = [0u8; 12];
    rand::thread_rng().fill_bytes(&mut nonce);
    nonce
}

/// `pbkdf2::pbkdf2_hmac::<sha2::Sha256>` filling 32 bytes. The call is a
/// function of its arguments and accepts every password, salt and round
/// count.
#[verifier::external_body]
pub(crate) fn pbkdf2_sha256_key(password: &[u8], salt: &[u8], rounds: u32) -> (key: [u8; 32])
    ensures
        key@ == pbkdf2_hmac_sha256(password@, salt@, rounds, 32),
{
    let mut key = [0u8; 32];
    pbkdf2::pbkdf2_hmac::<sha2::Sha256>(password, salt, rounds, &mut key);
    key
}

/// `Aes256Gcm::encrypt` with no associated data, under the cipher made from
/// `key`. The source refuses a plaintext of more than 2^36 bytes and nothing
/// else; what it returns is the ciphertext, as long as the plaintext,
/// followed by the 16 bytes of the tag; and `Aes256Gcm::decrypt` recomputes
/// that tag and undoes the same keystream, so it gives the plaintext back.
#[verifier::external_body]
pub(crate) fn aes256_gcm_encrypt(key: &[u8; 32], nonce: &[u8; 12], plaintext: &[u8]) -> (r: Result<
    Vec<u8>,
    aes_gcm::Error,
>)
    ensures
        r is Ok <==> plaintext@.len() <= AES_GCM_MAX_PLAINTEXT,
        r matches Ok(sealed) ==> {
            &&& sealed@ == aes256_gcm_seal(key@, nonce@, plaintext@)
            &&& sealed@.len() == plaintext@.len() + AES_GCM_TAG_LEN
            &&& aes256_gcm_open(key@, nonce@, sealed@) == Some(plaintext@)
        },
{
    let cipher = Aes256Gcm::new(Key::<Aes256Gcm>::from_slice(key));
    cipher.encrypt(Nonce::from_slice(nonce), plaintext)
}

/// `Aes256Gcm::decrypt` with no associated data, under the cipher made from
/// `key`. The nonce must be 12 bytes long: the call panics on any other
/// length.
#[verifier::external_body]
pub(crate) fn aes256_gcm_decrypt(key: &[u8; 32], nonce: &[u8], sealed: &[u8]) -> (r: Result<
    Vec<u8>,
    aes_gcm::Error,
>)
    requires
        nonce@.len() == 12,
    ensures
        match r {
            Ok(plaintext) => aes256_gcm_open(key@, nonce@, sealed@) == Some(plaintext@),
            Err(_) => aes256_gcm_open(key@, nonce@, sealed@) is None,
        },
{
    let cipher = Aes256Gcm::new(Key::<Aes256Gcm>::from_slice(key));
    cipher.decrypt(Nonce::from_slice(nonce), sealed)
}

/// `base64::engine::general_purpose::STANDARD.encode`. Decoding what it
/// returns gives the bytes back. It panics only where the length of the text
/// does not fit in `usize`, which no slice is long enough to cause.
#[verifier::external_body]
pub(crate) fn base64_encode_standard(bytes: &[u8]) -> (text: String)
    ensures
        text@ == base64_encode(bytes@),
        base64_decode(text@) == Some(bytes@),
{
    base64::engine::general_purpose::STANDARD.encode(bytes)
}

/// `base64::engine::general_purpose::STANDARD.decode`.
#[verifier::external_body]
pub(crate) fn base64_decode_standard(text: &str) -> (r: Result<Vec<u8>, base64::DecodeError>)
    ensures
        match r {
            Ok(bytes) => base64_decode(text@) == Some(bytes@),
            Err(_) => base64_decode(text@) is None,
        },
{
    base64::engine::general_purpose::STANDARD.decode(text)
}

/// [`String::from_utf8`] succeeds exactly on well-formed UTF-8, and the
/// string it returns consists of the bytes it was given.
pub assume_specification[ String::from_utf8 ](bytes: Vec<u8>) -> (r: Result<
    String,
    std::string::FromUtf8Error,
>)
    ensures
        r is Ok <==> valid_utf8(bytes@),
        r matches Ok(text) ==> encode_utf8(text@) == bytes@,
;

/// [`String::push`] appends one character.
pub assume_specification[ String::push ](s: &mut String, c: char)
    ensures
        final(s)@ == old(s)@.push(c),
;

} // verus!
