//! The crypto envelope: symmetric authenticated encryption of individual
//! string values under a caller-supplied 32-byte key.  A sealed value is a
//! fresh random nonce followed by the ciphertext, hex-encoded.

use vstd::prelude::*;

use crate::errors::Error;
use vstd::string::StringSliceAdditionalSpecFns;
use vstd::utf8::{decode_utf8, encode_utf8, valid_utf8};

verus! {

/// The hex text of bytes, as `hex::encode` renders it.
pub uninterp spec fn hex_of(b: Seq<u8>) -> Seq<char>;

/// The bytes that `hex::decode` reads from a text, if any.
pub uninterp spec fn hex_parse(s: Seq<char>) -> Option<Seq<u8>>;

/// What AES-256-GCM decryption yields for a nonce-prefixed ciphertext and a
/// 32-byte key: the plaintext, or nothing when authentication fails.
pub uninterp spec fn aead_open_model(combined: Seq<u8>, key: Seq<u8>) -> Option<Seq<u8>>;

/// Relies on `hex::encode`: the hex text of the bytes, two digits per
/// byte, which `hex::decode` reads back unchanged.
#[verifier::external_body]
fn hex_encode(b: &[u8]) -> (r: String)
    ensures
        r@ == hex_of(b@),
        r@.len() == 2 * b@.len(),
        hex_parse(r@) == Some(b@),
{
    hex::encode(b)
}

/// Relies on `hex::decode`: the bytes read from a hex text; `None` exactly
/// on malformed input.
#[verifier::external_body]
fn hex_decode(s: &str) -> (r: Option<Vec<u8>>)
    ensures
        match r {
            Some(v) => hex_parse(s@) == Some(v@),
            None => hex_parse(s@) is None,
        },
{
    hex::decode(s).ok()
}

/// Relies on `aes_gcm::Aes256Gcm` with a fresh random nonce: on success
/// the result is the 12-byte nonce, the ciphertext (as long as the
/// plaintext), and the 16-byte authentication tag, and decrypting it under
/// the same key yields the plaintext back.
#[verifier::external_body]
fn aead_seal(key: &[u8], plaintext: &[u8]) -> (r: Option<Vec<u8>>)
    requires
        key@.len() == 32,
    ensures
        match r {
            Some(c) => c@.len() == 12 + plaintext@.len() + 16 && aead_open_model(c@, key@) == Some(
                plaintext@,
            ),
            None => true,
        },
{
    let cipher = <aes_gcm::Aes256Gcm as aes_gcm::aead::KeyInit>::new_from_slice(key).ok()?;
    let nonce = <aes_gcm::aead::Nonce<aes_gcm::Aes256Gcm> as aes_gcm::aead::Generate>::try_generate().ok()?;
    let ciphertext = aes_gcm::aead::Aead::encrypt(&cipher, &nonce, plaintext).ok()?;
    let mut combined = nonce.to_vec();
    combined.extend_from_slice(&ciphertext);
    Some(combined)
}

/// Relies on `aes_gcm::Aes256Gcm`: decrypts a nonce-prefixed ciphertext;
/// `None` exactly when authentication fails.
#[verifier::external_body]
fn aead_open(key: &[u8], combined: &[u8]) -> (r: Option<Vec<u8>>)
    requires
        key@.len() == 32,
        combined@.len() >= 12,
    ensures
        match r {
            Some(p) => aead_open_model(combined@, key@) == Some(p@),
            None => aead_open_model(combined@, key@) is None,
        },
{
    let cipher = <aes_gcm::Aes256Gcm as aes_gcm::aead::KeyInit>::new_from_slice(key).ok()?;
    let (nonce_bytes, ciphertext) = combined.split_at(12);
    let nonce = <aes_gcm::aead::Nonce<aes_gcm::Aes256Gcm>>::try_from(nonce_bytes).ok()?;
    aes_gcm::aead::Aead::decrypt(&cipher, &nonce, ciphertext).ok()
}

/// Relies on `String::from_utf8`: succeeds exactly on valid UTF-8, giving
/// the string those bytes encode.
#[verifier::external_body]
fn bytes_to_string(v: Vec<u8>) -> (r: Option<String>)
    ensures
        match r {
            Some(s) => valid_utf8(v@) && s@ == decode_utf8(v@) && encode_utf8(s@) == v@,
            None => !valid_utf8(v@),
        },
{
    String::from_utf8(v).ok()
}

/// What opening a hex-encoded envelope under a key yields: the plaintext
/// characters, or nothing when the key length, the hex text, the
/// authentication or the UTF-8 decoding fails.
pub open spec fn open_model(cipher_hex: Seq<char>, key: Seq<u8>) -> Option<Seq<char>> {
    if key.len() != 32 {
        None
    } else {
        match hex_parse(cipher_hex) {
            None => None,
            Some(combined) => if combined.len() < 12 {
                None
            } else {
                match aead_open_model(combined, key) {
                    None => None,
                    Some(pt) => if valid_utf8(pt) {
                        Some(decode_utf8(pt))
                    } else {
                        None
                    },
                }
            },
        }
    }
}

/// Encrypts a plaintext string under a 32-byte key; the result is a fresh
/// envelope, hex of nonce, ciphertext and tag, that `decrypt` opens back
/// to the plaintext under the same key.
pub fn encrypt(plaintext: &str, key: &[u8]) -> (r: Result<String, Error>)
    ensures
        match r {
            Ok(s) => {
                &&& key@.len() == 32
                &&& open_model(s@, key@) == Some(plaintext@)
                &&& s@.len() == 2 * (28 + plaintext.spec_bytes().len())
            },
            Err(e) => e matches Error::Internal(_),
        },
        key@.len() != 32 ==> r is Err,
{
    broadcast use vstd::utf8::encode_utf8_valid_utf8, vstd::utf8::encode_utf8_decode_utf8;

    if key.len() != 32 {
        return Err(Error::Internal("key must be 32 bytes".to_owned()));
    }
    match aead_seal(key, plaintext.as_bytes()) {
        None => Err(Error::Internal("encryption failed".to_owned())),
        Some(combined) => {
            let s = hex_encode(combined.as_slice());
            proof {
                assert(plaintext.spec_bytes() == encode_utf8(plaintext@));
                assert(open_model(s@, key@) == Some(plaintext@));
            }
            Ok(s)
        },
    }
}

/// Decrypts a hex-encoded envelope under a 32-byte key.  An authentication
/// failure and an undersized input are one indistinguishable error.
pub fn decrypt(cipher_hex: &str, key: &[u8]) -> (r: Result<String, Error>)
    ensures
        match r {
            Ok(p) => open_model(cipher_hex@, key@) == Some(p@),
            Err(e) => open_model(cipher_hex@, key@) is None && e matches Error::Internal(_),
        },
{
    if key.len() != 32 {
        return Err(Error::Internal("key must be 32 bytes".to_owned()));
    }
    let combined = match hex_decode(cipher_hex) {
        Some(c) => c,
        None => {
            return Err(Error::Internal("invalid hex data".to_owned()));
        },
    };
    if combined.len() < 12 {
        return Err(Error::Internal("ciphertext too short".to_owned()));
    }
    let plain_bytes = match aead_open(key, combined.as_slice()) {
        Some(p) => p,
        None => {
            return Err(Error::Internal("decryption failed (wrong key or tampered data)".to_owned()));
        },
    };
    match bytes_to_string(plain_bytes) {
        Some(s) => Ok(s),
        None => Err(Error::Internal("plaintext is not valid utf-8".to_owned())),
    }
}

} // verus!
