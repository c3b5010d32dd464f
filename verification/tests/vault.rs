use celerix_store::vault::{decrypt, encrypt};
use celerix_store::Error;

#[test]
fn test_encrypt_decrypt() {
    let key = b"thisis32byteslongsecretkey123456";
    let plaintext = "Hello, Celerix!";
    let ciphertext = encrypt(plaintext, key).unwrap();
    assert_ne!(ciphertext, plaintext);
    // hex of 12-byte nonce, ciphertext as long as the plaintext, 16-byte tag
    assert_eq!(ciphertext.len(), 2 * (28 + plaintext.len()));
    let decrypted = decrypt(&ciphertext, key).unwrap();
    assert_eq!(decrypted, plaintext);
}

#[test]
fn test_decrypt_with_wrong_key() {
    let key1 = b"thisis32byteslongsecretkey123456";
    let key2 = b"another32byteslongsecretkey65432";
    let plaintext = "Secret message";
    let ciphertext = encrypt(plaintext, key1).unwrap();
    assert!(decrypt(&ciphertext, key2).is_err());
}

#[test]
fn test_round_trip_for_various_plaintexts() {
    let key = b"thisis32byteslongsecretkey123456";
    for plaintext in ["", "a", "with space", "line\nbreak", "unicode \u{00e9}\u{3042}"] {
        let ciphertext = encrypt(plaintext, key).unwrap();
        assert_eq!(decrypt(&ciphertext, key).unwrap(), plaintext);
    }
}

#[test]
fn test_key_length_is_checked() {
    assert!(matches!(encrypt("x", b"short"), Err(Error::Internal(_))));
    assert!(matches!(decrypt("00", b"short"), Err(Error::Internal(_))));
}

#[test]
fn test_malformed_envelopes_fail() {
    let key = b"thisis32byteslongsecretkey123456";
    // Not hex at all.
    assert!(matches!(decrypt("zz-not-hex", key), Err(Error::Internal(_))));
    // Valid hex, but shorter than one nonce.
    assert!(matches!(decrypt("00ff00", key), Err(Error::Internal(_))));
    // A tampered envelope must fail authentication.
    let mut c = encrypt("payload", key).unwrap();
    let flipped = if c.ends_with('0') { '1' } else { '0' };
    c.pop();
    c.push(flipped);
    assert!(decrypt(&c, key).is_err());
}

#[test]
fn test_fresh_nonce_per_seal() {
    let key = b"thisis32byteslongsecretkey123456";
    let c1 = encrypt("same plaintext", key).unwrap();
    let c2 = encrypt("same plaintext", key).unwrap();
    assert_ne!(c1, c2);
}
