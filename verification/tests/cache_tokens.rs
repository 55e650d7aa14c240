//! Round trips and edge cases of the cache token encoding.

use chat_router::token::{token_decrypt, token_encrypt};

#[test]
fn text_encode_decode() {
    let v = "{\"user_name\":\"yeyongping1\",\"passwd\":\"123456abc\"}".to_owned();
    let ecoded = token_encrypt(v.clone());
    let decoded = token_decrypt(ecoded).unwrap();
    assert_eq!(v, decoded);
}

#[test]
fn encrypt_produces_base64() {
    assert_eq!(token_encrypt("hi".to_owned()), "aGk=".to_owned());
}

#[test]
fn decrypt_known_token() {
    assert_eq!(token_decrypt("aGk=".to_owned()), Ok("hi".to_owned()));
}

#[test]
fn encrypt_differs_from_input() {
    let v = "plain".to_owned();
    assert_ne!(token_encrypt(v.clone()), v);
}

#[test]
fn decrypt_rejects_invalid_base64() {
    assert_eq!(token_decrypt("%%not base64%%".to_owned()), Err(()));
}

#[test]
fn decrypt_rejects_invalid_utf8() {
    // "/w==" decodes to the single byte 0xFF, which is not UTF-8.
    assert_eq!(token_decrypt("/w==".to_owned()), Err(()));
}

#[test]
fn empty_round_trip() {
    let enc = token_encrypt(String::new());
    assert_eq!(token_decrypt(enc), Ok(String::new()));
}
