//! Token encoding for the opaque-token cache.  The cache itself (and the
//! network hop to it) is an external collaborator; what the library owns is
//! the encoding applied to values before they are stored and to tokens
//! before they are read back.

use vstd::prelude::*;
use vstd::utf8::{decode_utf8, encode_utf8, valid_utf8};

verus! {

/// What a cached value identifies itself by: the key under which the token
/// cache stores and retrieves it.
pub trait Identifier {
    /// The identifying key, as contracts see it.
    spec fn spec_id(&self) -> Seq<char>;

    /// The identifying key.
    fn id(&self) -> (r: String)
        ensures
            r@ == self.spec_id(),
    ;
}

/// What `base64::encode` returns for the given bytes: a function of the
/// bytes alone.
pub uninterp spec fn b64_encode_of(bytes: Seq<u8>) -> Seq<char>;

/// What `base64::decode` returns for the given text: a function of the
/// text alone, absent exactly where the decoder rejects the text.
pub uninterp spec fn b64_decode_of(text: Seq<char>) -> Option<Seq<u8>>;

/// Relies on `base64::encode` (standard alphabet, padded): the result is a
/// function of the input bytes alone, and `base64::decode` inverts it, as
/// the crate documents.
#[verifier::external_body]
fn b64_encode(bytes: &[u8]) -> (r: String)
    ensures
        r@ == b64_encode_of(bytes@),
        b64_decode_of(r@) == Some(bytes@),
{
    base64::encode(bytes)
}

/// Relies on `base64::decode` (standard alphabet): the result is a
/// function of the input text alone; text the encoder cannot have produced
/// is rejected.
#[verifier::external_body]
fn b64_decode(text: &str) -> (r: Option<Vec<u8>>)
    ensures
        match r {
            Some(v) => b64_decode_of(text@) == Some(v@),
            None => b64_decode_of(text@) is None,
        },
{
    base64::decode(text).ok()
}

/// Relies on `String::from_utf8`: it succeeds exactly on valid UTF-8 and
/// returns its decoding.
#[verifier::external_body]
fn utf8_string(bytes: Vec<u8>) -> (r: Option<String>)
    ensures
        match r {
            Some(s) => valid_utf8(bytes@) && s@ == decode_utf8(bytes@),
            None => !valid_utf8(bytes@),
        },
{
    String::from_utf8(bytes).ok()
}

/// Encodes a value for the cache.  `token_decrypt` inverts the result:
/// it decodes back to the very input.
pub fn token_encrypt(value: String) -> (r: String)
    ensures
        r@ == b64_encode_of(encode_utf8(value@)),
        b64_decode_of(r@) == Some(encode_utf8(value@)),
{
    b64_encode(value.as_str().as_bytes())
}

/// Decodes a cache token back to the value it encodes.  Exactly the texts
/// that decode as base64 to valid UTF-8 are accepted — among them
/// everything `token_encrypt` produces, which comes back as it went in.
pub fn token_decrypt(value: String) -> (r: Result<String, ()>)
    ensures
        match b64_decode_of(value@) {
            None => r is Err,
            Some(b) => {
                if valid_utf8(b) {
                    r matches Ok(s) && s@ == decode_utf8(b)
                } else {
                    r is Err
                }
            },
        },
{
    match b64_decode(value.as_str()) {
        Some(v) => match utf8_string(v) {
            Some(s) => Ok(s),
            None => Err(()),
        },
        None => Err(()),
    }
}

} // verus!
