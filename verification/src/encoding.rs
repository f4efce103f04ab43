//! Base64, as the `base64` crate's standard engine writes and reads it.

use vstd::prelude::*;
use vstd::string::*;
use vstd::utf8::encode_utf8;

use base64::Engine;

verus! {

/// The text that the standard engine encodes bytes as.
pub uninterp spec fn base64_text(bytes: Seq<u8>) -> Seq<char>;

/// The bytes that the standard engine decodes a text to; nothing where it fails.
pub uninterp spec fn base64_bytes(text: Seq<char>) -> Option<Seq<u8>>;

/// Trusted: `Engine::encode` of `general_purpose::STANDARD` is a function of the bytes, here
/// those of a text in UTF-8, and decoding gives them back.
#[verifier::external_body]
pub(crate) fn encode_base64(s: &str) -> (r: String)
    ensures
        r@ == base64_text(encode_utf8(s@)),
        base64_bytes(r@) == Some(encode_utf8(s@)),
{
    base64::engine::general_purpose::STANDARD.encode(s)
}

/// Trusted: `Engine::decode` of `general_purpose::STANDARD` is a function of the text alone.
#[verifier::external_body]
pub(crate) fn decode_base64(s: &str) -> (r: Result<Vec<u8>, base64::DecodeError>)
    ensures
        r is Ok <==> base64_bytes(s@) is Some,
        r matches Ok(bytes) ==> base64_bytes(s@) == Some(bytes@),
{
    base64::engine::general_purpose::STANDARD.decode(s)
}

} // verus!
