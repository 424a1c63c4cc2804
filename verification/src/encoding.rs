//! Base64 handling for challenge tokens and Basic credentials.
//!
//! Tokens travel on the wire base64-encoded. Encoding and decoding are done
//! by the `base64` crate's standard engine; the contracts below name its
//! results so that the rest of the library can speak about them exactly.

use vstd::prelude::*;
use base64::Engine;

verus! {

/// The character sequence that the standard base64 engine produces for the
/// given bytes.
pub uninterp spec fn b64_encoding(bytes: Seq<u8>) -> Seq<char>;

/// What the standard base64 engine's decoder yields for the given input
/// bytes: `None` exactly on the inputs it rejects as malformed.
pub uninterp spec fn b64_decoding(text: Seq<u8>) -> Option<Seq<u8>>;

/// A character the standard base64 encoder can emit: the standard alphabet
/// or the padding sign. All are visible ASCII; none is a blank.
pub open spec fn is_b64_text_char(c: char) -> bool {
    ('A' <= c <= 'Z') || ('a' <= c <= 'z') || ('0' <= c <= '9') || c == '+' || c == '/' || c
        == '='
}

/// Relies on the `base64` crate's `STANDARD` engine `encode`: the result is a
/// function of the input bytes alone; it consists of standard-alphabet and
/// padding characters only; its length is four characters for every started
/// three-byte chunk; and its bytes decode back to the input (the crate
/// documents the round trip). `encode` panics only when the encoded length
/// overflows `usize`; the precondition rules that out.
#[verifier::external_body]
pub fn b64_encode(bytes: &[u8]) -> (r: String)
    requires
        bytes@.len() <= usize::MAX as nat / 4,
    ensures
        r@ == b64_encoding(bytes@),
        vstd::utf8::is_ascii_chars(r@),
        forall|i: int| 0 <= i < r@.len() ==> is_b64_text_char(#[trigger] r@[i]),
        r@.len() == ((bytes@.len() + 2) / 3) * 4,
        b64_decoding(vstd::utf8::encode_utf8(r@)) == Some(bytes@),
{
    base64::engine::general_purpose::STANDARD.encode(bytes)
}

/// Relies on the `base64` crate's `STANDARD` engine `decode`: the result is a
/// function of the input bytes alone; malformed input yields an error, here
/// mapped to `None`.
#[verifier::external_body]
pub fn b64_decode(text: &[u8]) -> (r: Option<Vec<u8>>)
    ensures
        r.deep_view() == b64_decoding(text@),
{
    base64::engine::general_purpose::STANDARD.decode(text).ok()
}

} // verus!
