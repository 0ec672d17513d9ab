//! Conversions between byte strings and text.

use vstd::prelude::*;
use vstd::utf8::*;

verus! {

/// Calls `std::str::from_utf8` and reports whether it accepted the bytes,
/// which it does exactly for well-formed UTF-8.
#[verifier::external_body]
pub(crate) fn bytes_are_text(bytes: &[u8]) -> (yes: bool)
    ensures
        yes == valid_utf8(bytes@),
{
    std::str::from_utf8(bytes).is_ok()
}

/// Calls `String::from_utf8`: the text that well-formed UTF-8 bytes spell, and
/// nothing for any other bytes.
#[verifier::external_body]
pub(crate) fn text_from_bytes(bytes: Vec<u8>) -> (text: Option<String>)
    ensures
        text.is_some() == valid_utf8(bytes@),
        text.is_some() ==> text.unwrap()@ == decode_utf8(bytes@),
{
    String::from_utf8(bytes).ok()
}

/// The UTF-8 bytes of `text`.
pub fn text_bytes(text: &str) -> (bytes: Vec<u8>)
    ensures
        bytes@ == encode_utf8(text@),
        valid_utf8(bytes@),
        decode_utf8(bytes@) == text@,
{
    proof {
        encode_utf8_valid_utf8(text@);
        encode_utf8_decode_utf8(text@);
    }
    vstd::slice::slice_to_vec(text.as_bytes())
}

} // verus!
