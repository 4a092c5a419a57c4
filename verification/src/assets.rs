//! Assets embedded in the program as base64 text.
use crate::text::{string_from_chars, trim, trimmed};
use base64::Engine;
use vstd::prelude::*;

verus! {

/// What the standard base64 alphabet, with padding, decodes the text to:
/// the bytes, or none where the text is not valid base64.
pub uninterp spec fn standard_base64_decoded(text: Seq<char>) -> Option<Seq<u8>>;

/// Calls `Engine::decode` of `base64::engine::general_purpose::STANDARD`.
/// Claimed: the outcome is a function of the text alone; a decode error
/// gives `None`. What the bytes are is left to the name.
#[verifier::external_body]
fn decode_standard_base64(text: &str) -> (r: Option<Vec<u8>>)
    ensures
        match r {
            Some(b) => standard_base64_decoded(text@) == Some(b@),
            None => standard_base64_decoded(text@) is None,
        },
{
    match base64::engine::general_purpose::STANDARD.decode(text) {
        Ok(bytes) => Some(bytes),
        Err(_) => None,
    }
}

/// The bytes of an asset kept as base64 text, whitespace around it ignored.
pub open spec fn asset_bytes(encoded: Seq<char>) -> Option<Seq<u8>> {
    standard_base64_decoded(trimmed(encoded))
}

/// The logo PNG from its embedded base64 text; none where the text is not
/// valid base64.
pub fn embedded_logo_png(encoded: &str) -> (r: Option<Vec<u8>>)
    ensures
        match r {
            Some(b) => asset_bytes(encoded@) == Some(b@),
            None => asset_bytes(encoded@) is None,
        },
{
    let text = string_from_chars(&trim(encoded));
    decode_standard_base64(text.as_str())
}

} // verus!
