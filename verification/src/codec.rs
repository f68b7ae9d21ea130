//! Trusted byte- and text-level codecs from outside crates and std.
//!
//! Each decoder is a pure function of its input, so its result is given a
//! name that the callers' contracts compose; nothing else is assumed of it.

use vstd::prelude::*;

verus! {

/// What base64url decoding (no padding) yields on a given text: the decoded
/// bytes, or nothing if the text is not valid base64url.
pub uninterp spec fn b64url_decoded(s: Seq<char>) -> Option<Seq<u8>>;

/// Relies on base64's `Engine::decode` with the `URL_SAFE_NO_PAD` engine:
/// the result depends on the input text alone; malformed input is rejected.
#[verifier::external_body]
pub(crate) fn b64url_decode(s: &str) -> (r: Option<Vec<u8>>)
    ensures
        match r {
            Some(v) => b64url_decoded(s@) == Some(v@),
            None => b64url_decoded(s@) is None,
        },
{
    base64::Engine::decode(&base64::engine::general_purpose::URL_SAFE_NO_PAD, s).ok()
}

/// What UTF-8 decoding yields on given bytes: the text, or nothing if the
/// bytes are not valid UTF-8.
pub uninterp spec fn utf8_decoded(b: Seq<u8>) -> Option<Seq<char>>;

/// Relies on `String::from_utf8`: returns the text holding exactly the given
/// bytes iff they are valid UTF-8, and rejects them otherwise.
#[verifier::external_body]
pub(crate) fn utf8_to_string(b: Vec<u8>) -> (r: Option<String>)
    ensures
        match r {
            Some(s) => utf8_decoded(b@) == Some(s@),
            None => utf8_decoded(b@) is None,
        },
{
    String::from_utf8(b).ok()
}

/// Relies on std's `FromIterator<char> for String`: collecting characters
/// yields the string of exactly those characters, in order.
#[verifier::external_body]
pub(crate) fn chars_to_string(v: &Vec<char>) -> (r: String)
    ensures
        r@ == v@,
{
    v.iter().collect()
}

} // verus!
