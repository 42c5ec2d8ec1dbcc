//! Identifiers as text and as the bytes that stand for them in messages.

use vstd::prelude::*;
use vstd::utf8::{
    decode_utf8, encode_utf8, encode_utf8_decode_utf8, encode_utf8_valid_utf8, valid_utf8,
};

verus! {

/// The error type of `core::str::from_utf8`, `core::str::Utf8Error`.
/// Nothing is known of its values.
#[verifier::external_type_specification]
#[verifier::external_body]
pub struct ExUtf8Error(core::str::Utf8Error);

/// Calls `core::str::from_utf8`: succeeds exactly on valid UTF-8, and the
/// text has the bytes that were given.
#[verifier::external_body]
fn from_utf8(bytes: &[u8]) -> (r: Result<&str, core::str::Utf8Error>)
    ensures
        r is Ok <==> valid_utf8(bytes@),
        r is Ok ==> encode_utf8(r->Ok_0@) == bytes@,
{
    core::str::from_utf8(bytes)
}

/// The text that bytes stand for, or `None` where they are not UTF-8.
pub open spec fn text_view(bytes: Seq<u8>) -> Option<Seq<char>> {
    if valid_utf8(bytes) {
        Some(decode_utf8(bytes))
    } else {
        None
    }
}

/// Reads bytes as text.
pub fn text_of(bytes: &[u8]) -> (r: Option<&str>)
    ensures
        match text_view(bytes@) {
            Some(text) => r matches Some(t) && t@ == text && encode_utf8(text) == bytes@,
            None => r is None,
        },
{
    match from_utf8(bytes) {
        Ok(text) => {
            proof {
                encode_utf8_decode_utf8(text@);
            }
            Some(text)
        },
        Err(_) => None,
    }
}

/// Different texts have different bytes, and the bytes of a text are read
/// back as that text.
pub proof fn lemma_text_bytes(a: Seq<char>, b: Seq<char>)
    ensures
        (encode_utf8(a) == encode_utf8(b)) <==> (a == b),
        text_view(encode_utf8(a)) == Some(a),
{
    encode_utf8_decode_utf8(a);
    encode_utf8_decode_utf8(b);
    encode_utf8_valid_utf8(a);
}

/// Compares two texts.
pub fn str_eq(a: &str, b: &str) -> (r: bool)
    ensures
        r == (a@ == b@),
{
    proof {
        lemma_text_bytes(a@, b@);
    }
    crate::crypto::bytes_eq(a.as_bytes(), b.as_bytes())
}

/// The texts that a list of strings holds.
pub open spec fn texts_view(texts: Seq<String>) -> Seq<Seq<char>> {
    Seq::new(texts.len(), |i: int| texts[i]@)
}

/// The text that an optional string holds.
pub open spec fn optional_text_view(text: Option<String>) -> Option<Seq<char>> {
    match text {
        Some(t) => Some(t@),
        None => None,
    }
}

/// The text that an optional string slice holds.
pub open spec fn optional_str_view(text: Option<&str>) -> Option<Seq<char>> {
    match text {
        Some(t) => Some(t@),
        None => None,
    }
}

/// Copies an optional text.
pub fn optional_to_owned(text: Option<&str>) -> (r: Option<String>)
    ensures
        optional_text_view(r) == optional_str_view(text),
{
    match text {
        Some(t) => Some(t.to_owned()),
        None => None,
    }
}

} // verus!
