//! The transforms on text: Base64, form-urlencoding, the two chained, and
//! each applied twice.

use crate::b64::{b64_decode, b64_encode, decode_bytes, encode_bytes, is_base64, lemma_b64_decode_encode, lemma_is_base64};
use crate::form::{decode_form_names, encode_form, form_encode, form_names, joined, lemma_form_round_trip};
use vstd::prelude::*;
use vstd::utf8::*;

verus! {

broadcast use group_utf8_lib;

/// Why a decode failed.
#[derive(Clone, Copy, Debug, PartialEq, Eq, Structural)]
pub enum DecodeFailure {
    /// The input is not a Base64 encoding.
    InvalidBase64,
    /// The decoded bytes are not valid UTF-8.
    InvalidUtf8,
}

/// A decode result, with its text as a sequence of characters.
pub open spec fn text_result(r: Result<String, DecodeFailure>) -> Result<Seq<char>, DecodeFailure> {
    match r {
        Ok(t) => Ok(t@),
        Err(e) => Err(e),
    }
}

/// Base64 of the UTF-8 bytes of `s`.
pub open spec fn base64_text(s: Seq<char>) -> Seq<char> {
    b64_encode(encode_utf8(s))
}

/// The text whose UTF-8 bytes `t` encodes in Base64, or why there is none.
pub open spec fn base64_decoded(t: Seq<char>) -> Result<Seq<char>, DecodeFailure> {
    if !is_base64(t) {
        Err(DecodeFailure::InvalidBase64)
    } else if !valid_utf8(b64_decode(t)) {
        Err(DecodeFailure::InvalidUtf8)
    } else {
        Ok(decode_utf8(b64_decode(t)))
    }
}

/// Decodes twice; where the first decode succeeds and the second fails, the
/// first result stands.
pub open spec fn double_base64_decoded(t: Seq<char>) -> Result<Seq<char>, DecodeFailure> {
    match base64_decoded(t) {
        Err(e) => Err(e),
        Ok(u) => match base64_decoded(u) {
            Ok(v) => Ok(v),
            Err(_) => Ok(u),
        },
    }
}

/// Form serialisation of the UTF-8 bytes of `s`.
pub open spec fn url_text(s: Seq<char>) -> Seq<char> {
    form_encode(encode_utf8(s))
}

/// The names of the form data `t`, decoded and joined.
pub open spec fn url_decoded(t: Seq<char>) -> Seq<char> {
    joined(form_names(encode_utf8(t)))
}

#[verifier::external_type_specification]
#[verifier::external_body]
pub struct ExFromUtf8Error(std::string::FromUtf8Error);

/// Relies on `String::from_utf8`: it succeeds exactly on valid UTF-8, and the
/// text is what the bytes encode.
pub assume_specification[ String::from_utf8 ](vec: Vec<u8>) -> (r: Result<
    String,
    std::string::FromUtf8Error,
>)
    ensures
        r is Ok <==> valid_utf8(vec@),
        r is Ok ==> r->Ok_0@ == decode_utf8(vec@),
;

/// Base64 encoding (standard alphabet, padded) of the UTF-8 bytes of `input`.
pub fn encode_base64(input: &str) -> (r: String)
    ensures
        r@ == base64_text(input@),
{
    encode_bytes(input.as_bytes())
}

/// Decodes Base64 to bytes, and the bytes as UTF-8 text.
pub fn decode_base64(input: &str) -> (r: Result<String, DecodeFailure>)
    ensures
        text_result(r) == base64_decoded(input@),
{
    match decode_bytes(input) {
        None => Err(DecodeFailure::InvalidBase64),
        Some(bytes) => match String::from_utf8(bytes) {
            Ok(text) => Ok(text),
            Err(_) => Err(DecodeFailure::InvalidUtf8),
        },
    }
}

/// Form-urlencodes the UTF-8 bytes of `input`: a space becomes `+`, a byte
/// outside `A-Z a-z 0-9 * - . _` becomes `%XX`.
pub fn encode_url(input: &str) -> (r: String)
    ensures
        r@ == url_text(input@),
{
    encode_form(input.as_bytes())
}

/// Reads `input` as form data and joins the decoded names of its pairs.
pub fn decode_url(input: &str) -> (r: String)
    ensures
        r@ == url_decoded(input@),
{
    decode_form_names(input.as_bytes())
}

/// Base64-encodes, then form-urlencodes the result.
pub fn base64_and_url(input: &str) -> (r: String)
    ensures
        r@ == url_text(base64_text(input@)),
{
    let first_encode = encode_base64(input);
    encode_url(first_encode.as_str())
}

/// Form-decodes, then Base64-decodes the result.
pub fn base64_and_url_decode(input: &str) -> (r: Result<String, DecodeFailure>)
    ensures
        text_result(r) == base64_decoded(url_decoded(input@)),
{
    let first_decode = decode_url(input);
    decode_base64(first_decode.as_str())
}

/// Base64-encodes twice.
pub fn dub_base64_encode(input: &str) -> (r: String)
    ensures
        r@ == base64_text(base64_text(input@)),
{
    let encoded = encode_base64(input);
    encode_base64(encoded.as_str())
}

/// Base64-decodes twice, keeping the first result where the second decode
/// fails; a failure of the first decode is returned.
pub fn dub_base64_decode(input: &str) -> (r: Result<String, DecodeFailure>)
    ensures
        text_result(r) == double_base64_decoded(input@),
{
    match decode_base64(input) {
        Ok(decoded_once) => match decode_base64(decoded_once.as_str()) {
            Ok(decoded_twice) => Ok(decoded_twice),
            Err(_) => Ok(decoded_once),
        },
        Err(e) => Err(e),
    }
}

/// Form-urlencodes twice.
pub fn dub_url_encode(input: &str) -> (r: String)
    ensures
        r@ == url_text(url_text(input@)),
{
    let encoded = encode_url(input);
    encode_url(encoded.as_str())
}

/// Form-decodes twice.
pub fn dub_url_decode(input: &str) -> (r: String)
    ensures
        r@ == url_decoded(url_decoded(input@)),
{
    let decoded = decode_url(input);
    decode_url(decoded.as_str())
}

/// Base64-decoding the Base64 encoding of a text gives the text back.
pub proof fn lemma_base64_round_trip(s: Seq<char>)
    ensures
        base64_decoded(base64_text(s)) == Ok::<Seq<char>, DecodeFailure>(s),
{
    lemma_b64_decode_encode(encode_utf8(s));
    lemma_is_base64(base64_text(s));
}

/// Decoding twice what was encoded twice gives the text back.
pub proof fn lemma_double_base64_round_trip(s: Seq<char>)
    ensures
        double_base64_decoded(base64_text(base64_text(s))) == Ok::<Seq<char>, DecodeFailure>(s),
{
    lemma_base64_round_trip(base64_text(s));
    lemma_base64_round_trip(s);
}

/// Decoding twice what was encoded once gives the text back where the text
/// is itself no Base64 encoding.
pub proof fn lemma_double_decode_of_single_encode(s: Seq<char>)
    requires
        !is_base64(s),
    ensures
        double_base64_decoded(base64_text(s)) == Ok::<Seq<char>, DecodeFailure>(s),
{
    lemma_base64_round_trip(s);
}

/// Form-decoding the form-urlencoding of a text gives the text back.
pub proof fn lemma_url_round_trip(s: Seq<char>)
    ensures
        url_decoded(url_text(s)) == s,
{
    lemma_form_round_trip(encode_utf8(s));
}

/// The combined decode undoes the combined encode.
pub proof fn lemma_base64_url_round_trip(s: Seq<char>)
    ensures
        base64_decoded(url_decoded(url_text(base64_text(s)))) == Ok::<Seq<char>, DecodeFailure>(s),
{
    lemma_url_round_trip(base64_text(s));
    lemma_base64_round_trip(s);
}

/// Form-decoding twice what was form-urlencoded twice gives the text back.
pub proof fn lemma_double_url_round_trip(s: Seq<char>)
    ensures
        url_decoded(url_decoded(url_text(url_text(s)))) == s,
{
    lemma_url_round_trip(url_text(s));
    lemma_url_round_trip(s);
}

} // verus!
