use encodeur::b64::{decode_bytes, encode_bytes};
use encodeur::engine::{
    base64_and_url, base64_and_url_decode, decode_base64, decode_url, dub_base64_decode,
    dub_base64_encode, dub_url_decode, dub_url_encode, encode_base64, encode_url, DecodeFailure,
};
use encodeur::form::{decode_form_names, encode_form};

#[test]
fn base64_encode_hello() {
    assert_eq!(encode_base64("hello"), "aGVsbG8=");
}

#[test]
fn base64_decode_hello() {
    assert_eq!(decode_base64("aGVsbG8="), Ok(String::from("hello")));
}

#[test]
fn base64_encode_empty_and_multibyte() {
    assert_eq!(encode_base64(""), "");
    assert_eq!(encode_base64("é"), "w6k=");
    assert_eq!(decode_base64(""), Ok(String::new()));
    assert_eq!(decode_base64("w6k="), Ok(String::from("é")));
}

#[test]
fn base64_decode_not_base64() {
    assert_eq!(decode_base64("not-base64!"), Err(DecodeFailure::InvalidBase64));
}

#[test]
fn base64_decode_refuses_non_canonical() {
    assert_eq!(decode_base64("aGVsbG8"), Err(DecodeFailure::InvalidBase64));
    assert_eq!(decode_base64("aGVsbG9="), Err(DecodeFailure::InvalidBase64));
}

#[test]
fn base64_decode_invalid_utf8() {
    assert_eq!(decode_base64("/w=="), Err(DecodeFailure::InvalidUtf8));
}

#[test]
fn base64_bytes_both_ways() {
    assert_eq!(encode_bytes(&[0xff, 0x00, 0x10]), "/wAQ");
    assert_eq!(decode_bytes("/wAQ"), Some(vec![0xff, 0x00, 0x10]));
    assert_eq!(decode_bytes("/wA"), None);
}

#[test]
fn base64_round_trip_texts() {
    for s in ["", "a", "ab", "abc", "hello world", "día ☃ 🎉"] {
        assert_eq!(decode_base64(&encode_base64(s)), Ok(String::from(s)));
    }
}

#[test]
fn url_encode_space_and_ampersand() {
    assert_eq!(encode_url("a b&c"), "a+b%26c");
}

#[test]
fn url_encode_keeps_unreserved_and_escapes_the_rest() {
    assert_eq!(encode_url("AZaz09*-._"), "AZaz09*-._");
    assert_eq!(encode_url("é~+="), "%C3%A9%7E%2B%3D");
    assert_eq!(encode_form(&[0x0a, 0xff]), "%0A%FF");
}

#[test]
fn url_decode_plus_and_percent() {
    assert_eq!(decode_url("a+b%26c"), "a b&c");
    assert_eq!(decode_url("+"), " ");
    assert_eq!(decode_url("%c3%a9"), "é");
}

#[test]
fn url_decode_keeps_only_names() {
    assert_eq!(decode_url("x=1&y=2"), "xy");
    assert_eq!(decode_url("&&a=&b"), "ab");
    assert_eq!(decode_form_names(b"k=v&m"), "km");
}

#[test]
fn url_decode_passes_malformed_escapes() {
    assert_eq!(decode_url("%zz%4"), "%zz%4");
    assert_eq!(decode_url("%ff"), "\u{fffd}");
}

#[test]
fn url_round_trip_texts() {
    for s in ["", " ", "a b&c=d+e", "100%", "día ☃"] {
        assert_eq!(decode_url(&encode_url(s)), s);
    }
}

#[test]
fn combined_encode_hello() {
    assert_eq!(base64_and_url("hello"), "aGVsbG8%3D");
}

#[test]
fn combined_decode_hello() {
    assert_eq!(base64_and_url_decode("aGVsbG8%3D"), Ok(String::from("hello")));
    assert_eq!(base64_and_url_decode("a%3D"), Err(DecodeFailure::InvalidBase64));
}

#[test]
fn combined_round_trip_texts() {
    for s in ["", "hi?", "día ☃"] {
        assert_eq!(base64_and_url_decode(&base64_and_url(s)), Ok(String::from(s)));
    }
}

#[test]
fn double_base64_encode_hello() {
    assert_eq!(dub_base64_encode("hello"), "YUdWc2JHOD0=");
}

#[test]
fn double_base64_decode_twice() {
    assert_eq!(dub_base64_decode("YUdWc2JHOD0="), Ok(String::from("hello")));
}

#[test]
fn double_base64_decode_keeps_first_result() {
    assert_eq!(dub_base64_decode("aGVsbG8="), Ok(String::from("hello")));
    assert_eq!(dub_base64_decode(&encode_base64("x y")), Ok(String::from("x y")));
}

#[test]
fn double_base64_decode_first_failure() {
    assert_eq!(dub_base64_decode("not-base64!"), Err(DecodeFailure::InvalidBase64));
    assert_eq!(dub_base64_decode("/w=="), Err(DecodeFailure::InvalidUtf8));
}

#[test]
fn double_base64_round_trip_texts() {
    for s in ["", "abcd", "hello", "día"] {
        assert_eq!(dub_base64_decode(&dub_base64_encode(s)), Ok(String::from(s)));
    }
}

#[test]
fn double_url_both_ways() {
    assert_eq!(dub_url_encode("a b"), "a%2Bb");
    assert_eq!(dub_url_decode("a%2Bb"), "a b");
    assert_eq!(dub_url_decode(&dub_url_encode("x&y=z")), "x&y=z");
}
