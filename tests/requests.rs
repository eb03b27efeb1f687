use encodeur::engine::DecodeFailure;
use encodeur::request::{apply, plan, process, rejection, EncodingRequest, Mode, Outcome, Plan, Rejection};

fn request(flags: &str, input: &str) -> EncodingRequest {
    EncodingRequest {
        base64_encode: flags.contains('B'),
        base64_decode: flags.contains('b'),
        url_encode: flags.contains('U'),
        url_decode: flags.contains('u'),
        base64_url_encode: flags.contains('M'),
        base64_url_decode: flags.contains('m'),
        double_apply: flags.contains('d'),
        copy_to_clipboard: flags.contains('c'),
        input: String::from(input),
    }
}

fn applied(flags: &str, input: &str) -> Result<String, DecodeFailure> {
    match process(&request(flags, input)) {
        Outcome::Applied(r) => r,
        other => panic!("not applied: {:?}", other),
    }
}

#[test]
fn combined_with_base64_encode_rejected() {
    for extra in ["", "d", "c", "b", "u", "U", "m", "dcbuUm"] {
        let flags = format!("MB{}", extra);
        assert!(matches!(plan(&request(&flags, "x")), Plan::Rejected(_)), "{}", flags);
    }
}

#[test]
fn base64_encode_with_url_decode_rejected() {
    assert_eq!(plan(&request("Bu", "x")), Plan::Rejected(Rejection::Base64EncodeWithUrlDecode));
    assert_eq!(plan(&request("Bud", "x")), Plan::Rejected(Rejection::Base64EncodeWithUrlDecode));
}

#[test]
fn no_transform_is_vacuous() {
    assert_eq!(plan(&request("", "x")), Plan::Vacuous);
    assert_eq!(plan(&request("dc", "x")), Plan::Vacuous);
    assert!(matches!(process(&request("dc", "x")), Outcome::Vacuous));
}

#[test]
fn rules_in_priority_order() {
    let cases = [
        ("MB", Rejection::CombinedWithSingleEncode),
        ("mU", Rejection::CombinedWithSingleEncode),
        ("Mb", Rejection::CombinedWithSingleDecode),
        ("mu", Rejection::CombinedWithSingleDecode),
        ("Bb", Rejection::ContradictoryBase64),
        ("Uu", Rejection::ContradictoryUrl),
        ("Mm", Rejection::ContradictoryCombined),
        ("Md", Rejection::DoubleWithCombinedEncode),
        ("md", Rejection::DoubleWithCombinedDecode),
        ("BU", Rejection::UseCombinedEncode),
        ("bu", Rejection::UseCombinedDecode),
        ("Bu", Rejection::Base64EncodeWithUrlDecode),
        ("bU", Rejection::Base64DecodeWithUrlEncode),
        ("BbUu", Rejection::ContradictoryBase64),
        ("MmB", Rejection::CombinedWithSingleEncode),
        ("Mmd", Rejection::ContradictoryCombined),
    ];
    for (flags, expected) in cases {
        assert_eq!(rejection(&request(flags, "x")), Some(expected), "{}", flags);
        assert!(matches!(process(&request(flags, "x")), Outcome::Rejected(r) if r == expected));
    }
}

#[test]
fn accepted_requests_select_one_mode() {
    let cases = [
        ("B", Mode::Base64Encode),
        ("Bd", Mode::DoubleBase64Encode),
        ("b", Mode::Base64Decode),
        ("bdc", Mode::DoubleBase64Decode),
        ("U", Mode::UrlEncode),
        ("Ud", Mode::DoubleUrlEncode),
        ("u", Mode::UrlDecode),
        ("ud", Mode::DoubleUrlDecode),
        ("M", Mode::Base64UrlEncode),
        ("mc", Mode::Base64UrlDecode),
    ];
    for (flags, expected) in cases {
        assert_eq!(rejection(&request(flags, "x")), None);
        assert_eq!(plan(&request(flags, "x")), Plan::Run(expected), "{}", flags);
    }
}

#[test]
fn end_to_end_base64_encode() {
    assert_eq!(applied("B", "hello"), Ok(String::from("aGVsbG8=")));
}

#[test]
fn end_to_end_base64_decode() {
    assert_eq!(applied("b", "aGVsbG8="), Ok(String::from("hello")));
}

#[test]
fn end_to_end_url_encode() {
    assert_eq!(applied("U", "a b&c"), Ok(String::from("a+b%26c")));
}

#[test]
fn end_to_end_combined_encode() {
    assert_eq!(applied("M", "hello"), Ok(String::from("aGVsbG8%3D")));
}

#[test]
fn end_to_end_invalid_base64() {
    assert_eq!(applied("b", "not-base64!"), Err(DecodeFailure::InvalidBase64));
}

#[test]
fn every_mode_applies_its_transform() {
    assert_eq!(apply(Mode::DoubleBase64Encode, "hello"), Ok(String::from("YUdWc2JHOD0=")));
    assert_eq!(apply(Mode::DoubleBase64Decode, "YUdWc2JHOD0="), Ok(String::from("hello")));
    assert_eq!(apply(Mode::UrlDecode, "a+b%26c"), Ok(String::from("a b&c")));
    assert_eq!(apply(Mode::DoubleUrlEncode, "a b"), Ok(String::from("a%2Bb")));
    assert_eq!(apply(Mode::DoubleUrlDecode, "a%2Bb"), Ok(String::from("a b")));
    assert_eq!(apply(Mode::Base64UrlDecode, "aGVsbG8%3D"), Ok(String::from("hello")));
}
