//! Which transform a request selects: the rules that reject contradictory or
//! unsupported flag combinations, and the dispatch to the engine.

use crate::engine::{
    base64_and_url, base64_and_url_decode, base64_decoded, base64_text, decode_base64, decode_url,
    double_base64_decoded, dub_base64_decode, dub_base64_encode, dub_url_decode, dub_url_encode,
    encode_base64, encode_url, text_result, url_decoded, url_text, DecodeFailure,
};
use vstd::prelude::*;

verus! {

/// The flags of one invocation and the text to transform.
pub struct EncodingRequest {
    pub base64_encode: bool,
    pub base64_decode: bool,
    pub url_encode: bool,
    pub url_decode: bool,
    /// Base64, then form-urlencoding.
    pub base64_url_encode: bool,
    /// Form-decoding, then Base64.
    pub base64_url_decode: bool,
    pub double_apply: bool,
    pub copy_to_clipboard: bool,
    pub input: String,
}

/// Why a request is refused, one variant per rule.
#[derive(Clone, Copy, Debug, PartialEq, Eq, Structural)]
pub enum Rejection {
    /// A combined flag with plain Base64 or URL encoding.
    CombinedWithSingleEncode,
    /// A combined flag with plain Base64 or URL decoding.
    CombinedWithSingleDecode,
    /// Base64 encode and decode together.
    ContradictoryBase64,
    /// URL encode and decode together.
    ContradictoryUrl,
    /// Combined encode and decode together.
    ContradictoryCombined,
    /// Double application with the combined encode.
    DoubleWithCombinedEncode,
    /// Double application with the combined decode.
    DoubleWithCombinedDecode,
    /// Base64 and URL encoding given apart instead of the combined flag.
    UseCombinedEncode,
    /// Base64 and URL decoding given apart instead of the combined flag.
    UseCombinedDecode,
    /// Base64 encoding with URL decoding.
    Base64EncodeWithUrlDecode,
    /// Base64 decoding with URL encoding.
    Base64DecodeWithUrlEncode,
}

/// The transform that an accepted request selects.
#[derive(Clone, Copy, Debug, PartialEq, Eq, Structural)]
pub enum Mode {
    Base64Encode,
    DoubleBase64Encode,
    Base64Decode,
    DoubleBase64Decode,
    UrlEncode,
    DoubleUrlEncode,
    UrlDecode,
    DoubleUrlDecode,
    Base64UrlEncode,
    Base64UrlDecode,
}

/// What a request comes to before any text is transformed.
#[derive(Clone, Copy, Debug, PartialEq, Eq, Structural)]
pub enum Plan {
    Rejected(Rejection),
    /// No transform flag is set.
    Vacuous,
    Run(Mode),
}

/// The end of a request.
#[derive(Debug)]
pub enum Outcome {
    Rejected(Rejection),
    Vacuous,
    Applied(Result<String, DecodeFailure>),
}

/// The first rule, in priority order, that `r` breaks.
pub open spec fn rejection_of(r: EncodingRequest) -> Option<Rejection> {
    let combined = r.base64_url_encode || r.base64_url_decode;
    if combined && (r.base64_encode || r.url_encode) {
        Some(Rejection::CombinedWithSingleEncode)
    } else if combined && (r.base64_decode || r.url_decode) {
        Some(Rejection::CombinedWithSingleDecode)
    } else if r.base64_encode && r.base64_decode {
        Some(Rejection::ContradictoryBase64)
    } else if r.url_encode && r.url_decode {
        Some(Rejection::ContradictoryUrl)
    } else if r.base64_url_encode && r.base64_url_decode {
        Some(Rejection::ContradictoryCombined)
    } else if r.base64_url_encode && r.double_apply {
        Some(Rejection::DoubleWithCombinedEncode)
    } else if r.base64_url_decode && r.double_apply {
        Some(Rejection::DoubleWithCombinedDecode)
    } else if r.base64_encode && r.url_encode {
        Some(Rejection::UseCombinedEncode)
    } else if r.base64_decode && r.url_decode {
        Some(Rejection::UseCombinedDecode)
    } else if r.base64_encode && r.url_decode {
        Some(Rejection::Base64EncodeWithUrlDecode)
    } else if r.base64_decode && r.url_encode {
        Some(Rejection::Base64DecodeWithUrlEncode)
    } else {
        None
    }
}

/// The transform that the flags of `r` name, if any.
pub open spec fn mode_of(r: EncodingRequest) -> Option<Mode> {
    if r.base64_encode {
        Some(if r.double_apply { Mode::DoubleBase64Encode } else { Mode::Base64Encode })
    } else if r.base64_decode {
        Some(if r.double_apply { Mode::DoubleBase64Decode } else { Mode::Base64Decode })
    } else if r.url_encode {
        Some(if r.double_apply { Mode::DoubleUrlEncode } else { Mode::UrlEncode })
    } else if r.url_decode {
        Some(if r.double_apply { Mode::DoubleUrlDecode } else { Mode::UrlDecode })
    } else if r.base64_url_encode {
        Some(Mode::Base64UrlEncode)
    } else if r.base64_url_decode {
        Some(Mode::Base64UrlDecode)
    } else {
        None
    }
}

/// A broken rule rejects; otherwise the named transform runs, or, with none
/// named, the request is vacuous.
pub open spec fn plan_of(r: EncodingRequest) -> Plan {
    match rejection_of(r) {
        Some(x) => Plan::Rejected(x),
        None => match mode_of(r) {
            Some(m) => Plan::Run(m),
            None => Plan::Vacuous,
        },
    }
}

/// What the transform `m` makes of the text `t`.
pub open spec fn applied(m: Mode, t: Seq<char>) -> Result<Seq<char>, DecodeFailure> {
    match m {
        Mode::Base64Encode => Ok(base64_text(t)),
        Mode::DoubleBase64Encode => Ok(base64_text(base64_text(t))),
        Mode::Base64Decode => base64_decoded(t),
        Mode::DoubleBase64Decode => double_base64_decoded(t),
        Mode::UrlEncode => Ok(url_text(t)),
        Mode::DoubleUrlEncode => Ok(url_text(url_text(t))),
        Mode::UrlDecode => Ok(url_decoded(t)),
        Mode::DoubleUrlDecode => Ok(url_decoded(url_decoded(t))),
        Mode::Base64UrlEncode => Ok(url_text(base64_text(t))),
        Mode::Base64UrlDecode => base64_decoded(url_decoded(t)),
    }
}

/// The first rule that `req` breaks, if any.
pub fn rejection(req: &EncodingRequest) -> (r: Option<Rejection>)
    ensures
        r == rejection_of(*req),
{
    let combined = req.base64_url_encode || req.base64_url_decode;
    if combined && (req.base64_encode || req.url_encode) {
        Some(Rejection::CombinedWithSingleEncode)
    } else if combined && (req.base64_decode || req.url_decode) {
        Some(Rejection::CombinedWithSingleDecode)
    } else if req.base64_encode && req.base64_decode {
        Some(Rejection::ContradictoryBase64)
    } else if req.url_encode && req.url_decode {
        Some(Rejection::ContradictoryUrl)
    } else if req.base64_url_encode && req.base64_url_decode {
        Some(Rejection::ContradictoryCombined)
    } else if req.base64_url_encode && req.double_apply {
        Some(Rejection::DoubleWithCombinedEncode)
    } else if req.base64_url_decode && req.double_apply {
        Some(Rejection::DoubleWithCombinedDecode)
    } else if req.base64_encode && req.url_encode {
        Some(Rejection::UseCombinedEncode)
    } else if req.base64_decode && req.url_decode {
        Some(Rejection::UseCombinedDecode)
    } else if req.base64_encode && req.url_decode {
        Some(Rejection::Base64EncodeWithUrlDecode)
    } else if req.base64_decode && req.url_encode {
        Some(Rejection::Base64DecodeWithUrlEncode)
    } else {
        None
    }
}

/// Decides what `req` comes to, before any text is touched.
pub fn plan(req: &EncodingRequest) -> (p: Plan)
    ensures
        p == plan_of(*req),
{
    match rejection(req) {
        Some(x) => Plan::Rejected(x),
        None => {
            let d = req.double_apply;
            if req.base64_encode {
                Plan::Run(if d { Mode::DoubleBase64Encode } else { Mode::Base64Encode })
            } else if req.base64_decode {
                Plan::Run(if d { Mode::DoubleBase64Decode } else { Mode::Base64Decode })
            } else if req.url_encode {
                Plan::Run(if d { Mode::DoubleUrlEncode } else { Mode::UrlEncode })
            } else if req.url_decode {
                Plan::Run(if d { Mode::DoubleUrlDecode } else { Mode::UrlDecode })
            } else if req.base64_url_encode {
                Plan::Run(Mode::Base64UrlEncode)
            } else if req.base64_url_decode {
                Plan::Run(Mode::Base64UrlDecode)
            } else {
                Plan::Vacuous
            }
        },
    }
}

/// Applies the transform `m` to `input`.
pub fn apply(m: Mode, input: &str) -> (r: Result<String, DecodeFailure>)
    ensures
        text_result(r) == applied(m, input@),
{
    match m {
        Mode::Base64Encode => Ok(encode_base64(input)),
        Mode::DoubleBase64Encode => Ok(dub_base64_encode(input)),
        Mode::Base64Decode => decode_base64(input),
        Mode::DoubleBase64Decode => dub_base64_decode(input),
        Mode::UrlEncode => Ok(encode_url(input)),
        Mode::DoubleUrlEncode => Ok(dub_url_encode(input)),
        Mode::UrlDecode => Ok(decode_url(input)),
        Mode::DoubleUrlDecode => Ok(dub_url_decode(input)),
        Mode::Base64UrlEncode => Ok(base64_and_url(input)),
        Mode::Base64UrlDecode => base64_and_url_decode(input),
    }
}

/// Checks `req` and, where it is accepted and names a transform, applies it
/// to its input.
pub fn process(req: &EncodingRequest) -> (r: Outcome)
    ensures
        match (plan_of(*req), r) {
            (Plan::Rejected(x), Outcome::Rejected(y)) => x == y,
            (Plan::Vacuous, Outcome::Vacuous) => true,
            (Plan::Run(m), Outcome::Applied(res)) => text_result(res) == applied(m, req.input@),
            _ => false,
        },
{
    match plan(req) {
        Plan::Rejected(x) => Outcome::Rejected(x),
        Plan::Vacuous => Outcome::Vacuous,
        Plan::Run(m) => Outcome::Applied(apply(m, req.input.as_str())),
    }
}

/// The combined encode flag with plain Base64 encoding is rejected, whatever
/// else is set.
pub proof fn lemma_combined_with_base64_encode_rejected(r: EncodingRequest)
    requires
        r.base64_url_encode,
        r.base64_encode,
    ensures
        plan_of(r) is Rejected,
{
}

/// Plain Base64 encoding with plain URL decoding is rejected.
pub proof fn lemma_base64_encode_with_url_decode_rejected(r: EncodingRequest)
    requires
        r.base64_encode,
        r.url_decode,
    ensures
        plan_of(r) is Rejected,
{
}

/// A request with no transform flag is vacuous.
pub proof fn lemma_no_transform_is_vacuous(r: EncodingRequest)
    requires
        !r.base64_encode,
        !r.base64_decode,
        !r.url_encode,
        !r.url_decode,
        !r.base64_url_encode,
        !r.base64_url_decode,
    ensures
        plan_of(r) == Plan::Vacuous,
{
}

/// An accepted request that runs a transform has exactly one transform flag
/// set, and double application only with a plain flag.
pub proof fn lemma_run_has_one_transform(r: EncodingRequest)
    requires
        plan_of(r) is Run,
    ensures
        (r.base64_encode as int) + (r.base64_decode as int) + (r.url_encode as int) + (
        r.url_decode as int) + (r.base64_url_encode as int) + (r.base64_url_decode as int) == 1,
        r.double_apply ==> !r.base64_url_encode && !r.base64_url_decode,
{
}

} // verus!
