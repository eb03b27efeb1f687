//! Standard Base64 (RFC 4648 alphabet, with padding), modelled as spec
//! functions, and the calls into the `base64` crate that do the work.

use base64::Engine;
use vstd::prelude::*;

verus! {

/// The character of the standard alphabet for a six-bit value.
pub open spec fn sextet_char(v: u8) -> char {
    let c: u8 = if v < 26 {
        (v + 65) as u8
    } else if v < 52 {
        (v + 71) as u8
    } else if v < 62 {
        (v - 4) as u8
    } else if v == 62 {
        43u8
    } else {
        47u8
    };
    c as char
}

/// The six-bit value of a character of the standard alphabet.
pub open spec fn sextet_value(c: char) -> u8 {
    let x = c as u32;
    if 65 <= x <= 90 {
        (x - 65) as u8
    } else if 97 <= x <= 122 {
        (x - 71) as u8
    } else if 48 <= x <= 57 {
        (x + 4) as u8
    } else if x == 43 {
        62u8
    } else {
        63u8
    }
}

/// The four characters that encode the three bytes `x`, `y`, `z`.
pub open spec fn encode_group(x: u8, y: u8, z: u8) -> Seq<char> {
    seq![
        sextet_char(x >> 2u8),
        sextet_char(((x & 3u8) << 4u8) | (y >> 4u8)),
        sextet_char(((y & 15u8) << 2u8) | (z >> 6u8)),
        sextet_char(z & 63u8),
    ]
}

/// Base64 encoding of `b`: each group of three bytes gives four characters,
/// and a final group of one or two bytes is padded with `=`.
pub open spec fn b64_encode(b: Seq<u8>) -> Seq<char>
    decreases b.len(),
{
    if b.len() == 0 {
        seq![]
    } else if b.len() == 1 {
        let g = encode_group(b[0], 0, 0);
        seq![g[0], g[1], '=', '=']
    } else if b.len() == 2 {
        let g = encode_group(b[0], b[1], 0);
        seq![g[0], g[1], g[2], '=']
    } else {
        encode_group(b[0], b[1], b[2]) + b64_encode(b.subrange(3, b.len() as int))
    }
}

/// Reads groups of four characters back into bytes; the inverse of
/// `b64_encode` on its results (see `lemma_b64_decode_encode`).
pub open spec fn b64_decode(t: Seq<char>) -> Seq<u8>
    decreases t.len(),
{
    if t.len() < 4 {
        seq![]
    } else {
        let a = sextet_value(t[0]);
        let b = sextet_value(t[1]);
        let c = sextet_value(t[2]);
        let d = sextet_value(t[3]);
        let x = ((a << 2u8) | (b >> 4u8)) as u8;
        let y = (((b & 15u8) << 4u8) | (c >> 2u8)) as u8;
        let z = (((c & 3u8) << 6u8) | d) as u8;
        if t[2] == '=' {
            seq![x]
        } else if t[3] == '=' {
            seq![x, y]
        } else {
            seq![x, y, z] + b64_decode(t.subrange(4, t.len() as int))
        }
    }
}

/// `t` is the Base64 encoding of some bytes.
pub open spec fn is_base64(t: Seq<char>) -> bool {
    exists|b: Seq<u8>| #[trigger] b64_encode(b) == t
}

proof fn lemma_sextet(v: u8)
    requires
        v < 64,
    ensures
        sextet_value(sextet_char(v)) == v,
        sextet_char(v) != '=',
{
}

proof fn lemma_group_bits(x: u8, y: u8, z: u8)
    ensures
        (x >> 2u8) < 64,
        (((x & 3u8) << 4u8) | (y >> 4u8)) < 64,
        (((y & 15u8) << 2u8) | (z >> 6u8)) < 64,
        (z & 63u8) < 64,
        (((x >> 2u8) << 2u8) | ((((x & 3u8) << 4u8) | (y >> 4u8)) >> 4u8)) == x,
        ((((((x & 3u8) << 4u8) | (y >> 4u8)) & 15u8) << 4u8) | ((((y & 15u8) << 2u8) | (z
            >> 6u8)) >> 2u8)) == y,
        ((((((y & 15u8) << 2u8) | (z >> 6u8)) & 3u8) << 6u8) | (z & 63u8)) == z,
{
    assert((x >> 2u8) < 64) by (bit_vector);
    assert((((x & 3u8) << 4u8) | (y >> 4u8)) < 64) by (bit_vector);
    assert((((y & 15u8) << 2u8) | (z >> 6u8)) < 64) by (bit_vector);
    assert((z & 63u8) < 64) by (bit_vector);
    assert((((x >> 2u8) << 2u8) | ((((x & 3u8) << 4u8) | (y >> 4u8)) >> 4u8)) == x)
        by (bit_vector);
    assert(((((((x & 3u8) << 4u8) | (y >> 4u8)) & 15u8) << 4u8) | ((((y & 15u8) << 2u8) | (z
        >> 6u8)) >> 2u8)) == y) by (bit_vector);
    assert(((((((y & 15u8) << 2u8) | (z >> 6u8)) & 3u8) << 6u8) | (z & 63u8)) == z)
        by (bit_vector);
}

proof fn lemma_group(x: u8, y: u8, z: u8)
    ensures
        ({
            let g = encode_group(x, y, z);
            let a = sextet_value(g[0]);
            let b = sextet_value(g[1]);
            let c = sextet_value(g[2]);
            let d = sextet_value(g[3]);
            &&& ((a << 2u8) | (b >> 4u8)) as u8 == x
            &&& (((b & 15u8) << 4u8) | (c >> 2u8)) as u8 == y
            &&& (((c & 3u8) << 6u8) | d) as u8 == z
            &&& g[0] != '=' && g[1] != '=' && g[2] != '=' && g[3] != '='
        }),
{
    lemma_group_bits(x, y, z);
    lemma_sextet(x >> 2u8);
    lemma_sextet(((x & 3u8) << 4u8) | (y >> 4u8));
    lemma_sextet(((y & 15u8) << 2u8) | (z >> 6u8));
    lemma_sextet(z & 63u8);
}

/// Decoding an encoding gives back the bytes encoded.
pub proof fn lemma_b64_decode_encode(b: Seq<u8>)
    ensures
        b64_decode(b64_encode(b)) == b,
    decreases b.len(),
{
    let t = b64_encode(b);
    if b.len() == 0 {
    } else if b.len() == 1 {
        lemma_group(b[0], 0, 0);
        assert(b64_decode(t) =~= b);
    } else if b.len() == 2 {
        lemma_group(b[0], b[1], 0);
        assert(b64_decode(t) =~= b);
    } else {
        let rest = b.subrange(3, b.len() as int);
        lemma_group(b[0], b[1], b[2]);
        lemma_b64_decode_encode(rest);
        assert(t.subrange(4, t.len() as int) =~= b64_encode(rest));
        assert(b64_decode(t) =~= b);
    }
}

/// `t` is an encoding exactly when it is the encoding of what it decodes to.
pub proof fn lemma_is_base64(t: Seq<char>)
    ensures
        is_base64(t) <==> b64_encode(b64_decode(t)) == t,
{
    if is_base64(t) {
        let b = choose|b: Seq<u8>| #[trigger] b64_encode(b) == t;
        lemma_b64_decode_encode(b);
    }
}

/// Relies on `base64`'s `STANDARD` engine, `Engine::encode`: the standard
/// alphabet, padded with `=`.
#[verifier::external_body]
fn standard_encode(b: &[u8]) -> (r: String)
    ensures
        r@ == b64_encode(b@),
{
    base64::engine::general_purpose::STANDARD.encode(b)
}

#[verifier::external_type_specification]
#[verifier::external_body]
pub struct ExDecodeError(base64::DecodeError);

/// Relies on `base64`'s `STANDARD` engine, `Engine::decode`: its
/// configuration requires canonical padding and zero trailing bits, so it
/// accepts exactly the encodings of byte strings, and returns the bytes that
/// encode to its input.
#[verifier::external_body]
fn standard_decode(t: &str) -> (r: Result<Vec<u8>, base64::DecodeError>)
    ensures
        r is Ok ==> b64_encode(r->Ok_0@) == t@,
        r is Err ==> !is_base64(t@),
{
    base64::engine::general_purpose::STANDARD.decode(t)
}

/// The Base64 encoding of the bytes `b`.
pub fn encode_bytes(b: &[u8]) -> (r: String)
    ensures
        r@ == b64_encode(b@),
{
    standard_encode(b)
}

/// The bytes that `t` encodes, or `None` where `t` is no Base64 encoding.
pub fn decode_bytes(t: &str) -> (r: Option<Vec<u8>>)
    ensures
        r is Some <==> is_base64(t@),
        r is Some ==> r->0@ == b64_decode(t@),
{
    proof {
        lemma_is_base64(t@);
    }
    match standard_decode(t) {
        Ok(v) => {
            proof {
                lemma_b64_decode_encode(v@);
            }
            Some(v)
        },
        Err(_) => None,
    }
}

} // verus!
