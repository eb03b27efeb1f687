//! `application/x-www-form-urlencoded` serialisation and parsing, modelled as
//! spec functions, and the calls into `form_urlencoded` that do the work.

use url::form_urlencoded;
use vstd::prelude::*;
use vstd::utf8::*;

verus! {

/// Bytes that form serialisation leaves as they are.
pub open spec fn is_unreserved(b: u8) -> bool {
    b == 42 || b == 45 || b == 46 || b == 95 || (48 <= b <= 57) || (65 <= b <= 90) || (97 <= b
        <= 122)
}

/// The upper-case hexadecimal digit for a value below 16.
pub open spec fn hex_upper(v: u8) -> char {
    if v < 10 {
        (v + 48) as u8 as char
    } else {
        (v + 55) as u8 as char
    }
}

/// What form serialisation writes for one byte: itself, `+` for a space, or
/// `%XX` with upper-case hexadecimal digits.
pub open spec fn form_byte(b: u8) -> Seq<char> {
    if is_unreserved(b) {
        seq![b as char]
    } else if b == 32 {
        seq!['+']
    } else {
        seq!['%', hex_upper(b >> 4u8), hex_upper(b & 15u8)]
    }
}

/// Form serialisation of the bytes `b`.
pub open spec fn form_encode(b: Seq<u8>) -> Seq<char>
    decreases b.len(),
{
    if b.len() == 0 {
        seq![]
    } else {
        form_byte(b[0]) + form_encode(b.drop_first())
    }
}

/// The value of a hexadecimal digit, of either case.
pub open spec fn hex_value(c: u8) -> Option<u8> {
    if 48 <= c <= 57 {
        Some((c - 48) as u8)
    } else if 65 <= c <= 70 {
        Some((c - 55) as u8)
    } else if 97 <= c <= 102 {
        Some((c - 87) as u8)
    } else {
        None
    }
}

/// `b` with each `+` turned into a space.
pub open spec fn plus_to_space(b: Seq<u8>) -> Seq<u8> {
    b.map_values(|x: u8| if x == 43 { 32u8 } else { x })
}

/// Percent-decoding: `%` and two hexadecimal digits give one byte; any other
/// byte, a `%` without two digits after it included, stays as it is.
pub open spec fn percent_decode(b: Seq<u8>) -> Seq<u8>
    decreases b.len(),
{
    if b.len() == 0 {
        seq![]
    } else if b[0] == 37 && b.len() >= 3 && hex_value(b[1]) is Some && hex_value(b[2]) is Some {
        seq![(hex_value(b[1])->0 * 16 + hex_value(b[2])->0) as u8] + percent_decode(
            b.subrange(3, b.len() as int),
        )
    } else {
        seq![b[0]] + percent_decode(b.drop_first())
    }
}

/// What lossy UTF-8 decoding makes of bytes that are not valid UTF-8.
pub uninterp spec fn lossy_text(b: Seq<u8>) -> Seq<char>;

/// Bytes read as text: valid UTF-8 is decoded, anything else is read lossily.
pub open spec fn utf8_text(b: Seq<u8>) -> Seq<char> {
    if valid_utf8(b) {
        decode_utf8(b)
    } else {
        lossy_text(b)
    }
}

/// One name or value of form data, decoded to text.
pub open spec fn form_text(b: Seq<u8>) -> Seq<char> {
    utf8_text(percent_decode(plus_to_space(b)))
}

/// The non-empty pieces of `cur + b` between `&` separators.
pub open spec fn pieces(b: Seq<u8>, cur: Seq<u8>) -> Seq<Seq<u8>>
    decreases b.len(),
{
    if b.len() == 0 {
        if cur.len() == 0 {
            seq![]
        } else {
            seq![cur]
        }
    } else if b[0] == 38 {
        (if cur.len() == 0 {
            seq![]
        } else {
            seq![cur]
        }) + pieces(b.drop_first(), seq![])
    } else {
        pieces(b.drop_first(), cur.push(b[0]))
    }
}

/// The name part of a piece: the bytes before its first `=`.
pub open spec fn name_part(p: Seq<u8>) -> Seq<u8>
    decreases p.len(),
{
    if p.len() == 0 || p[0] == 61 {
        seq![]
    } else {
        seq![p[0]] + name_part(p.drop_first())
    }
}

/// The decoded names of the pairs of the form data `b`, in order.
pub open spec fn form_names(b: Seq<u8>) -> Seq<Seq<char>> {
    pieces(b, seq![]).map_values(|p: Seq<u8>| form_text(name_part(p)))
}

/// The texts of `s` one after another.
pub open spec fn joined(s: Seq<Seq<char>>) -> Seq<char>
    decreases s.len(),
{
    if s.len() == 0 {
        seq![]
    } else {
        joined(s.drop_last()) + s.last()
    }
}

/// Relies on `url::form_urlencoded::byte_serialize`: each byte written as
/// `form_byte` says.
#[verifier::external_body]
fn serialize(b: &[u8]) -> (r: String)
    ensures
        r@ == form_encode(b@),
{
    form_urlencoded::byte_serialize(b).collect()
}

/// Relies on `url::form_urlencoded::parse`: it splits at `&`, skips empty pieces,
/// takes the name before the first `=`, turns `+` into space, percent-decodes
/// and decodes UTF-8 lossily. Only the names are kept.
#[verifier::external_body]
fn parse_names(b: &[u8]) -> (r: Vec<String>)
    ensures
        r@.len() == pieces(b@, seq![]).len(),
        forall|i: int|
            0 <= i < r@.len() ==> {
                let d = percent_decode(plus_to_space(name_part(pieces(b@, seq![])[i])));
                #[trigger] r@[i]@ == if valid_utf8(d) {
                    decode_utf8(d)
                } else {
                    lossy_text(d)
                }
            },
{
    form_urlencoded::parse(b).map(|(k, _)| k.into_owned()).collect()
}

/// Relies on `String::push_str`: `t` is appended to `s`.
#[verifier::external_body]
fn append(s: &mut String, t: &str)
    ensures
        final(s)@ == old(s)@ + t@,
{
    s.push_str(t)
}

/// Form serialisation of the bytes `b`.
pub fn encode_form(b: &[u8]) -> (r: String)
    ensures
        r@ == form_encode(b@),
{
    serialize(b)
}

/// The names of the pairs of the form data `b`, decoded and joined; the
/// values are dropped.
pub fn decode_form_names(b: &[u8]) -> (r: String)
    ensures
        r@ == joined(form_names(b@)),
{
    let names = parse_names(b);
    let ghost all = form_names(b@);
    let mut out = String::new();
    let mut i: usize = 0;
    while i < names.len()
        invariant
            i <= names@.len(),
            names@.len() == all.len(),
            forall|j: int| 0 <= j < names@.len() ==> #[trigger] names@[j]@ == all[j],
            out@ == joined(all.take(i as int)),
        decreases names@.len() - i,
    {
        append(&mut out, names[i].as_str());
        proof {
            assert(all.take(i + 1).drop_last() =~= all.take(i as int));
        }
        i = i + 1;
    }
    proof {
        assert(all.take(i as int) =~= all);
    }
    out
}

/// The bytes of a text of ASCII characters.
pub open spec fn ascii_bytes(t: Seq<char>) -> Seq<u8> {
    t.map_values(|c: char| c as u8)
}

proof fn lemma_hex_upper(v: u8)
    requires
        v < 16,
    ensures
        hex_value(hex_upper(v) as u8) == Some(v),
        hex_upper(v) as u8 != 43,
        hex_upper(v) != '&',
        hex_upper(v) != '=',
        '\0' <= hex_upper(v) <= '\u{7f}',
{
}

proof fn lemma_decode_chunk(x: u8, rest: Seq<u8>)
    ensures
        percent_decode(plus_to_space(ascii_bytes(form_byte(x))) + rest) == seq![x]
            + percent_decode(rest),
        is_ascii_chars(form_byte(x)),
        forall|i: int|
            0 <= i < form_byte(x).len() ==> #[trigger] form_byte(x)[i] != '&' && form_byte(x)[i]
                != '=',
{
    let c = plus_to_space(ascii_bytes(form_byte(x)));
    let all = c + rest;
    if is_unreserved(x) {
        assert(all.drop_first() =~= rest);
    } else if x == 32 {
        assert(all.drop_first() =~= rest);
    } else {
        let hi = x >> 4u8;
        let lo = x & 15u8;
        assert(x >> 4u8 == x / 16u8 && x & 15u8 == x % 16u8) by (bit_vector);
        lemma_hex_upper(hi);
        lemma_hex_upper(lo);
        assert(all.subrange(3, all.len() as int) =~= rest);
    }
}

proof fn lemma_form_decode_encode(b: Seq<u8>)
    ensures
        percent_decode(plus_to_space(ascii_bytes(form_encode(b)))) == b,
        is_ascii_chars(form_encode(b)),
        forall|i: int|
            0 <= i < form_encode(b).len() ==> #[trigger] form_encode(b)[i] != '&'
                && form_encode(b)[i] != '=',
    decreases b.len(),
{
    if b.len() > 0 {
        let rest = b.drop_first();
        lemma_form_decode_encode(rest);
        let tail = plus_to_space(ascii_bytes(form_encode(rest)));
        lemma_decode_chunk(b[0], tail);
        assert(plus_to_space(ascii_bytes(form_encode(b))) =~= plus_to_space(
            ascii_bytes(form_byte(b[0])),
        ) + tail);
        assert(seq![b[0]] + rest =~= b);
        let e = form_encode(b);
        let f = form_byte(b[0]);
        assert forall|i: int| 0 <= i < e.len() implies '\0' <= #[trigger] e[i] <= '\u{7f}'
            && e[i] != '&' && e[i] != '=' by {
            if i >= f.len() {
                assert(e[i] == form_encode(rest)[i - f.len()]);
            }
        }
    }
}

proof fn lemma_pieces_whole(b: Seq<u8>, cur: Seq<u8>)
    requires
        forall|i: int| 0 <= i < b.len() ==> #[trigger] b[i] != 38,
    ensures
        pieces(b, cur) == if (cur + b).len() == 0 {
            seq![]
        } else {
            seq![cur + b]
        },
    decreases b.len(),
{
    if b.len() == 0 {
        assert(cur + b =~= cur);
    } else {
        assert(b[0] != 38);
        lemma_pieces_whole(b.drop_first(), cur.push(b[0]));
        assert(cur.push(b[0]) + b.drop_first() =~= cur + b);
    }
}

proof fn lemma_name_part_whole(p: Seq<u8>)
    requires
        forall|i: int| 0 <= i < p.len() ==> #[trigger] p[i] != 61,
    ensures
        name_part(p) == p,
    decreases p.len(),
{
    if p.len() > 0 {
        assert(p[0] != 61);
        lemma_name_part_whole(p.drop_first());
        assert(seq![p[0]] + p.drop_first() =~= p);
    }
}

/// Parsing the serialisation of valid UTF-8 as form data gives back its text.
pub proof fn lemma_form_round_trip(b: Seq<u8>)
    requires
        valid_utf8(b),
    ensures
        joined(form_names(encode_utf8(form_encode(b)))) == decode_utf8(b),
{
    let e = form_encode(b);
    lemma_form_decode_encode(b);
    is_ascii_chars_encode_utf8(e);
    let bytes = encode_utf8(e);
    assert(bytes =~= ascii_bytes(e));
    assert forall|i: int| 0 <= i < bytes.len() implies #[trigger] bytes[i] != 38 && bytes[i]
        != 61 by {
        assert(e[i] != '&' && e[i] != '=');
        assert('\0' <= e[i] <= '\u{7f}');
    }
    lemma_pieces_whole(bytes, seq![]);
    assert(seq![] + bytes =~= bytes);
    if bytes.len() == 0 {
        assert(b.len() == 0) by {
            if b.len() > 0 {
                assert(form_encode(b).len() >= form_byte(b[0]).len());
            }
        }
        assert(decode_utf8(b) =~= seq![]);
        assert(form_names(bytes) =~= seq![]);
    } else {
        lemma_name_part_whole(bytes);
        let names = form_names(bytes);
        assert(names =~= seq![decode_utf8(b)]);
        assert(names.drop_last() =~= seq![]);
        assert(joined(names.drop_last()) =~= seq![]);
        assert(joined(names) =~= decode_utf8(b));
    }
}

} // verus!
