use vstd::prelude::*;

use reqwest::header::{HeaderMap, HeaderValue, InvalidHeaderValue};
use vstd::utf8::{
    encode_scalar, encode_utf8, has_width_1_encoding, has_width_2_encoding, has_width_3_encoding,
    has_width_4_encoding, last_continuation_byte, leading_byte_width_1, leading_byte_width_2,
    leading_byte_width_3, leading_byte_width_4, second_last_continuation_byte,
    third_last_continuation_byte,
};

verus! {

/// `reqwest::header::HeaderMap`, a multimap from header names to values.
#[verifier::external_type_specification]
#[verifier::external_body]
#[verifier::reject_recursive_types(T)]
pub struct ExHeaderMap<T>(HeaderMap<T>);

/// `reqwest::header::HeaderValue`, the bytes of one header value.
#[verifier::external_type_specification]
#[verifier::external_body]
pub struct ExHeaderValue(HeaderValue);

/// `reqwest::header::InvalidHeaderValue`, the error of `HeaderValue::from_str`.
#[verifier::external_type_specification]
#[verifier::external_body]
pub struct ExInvalidHeaderValue(InvalidHeaderValue);

/// What a header map holds: for each header name (in lower case), the
/// bytes of its values in the order they were added.
pub uninterp spec fn header_entries(map: HeaderMap) -> Map<Seq<char>, Seq<Seq<u8>>>;

/// The bytes of a header value.
pub uninterp spec fn header_value_bytes(value: HeaderValue) -> Seq<u8>;

/// Whether a byte may stand in a header value: a visible character, a
/// space, a byte from 128 up, or a horizontal tab (`is_valid` in `http`).
pub open spec fn header_value_byte_ok(b: u8) -> bool {
    (b >= 32 && b != 127) || b == 9
}

/// Whether every byte of `bytes` may stand in a header value.
pub open spec fn header_value_ok(bytes: Seq<u8>) -> bool {
    forall|i: int| 0 <= i < bytes.len() ==> #[trigger] header_value_byte_ok(bytes[i])
}

/// Whether `name` is accepted by `HeaderMap::insert` as a `&'static str`
/// key without a panic and stored as it is: between 1 and 64 characters,
/// each a lower-case ASCII letter, a digit or `-`.
pub open spec fn plain_header_name(name: Seq<char>) -> bool {
    &&& 1 <= name.len() <= 64
    &&& forall|i: int|
        0 <= i < name.len() ==> {
            let c = #[trigger] name[i];
            ('a' <= c && c <= 'z') || ('0' <= c && c <= '9') || c == '-'
        }
}

/// An empty header map (`HeaderMap::new`).
#[verifier::external_body]
pub(crate) fn header_map_new() -> (empty: HeaderMap)
    ensures
        header_entries(empty) =~= Map::empty(),
{
    HeaderMap::new()
}

/// `HeaderValue::from_str`: succeeds exactly when every byte of the UTF-8
/// encoding of `text` may stand in a header value, and then holds those
/// bytes.
#[verifier::external_body]
pub(crate) fn header_value_from_str(text: &str) -> (res: Result<HeaderValue, InvalidHeaderValue>)
    ensures
        res is Ok <==> header_value_ok(encode_utf8(text@)),
        res matches Ok(v) ==> header_value_bytes(v) == encode_utf8(text@),
{
    HeaderValue::from_str(text)
}

/// `HeaderMap::insert` with a `&'static str` name: the name then holds
/// `value` alone, every other name keeps its values, and the first previous
/// value of the name, if there was one, is handed back. `HeaderMap::insert`
/// panics on a name that its parser refuses and when the map would need
/// more than its maximum of 32768 slots; the `requires` rules out both: the
/// name is 1 to 64 lower-case letters, digits and `-`, and the map holds
/// fewer than 1024 names (its slots grow to at most eight times its names).
#[verifier::external_body]
pub(crate) fn header_map_insert(map: &mut HeaderMap, name: &'static str, value: HeaderValue) -> (previous: Option<HeaderValue>)
    requires
        plain_header_name(name@),
        header_entries(*old(map)).dom().finite(),
        header_entries(*old(map)).dom().len() < 1024,
    ensures
        header_entries(*final(map)) == header_entries(*old(map)).insert(
            name@,
            seq![header_value_bytes(value)],
        ),
        previous is Some <==> header_entries(*old(map)).dom().contains(name@),
        previous matches Some(p) ==> header_value_bytes(p) == header_entries(*old(map))[name@][0],
{
    map.insert(name, value)
}

/// Whether a character may stand in a header value: a horizontal tab
/// (U+0009), or any character from the space (U+0020) up other than DEL
/// (U+007F).
pub open spec fn header_value_char_ok(c: char) -> bool {
    c as u32 == 9 || (c as u32 >= 32 && c as u32 != 127)
}

/// Whether every character of `text` may stand in a header value.
pub open spec fn header_value_text_ok(text: Seq<char>) -> bool {
    forall|i: int| 0 <= i < text.len() ==> #[trigger] header_value_char_ok(text[i])
}

proof fn lemma_byte_ok_concat(a: Seq<u8>, b: Seq<u8>)
    ensures
        header_value_ok(a + b) <==> header_value_ok(a) && header_value_ok(b),
{
    if header_value_ok(a + b) {
        assert forall|i: int| 0 <= i < a.len() implies #[trigger] header_value_byte_ok(a[i]) by {
            assert((a + b)[i] == a[i]);
        }
        assert forall|i: int| 0 <= i < b.len() implies #[trigger] header_value_byte_ok(b[i]) by {
            assert((a + b)[a.len() + i] == b[i]);
        }
    }
    if header_value_ok(a) && header_value_ok(b) {
        assert forall|i: int| 0 <= i < (a + b).len() implies #[trigger] header_value_byte_ok(
            (a + b)[i],
        ) by {
            if i < a.len() {
                assert((a + b)[i] == a[i]);
            } else {
                assert((a + b)[i] == b[i - a.len()]);
            }
        }
    }
}

proof fn lemma_high_bytes_ok(x: u32)
    by (bit_vector)
    ensures
        (0xC0u8 | ((x >> 6) & 0x1F) as u8) >= 128,
        (0xE0u8 | ((x >> 12) & 0x0F) as u8) >= 128,
        (0xF0u8 | ((x >> 18) & 0x7) as u8) >= 128,
        (0x80u8 | (x & 0x3F) as u8) >= 128,
        (0x80u8 | ((x >> 6) & 0x3F) as u8) >= 128,
        (0x80u8 | ((x >> 12) & 0x3F) as u8) >= 128,
{
}

proof fn lemma_low_byte(x: u32)
    by (bit_vector)
    requires
        x <= 0x7F,
    ensures
        (x & 0x7F) as u8 == x,
{
}

/// The UTF-8 encoding of one character is fit for a header value exactly
/// when the character is.
proof fn lemma_scalar_ok(c: char)
    ensures
        header_value_ok(encode_scalar(c as u32)) <==> header_value_char_ok(c),
{
    let x = c as u32;
    lemma_high_bytes_ok(x);
    if has_width_1_encoding(x) {
        lemma_low_byte(x);
        assert(encode_scalar(x) == seq![leading_byte_width_1(x)]);
        assert(encode_scalar(x)[0] == x as u8);
        if header_value_ok(encode_scalar(x)) {
            assert(header_value_byte_ok(encode_scalar(x)[0]));
        }
    } else if has_width_2_encoding(x) {
        let e = encode_scalar(x);
        assert(e == seq![leading_byte_width_2(x), last_continuation_byte(x)]);
        assert(header_value_byte_ok(e[0]) && header_value_byte_ok(e[1]));
    } else if has_width_3_encoding(x) {
        let e = encode_scalar(x);
        assert(e == seq![
            leading_byte_width_3(x),
            second_last_continuation_byte(x),
            last_continuation_byte(x),
        ]);
        assert(header_value_byte_ok(e[0]) && header_value_byte_ok(e[1]) && header_value_byte_ok(e[2]));
    } else {
        let e = encode_scalar(x);
        assert(e == seq![
            leading_byte_width_4(x),
            third_last_continuation_byte(x),
            second_last_continuation_byte(x),
            last_continuation_byte(x),
        ]);
        assert(header_value_byte_ok(e[0]) && header_value_byte_ok(e[1]) && header_value_byte_ok(e[2])
            && header_value_byte_ok(e[3]));
    }
}

/// A text is accepted as a header value exactly when each of its characters
/// is a tab or lies at or above the space and is not DEL: the byte-level
/// rule of `HeaderValue::from_str` read on characters. In particular a text
/// with a line break or another control character is refused, and every
/// character from U+0080 up is accepted.
pub proof fn lemma_header_value_chars(text: Seq<char>)
    ensures
        header_value_ok(encode_utf8(text)) <==> header_value_text_ok(text),
    decreases text.len(),
{
    if text.len() == 0 {
        assert(encode_utf8(text) =~= Seq::<u8>::empty());
    } else {
        let rest = text.drop_first();
        lemma_header_value_chars(rest);
        lemma_scalar_ok(text[0]);
        lemma_byte_ok_concat(encode_scalar(text[0] as u32), encode_utf8(rest));
        if header_value_text_ok(text) {
            assert forall|i: int| 0 <= i < rest.len() implies #[trigger] header_value_char_ok(
                rest[i],
            ) by {
                assert(rest[i] == text[i + 1]);
            }
            assert(header_value_char_ok(text[0]));
        }
        if header_value_char_ok(text[0]) && header_value_text_ok(rest) {
            assert forall|i: int| 0 <= i < text.len() implies #[trigger] header_value_char_ok(
                text[i],
            ) by {
                if i > 0 {
                    assert(text[i] == rest[i - 1]);
                }
            }
        }
    }
}

} // verus!
