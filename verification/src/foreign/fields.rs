//! Header fields: the map and the values of the `http` crate, and the typed
//! `Authorization` header of the `headers` crate.

use headers::{Authorization, HeaderMapExt};
use http::header::{HeaderMap, HeaderValue, InvalidHeaderValue, ToStrError};
use vstd::prelude::*;
use vstd::utf8::*;

verus! {

/// A multimap from header names to header values.
#[verifier::external_type_specification]
#[verifier::external_body]
#[verifier::reject_recursive_types(T)]
pub struct ExHeaderMap<T>(HeaderMap<T>);

/// The value of one header field.
#[verifier::external_type_specification]
#[verifier::external_body]
pub struct ExHeaderValue(HeaderValue);

/// What `HeaderValue::from_str` reports.
#[verifier::external_type_specification]
#[verifier::external_body]
pub struct ExInvalidHeaderValue(InvalidHeaderValue);

/// What `HeaderValue::to_str` reports.
#[verifier::external_type_specification]
#[verifier::external_body]
pub struct ExToStrError(ToStrError);

/// The bytes that a header value holds.
pub uninterp spec fn value_bytes(value: HeaderValue) -> Seq<u8>;

/// Whether a header value is marked as sensitive.
pub uninterp spec fn value_sensitive(value: HeaderValue) -> bool;

/// Header fields: under each name, its values, each with its sensitivity mark.
pub type Fields = Map<Seq<char>, Seq<(Seq<u8>, bool)>>;

/// What a header map holds: under each name, in lower case, its values in the
/// order in which they were added, each with its sensitivity mark.
pub uninterp spec fn fields(map: HeaderMap<HeaderValue>) -> Fields;

/// The bytes of the standard Base64 encoding, with padding.
pub uninterp spec fn base64(bytes: Seq<u8>) -> Seq<u8>;

/// The `Authorization` value that carries `username` and `password` in the
/// Basic scheme: the encoding of the two with a colon between them, behind the
/// scheme's name.
pub open spec fn basic_credentials(username: Seq<char>, password: Seq<char>) -> Seq<u8> {
    encode_utf8("Basic "@) + base64(encode_utf8(username + seq![':'] + password))
}

/// The values under `name`, none if the name is absent.
pub open spec fn values_of(contents: Fields, name: Seq<char>) -> Seq<(Seq<u8>, bool)> {
    if contents.dom().contains(name) {
        contents[name]
    } else {
        Seq::empty()
    }
}

/// A byte that a header value may hold: anything but control bytes, with the
/// horizontal tab allowed.
pub open spec fn is_field_byte(byte: u8) -> bool {
    (byte >= 32 && byte != 127) || byte == 9
}

/// A byte that a header value read as text may hold: visible ASCII, the space
/// and the horizontal tab.
pub open spec fn is_visible_byte(byte: u8) -> bool {
    (32 <= byte && byte < 127) || byte == 9
}

/// A text whose UTF-8 encoding may stand in a header value.
pub open spec fn is_field_text(text: Seq<char>) -> bool {
    forall|i: int|
        0 <= i < encode_utf8(text).len() ==> is_field_byte(#[trigger] encode_utf8(text)[i])
}

/// A short header name in lower case, as the callers in this crate spell them.
pub open spec fn is_plain_name(name: Seq<char>) -> bool {
    &&& 0 < name.len() <= 64
    &&& forall|i: int|
        0 <= i < name.len() ==> (('a' <= #[trigger] name[i] && name[i] <= 'z') || name[i] == '-')
}

/// `HeaderValue::from_str` copies the text's bytes into a value that is not
/// marked as sensitive, and fails exactly if one of them may not stand in one.
pub assume_specification[ HeaderValue::from_str ](src: &str) -> (value: Result<
    HeaderValue,
    InvalidHeaderValue,
>)
    ensures
        value is Ok <==> is_field_text(src@),
        value matches Ok(v) ==> value_bytes(v) == encode_utf8(src@) && !value_sensitive(v),
;

/// `HeaderValue::from_static` takes over the bytes of a visible ASCII text, in
/// a value that is not marked as sensitive. On other texts it panics.
pub assume_specification[ HeaderValue::from_static ](src: &'static str) -> (value: HeaderValue)
    requires
        forall|i: int|
            0 <= i < encode_utf8(src@).len() ==> is_visible_byte(#[trigger] encode_utf8(src@)[i]),
    ensures
        value_bytes(value) == encode_utf8(src@),
        !value_sensitive(value),
;

/// `HeaderValue::to_str` lends the bytes as text, and fails exactly if one of
/// them is not visible ASCII.
pub assume_specification[ HeaderValue::to_str ](value: &HeaderValue) -> (text: Result<
    &str,
    ToStrError,
>)
    ensures
        text is Ok <==> (forall|i: int|
            0 <= i < value_bytes(*value).len() ==> is_visible_byte(
                #[trigger] value_bytes(*value)[i],
            )),
        text matches Ok(t) ==> encode_utf8(t@) == value_bytes(*value),
;

/// `HeaderMap::new` makes a map without fields.
pub assume_specification[ HeaderMap::<HeaderValue>::new ]() -> (made: HeaderMap<HeaderValue>)
    ensures
        fields(made) == Fields::empty(),
;

/// `HeaderMap::insert` puts `value` under `name` as its only value. It panics
/// on a text that is no header name, and where the map would outgrow its
/// table, which takes at least 6554 names.
#[verifier::external_body]
pub(crate) fn insert_field(
    map: &mut HeaderMap<HeaderValue>,
    name: &'static str,
    value: HeaderValue,
)
    requires
        is_plain_name(name@),
        fields(*old(map)).dom().finite(),
        fields(*old(map)).dom().len() < 6554,
    ensures
        fields(*final(map)) == fields(*old(map)).insert(
            name@,
            seq![(value_bytes(value), value_sensitive(value))],
        ),
{
    map.insert(name, value);
}

/// `HeaderMapExt::typed_insert` with `Authorization::basic` joins the user name
/// and the password with a colon, and puts their Base64 encoding behind the name
/// of the scheme, marked as sensitive, under the name of the header as its only
/// value. It panics where the map would outgrow its table, as an insertion does.
#[verifier::external_body]
pub(crate) fn insert_basic_authorization(
    map: &mut HeaderMap<HeaderValue>,
    username: &str,
    password: &str,
)
    requires
        fields(*old(map)).dom().finite(),
        fields(*old(map)).dom().len() < 6554,
    ensures
        fields(*final(map)) == fields(*old(map)).insert(
            "authorization"@,
            seq![
                (
                    encode_utf8("Basic "@) + base64(encode_utf8(username@ + seq![':'] + password@)),
                    true,
                ),
            ],
        ),
{
    map.typed_insert(Authorization::basic(username, password));
}

/// `HeaderMap::get` lends the first value under `name`, if there is one.
#[verifier::external_body]
pub(crate) fn first_value<'a>(map: &'a HeaderMap<HeaderValue>, name: &str) -> (value: Option<
    &'a HeaderValue,
>)
    requires
        is_plain_name(name@),
    ensures
        value is Some <==> values_of(fields(*map), name@).len() > 0,
        value matches Some(v) ==> values_of(fields(*map), name@)[0] == (
            value_bytes(*v),
            value_sensitive(*v),
        ),
{
    map.get(name)
}

/// `HeaderMap::get_all` hands out the values under `name` in order; their
/// bytes are copied.
#[verifier::external_body]
pub(crate) fn all_values(map: &HeaderMap<HeaderValue>, name: &str) -> (values: Vec<Vec<u8>>)
    requires
        is_plain_name(name@),
    ensures
        values@.len() == values_of(fields(*map), name@).len(),
        forall|i: int|
            0 <= i < values@.len() ==> (#[trigger] values@[i])@ == values_of(
                fields(*map),
                name@,
            )[i].0,
{
    map.get_all(name).iter().map(|value| value.as_bytes().to_vec()).collect()
}

/// `HeaderMap::remove` takes every value under `name` out of the map.
#[verifier::external_body]
pub(crate) fn remove_field(map: &mut HeaderMap<HeaderValue>, name: &str)
    requires
        is_plain_name(name@),
    ensures
        fields(*final(map)) == fields(*old(map)).remove(name@),
{
    map.remove(name);
}

/// A character that may stand in a header value: anything but control
/// characters, with the horizontal tab allowed.
pub open spec fn is_field_char(c: char) -> bool {
    (c as u32 >= 32 && c as u32 != 127) || c as u32 == 9
}

/// A text without control characters but the horizontal tab.
pub open spec fn is_field_chars(text: Seq<char>) -> bool {
    forall|i: int| 0 <= i < text.len() ==> is_field_char(#[trigger] text[i])
}

/// The encoding of one character may stand in a header value exactly if the
/// character may.
proof fn lemma_field_scalar(c: char)
    ensures
        is_field_char(c) <==> (forall|i: int|
            0 <= i < encode_scalar(c as u32).len() ==> is_field_byte(
                #[trigger] encode_scalar(c as u32)[i],
            )),
{
    let scalar = c as u32;
    let bytes = encode_scalar(scalar);
    if has_width_1_encoding(scalar) {
        assert(scalar <= 0x7f ==> leading_byte_width_1(scalar) == scalar) by (bit_vector);
        assert(bytes[0] == scalar);
    } else {
        assert(leading_byte_width_2(scalar) >= 0x80) by (bit_vector);
        assert(leading_byte_width_3(scalar) >= 0x80) by (bit_vector);
        assert(leading_byte_width_4(scalar) >= 0x80) by (bit_vector);
        assert(last_continuation_byte(scalar) >= 0x80) by (bit_vector);
        assert(second_last_continuation_byte(scalar) >= 0x80) by (bit_vector);
        assert(third_last_continuation_byte(scalar) >= 0x80) by (bit_vector);
    }
}

/// A text may stand in a header value exactly if it holds no control character
/// but the horizontal tab.
pub proof fn law_field_text_by_characters(text: Seq<char>)
    ensures
        is_field_text(text) <==> is_field_chars(text),
    decreases text.len(),
{
    if text.len() > 0 {
        let head = encode_scalar(text[0] as u32);
        let rest = text.drop_first();
        let tail = encode_utf8(rest);
        let bytes = encode_utf8(text);
        assert(bytes == head + tail);
        lemma_field_scalar(text[0]);
        law_field_text_by_characters(rest);
        if is_field_text(text) {
            assert forall|i: int| 0 <= i < head.len() implies is_field_byte(#[trigger] head[i]) by {
                assert(bytes[i] == head[i]);
            }
            assert forall|i: int| 0 <= i < tail.len() implies is_field_byte(#[trigger] tail[i]) by {
                assert(bytes[head.len() + i] == tail[i]);
            }
            assert forall|i: int| 0 <= i < text.len() implies is_field_char(#[trigger] text[i]) by {
                if i > 0 {
                    assert(rest[i - 1] == text[i]);
                }
            }
        }
        if is_field_chars(text) {
            assert forall|i: int| 0 <= i < rest.len() implies is_field_char(#[trigger] rest[i]) by {
                assert(rest[i] == text[i + 1]);
            }
            assert forall|i: int| 0 <= i < bytes.len() implies is_field_byte(
                #[trigger] bytes[i],
            ) by {
                if i < head.len() {
                    assert(bytes[i] == head[i]);
                } else {
                    assert(bytes[i] == tail[i - head.len()]);
                }
            }
        }
    }
}

/// The values under a name are those that the fields hold there, and none where
/// they hold nothing.
pub proof fn law_values_are_those_under_the_name(contents: Fields, name: Seq<char>)
    ensures
        contents.dom().contains(name) ==> values_of(contents, name) == contents[name],
        !contents.dom().contains(name) ==> values_of(contents, name).len() == 0,
{
}

/// The credentials are the name of the scheme and a space, and then the encoding
/// of the user name, a colon and the password.
pub proof fn law_credentials_by_their_parts(username: Seq<char>, password: Seq<char>)
    ensures
        basic_credentials(username, password) == encode_utf8("Basic "@) + base64(
            encode_utf8(username + seq![':'] + password),
        ),
{
}

/// A text may stand in a header value exactly if each of its characters is the
/// horizontal tab or no control character.
pub proof fn law_field_text_by_code_points(text: Seq<char>)
    ensures
        is_field_text(text) <==> (forall|i: int|
            0 <= i < text.len() ==> {
                let c = #[trigger] text[i] as u32;
                c == 9 || (c >= 32 && c != 127)
            }),
{
    law_field_text_by_characters(text);
    if forall|i: int|
        0 <= i < text.len() ==> {
            let c = #[trigger] text[i] as u32;
            c == 9 || (c >= 32 && c != 127)
        } {
        assert forall|i: int| 0 <= i < text.len() implies is_field_char(#[trigger] text[i]) by {}
    }
}

} // verus!
