//! Message payloads: the byte buffer of the `bytes` crate, the text payload of
//! the `tungstenite` crate, and the standard library's UTF-8 check.

use bytes::Bytes;
use tungstenite::Utf8Bytes;
use vstd::prelude::*;
use vstd::utf8::{encode_utf8, valid_utf8};

verus! {

/// A buffer of bytes.
#[verifier::external_type_specification]
#[verifier::external_body]
pub struct ExBytes(Bytes);

/// A text payload.
#[verifier::external_type_specification]
#[verifier::external_body]
pub struct ExUtf8Bytes(Utf8Bytes);

/// The bytes in a buffer.
pub uninterp spec fn contents(buffer: Bytes) -> Seq<u8>;

/// The characters of a text payload.
pub uninterp spec fn text_of(payload: Utf8Bytes) -> Seq<char>;

/// `Bytes::from` a vector takes over its bytes.
#[verifier::external_body]
pub(crate) fn buffer_from_vec(data: Vec<u8>) -> (buffer: Bytes)
    ensures
        contents(buffer) == data@,
{
    Bytes::from(data)
}

/// `Bytes::to_vec`, the slice method, copies the bytes out.
#[verifier::external_body]
pub(crate) fn vec_from_buffer(buffer: &Bytes) -> (data: Vec<u8>)
    ensures
        data@ == contents(*buffer),
{
    buffer.to_vec()
}

/// `Utf8Bytes::from` a string takes over its text.
#[verifier::external_body]
pub(crate) fn payload_from_string(text: String) -> (payload: Utf8Bytes)
    ensures
        text_of(payload) == text@,
{
    Utf8Bytes::from(text)
}

/// `Bytes::from` a text payload unwraps the buffer, which holds the UTF-8
/// encoding of the text.
#[verifier::external_body]
pub(crate) fn buffer_from_payload(payload: Utf8Bytes) -> (buffer: Bytes)
    ensures
        contents(buffer) == encode_utf8(text_of(payload)),
{
    Bytes::from(payload)
}

/// `std::str::from_utf8` reads the bytes as text, and fails exactly if they
/// are not valid UTF-8; the text is copied.
#[verifier::external_body]
pub(crate) fn utf8_text(data: &[u8]) -> (text: Option<String>)
    ensures
        text is Some <==> valid_utf8(data@),
        text matches Some(t) ==> encode_utf8(t@) == data@,
{
    std::str::from_utf8(data).ok().map(String::from)
}

} // verus!
