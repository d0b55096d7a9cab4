//! The mapping of WebSocket messages between the page's side and the wire.
//!
//! Every variant maps explicitly and payloads move by ownership. Close codes
//! cross as plain numbers, and text crosses as the buffer that holds its UTF-8
//! encoding.

use bytes::Bytes;
use tungstenite::Utf8Bytes;
use vstd::prelude::*;
use vstd::utf8::{
    decode_utf8, decode_utf8_encode_utf8, encode_utf8, encode_utf8_decode_utf8,
    encode_utf8_valid_utf8, valid_utf8,
};

use crate::foreign::payload::{
    buffer_from_payload, buffer_from_vec, contents, payload_from_string, text_of, utf8_text,
    vec_from_buffer,
};

verus! {

/// What a WebSocket message says, whichever side it is on.
pub enum Content {
    Text(Seq<char>),
    Binary(Seq<u8>),
    Ping(Seq<u8>),
    Pong(Seq<u8>),
    Close(Option<(u16, Seq<char>)>),
    Frame(Seq<u8>),
}

/// Data that the page sends or receives.
pub enum Data {
    Text(Seq<char>),
    Binary(Seq<u8>),
}

/// Data as the page hands it over and gets it.
#[derive(Debug)]
pub enum MessageData {
    Text(String),
    Binary(Vec<u8>),
}

impl View for MessageData {
    type V = Data;

    open spec fn view(&self) -> Data {
        match self {
            MessageData::Text(text) => Data::Text(text@),
            MessageData::Binary(data) => Data::Binary(data@),
        }
    }
}

/// Why the connection is closed, on the page's side.
#[derive(Debug)]
pub struct CloseFrame {
    pub code: u16,
    pub reason: Utf8Bytes,
}

/// A message on the page's side.
#[derive(Debug)]
pub enum Message {
    Text(Utf8Bytes),
    Binary(Bytes),
    Ping(Bytes),
    Pong(Bytes),
    Close(Option<CloseFrame>),
    /// The payload of a raw frame. Streams never surface one to this layer.
    Frame(Bytes),
}

impl View for Message {
    type V = Content;

    open spec fn view(&self) -> Content {
        match self {
            Message::Text(text) => Content::Text(text_of(*text)),
            Message::Binary(data) => Content::Binary(contents(*data)),
            Message::Ping(data) => Content::Ping(contents(*data)),
            Message::Pong(data) => Content::Pong(contents(*data)),
            Message::Close(frame) => Content::Close(
                match frame {
                    Some(frame) => Some((frame.code, text_of(frame.reason))),
                    None => None,
                },
            ),
            Message::Frame(data) => Content::Frame(contents(*data)),
        }
    }
}

/// Text on the wire: a buffer that holds valid UTF-8.
#[derive(Debug)]
pub struct WireText {
    buffer: Bytes,
}

impl View for WireText {
    type V = Seq<char>;

    closed spec fn view(&self) -> Seq<char> {
        decode_utf8(contents(self.buffer))
    }
}

impl WireText {
    #[verifier::type_invariant]
    spec fn is_utf8(self) -> bool {
        valid_utf8(contents(self.buffer))
    }

    /// Takes over a buffer as text, if it holds valid UTF-8.
    pub fn try_from_buffer(buffer: Bytes) -> (text: Option<WireText>)
        ensures
            text is Some <==> valid_utf8(contents(buffer)),
            text matches Some(t) ==> t@ == decode_utf8(contents(buffer)),
    {
        let data = vec_from_buffer(&buffer);
        match utf8_text(data.as_slice()) {
            Some(_) => Some(WireText { buffer }),
            None => None,
        }
    }

    /// The buffer that holds the text.
    pub fn into_buffer(self) -> (buffer: Bytes)
        ensures
            contents(buffer) == encode_utf8(self@),
    {
        proof {
            use_type_invariant(&self);
            decode_utf8_encode_utf8(contents(self.buffer));
        }
        self.buffer
    }

    /// The text as a string.
    pub fn to_text(&self) -> (text: String)
        ensures
            text@ == self@,
    {
        proof {
            use_type_invariant(self);
        }
        let data = vec_from_buffer(&self.buffer);
        match utf8_text(data.as_slice()) {
            Some(text) => {
                proof {
                    encode_utf8_decode_utf8(text@);
                }
                text
            },
            None => vstd::pervasive::unreached(),
        }
    }
}

/// Why the connection is closed, on the wire.
#[derive(Debug)]
pub struct WireCloseFrame {
    pub code: u16,
    pub reason: WireText,
}

/// A message on the wire.
#[derive(Debug)]
pub enum WireMessage {
    Text(WireText),
    Binary(Bytes),
    Ping(Bytes),
    Pong(Bytes),
    Close(Option<WireCloseFrame>),
}

impl View for WireMessage {
    type V = Content;

    open spec fn view(&self) -> Content {
        match self {
            WireMessage::Text(text) => Content::Text(text@),
            WireMessage::Binary(data) => Content::Binary(contents(*data)),
            WireMessage::Ping(data) => Content::Ping(contents(*data)),
            WireMessage::Pong(data) => Content::Pong(contents(*data)),
            WireMessage::Close(frame) => Content::Close(
                match frame {
                    Some(frame) => Some((frame.code, frame.reason@)),
                    None => None,
                },
            ),
        }
    }
}

/// What the message that carries `data` says.
pub open spec fn content_of(data: Data) -> Content {
    match data {
        Data::Text(text) => Content::Text(text),
        Data::Binary(data) => Content::Binary(data),
    }
}

/// The data that a message brings the page, if it brings any.
pub open spec fn data_in(message: Content) -> Option<Data> {
    match message {
        Content::Text(text) => Some(Data::Text(text)),
        Content::Binary(data) => Some(Data::Binary(data)),
        _ => None,
    }
}

/// The text on the wire that says what `text` says. The buffer moves; that it
/// holds valid UTF-8 is known from where it comes from.
pub fn utf8_to_wreq(text: Utf8Bytes) -> (wire: WireText)
    ensures
        wire@ == text_of(text),
{
    let ghost said = text_of(text);
    let buffer = buffer_from_payload(text);
    proof {
        encode_utf8_valid_utf8(said);
        encode_utf8_decode_utf8(said);
    }
    WireText { buffer }
}

/// The message that carries `data`.
pub fn message_from_data(data: MessageData) -> (message: Message)
    ensures
        message@ == content_of(data@),
        data matches MessageData::Text(given) ==> (message matches Message::Text(text) && text_of(
            text,
        ) == given@),
        data matches MessageData::Binary(given) ==> (message matches Message::Binary(buffer)
            && contents(buffer) == given@),
{
    match data {
        MessageData::Text(text) => Message::Text(payload_from_string(text)),
        MessageData::Binary(data) => Message::Binary(buffer_from_vec(data)),
    }
}

/// Outgoing, page to wire: the same message on the other side.
pub fn dom_to_wreq(message: Message) -> (wire: WireMessage)
    requires
        !(message is Frame),
    ensures
        wire@ == message@,
        match message {
            Message::Text(given) => wire matches WireMessage::Text(text) && text@ == text_of(given),
            Message::Binary(given) => wire == WireMessage::Binary(given),
            Message::Ping(given) => wire == WireMessage::Ping(given),
            Message::Pong(given) => wire == WireMessage::Pong(given),
            Message::Close(None) => wire == WireMessage::Close(None),
            Message::Close(Some(given)) => wire matches WireMessage::Close(Some(frame))
                && frame.code == given.code && frame.reason@ == text_of(given.reason),
            Message::Frame(_) => true,
        },
{
    match message {
        Message::Text(text) => WireMessage::Text(utf8_to_wreq(text)),
        Message::Binary(data) => WireMessage::Binary(data),
        Message::Ping(data) => WireMessage::Ping(data),
        Message::Pong(data) => WireMessage::Pong(data),
        Message::Close(frame) => WireMessage::Close(
            match frame {
                Some(frame) => Some(
                    WireCloseFrame { code: frame.code, reason: utf8_to_wreq(frame.reason) },
                ),
                None => None,
            },
        ),
        Message::Frame(_) => vstd::pervasive::unreached(),
    }
}

/// Incoming, wire to page: the data that the message brings. `None` for what
/// the transport has answered already, and for a close, which the message loop
/// reports itself.
pub fn wreq_to_message_data(message: WireMessage) -> (data: Option<MessageData>)
    ensures
        data is Some <==> data_in(message@) is Some,
        data matches Some(d) ==> data_in(message@) == Some(d@),
        match message {
            WireMessage::Text(given) => data matches Some(MessageData::Text(text)) && text@
                == given@,
            WireMessage::Binary(given) => data matches Some(MessageData::Binary(bytes)) && bytes@
                == contents(given),
            WireMessage::Ping(_) | WireMessage::Pong(_) | WireMessage::Close(_) => data is None,
        },
{
    match message {
        WireMessage::Text(text) => Some(MessageData::Text(text.to_text())),
        WireMessage::Binary(data) => Some(MessageData::Binary(vec_from_buffer(&data))),
        WireMessage::Ping(_) | WireMessage::Pong(_) => None,
        WireMessage::Close(_) => None,
    }
}

/// What the page sends is what a peer's echo of it brings back: nothing is
/// lost between the page's data and the wire, in either direction.
pub proof fn law_echo_brings_the_data_back(data: Data)
    ensures
        data_in(content_of(data)) == Some(data),
{
}

/// Different data make different messages.
pub proof fn law_messages_tell_data_apart(left: Data, right: Data)
    requires
        content_of(left) == content_of(right),
    ensures
        left == right,
{
}

/// Only text and binary messages bring the page data; pings, pongs and closes
/// never surface as such.
pub proof fn law_only_data_surfaces(message: Content)
    ensures
        data_in(message) is Some <==> message is Text || message is Binary,
{
}

/// What arrives reaches the page as it is: text as the same characters, binary
/// data as the same bytes, and nothing else as data.
pub proof fn law_arriving_payload_is_unchanged(
    text: WireText,
    buffer: Bytes,
    frame: Option<WireCloseFrame>,
)
    ensures
        data_in(WireMessage::Text(text)@) == Some(Data::Text(text@)),
        data_in(WireMessage::Binary(buffer)@) == Some(Data::Binary(contents(buffer))),
        data_in(WireMessage::Ping(buffer)@) is None,
        data_in(WireMessage::Pong(buffer)@) is None,
        data_in(WireMessage::Close(frame)@) is None,
{
}

/// What the page sends goes out as it is: text in a text message of the same
/// characters, binary data in a binary message of the same bytes.
pub proof fn law_sent_payload_is_unchanged(
    text: String,
    data: Vec<u8>,
    payload: Utf8Bytes,
    buffer: Bytes,
)
    ensures
        content_of(MessageData::Text(text)@) == Content::Text(text@),
        content_of(MessageData::Binary(data)@) == Content::Binary(data@),
        content_of(MessageData::Text(text)@) == Message::Text(payload)@ <==> text@ == text_of(
            payload,
        ),
        content_of(MessageData::Binary(data)@) == Message::Binary(buffer)@ <==> data@ == contents(
            buffer,
        ),
{
}

/// The two sides' messages say the same exactly if they are of one kind with
/// the same payload: the same bytes, the same characters, the same code.
pub proof fn law_messages_agree_by_kind_and_payload(message: Message, wire: WireMessage)
    ensures
        message@ == wire@ <==> match (message, wire) {
            (Message::Text(ours), WireMessage::Text(theirs)) => text_of(ours) == theirs@,
            (Message::Binary(ours), WireMessage::Binary(theirs)) => contents(ours) == contents(
                theirs,
            ),
            (Message::Ping(ours), WireMessage::Ping(theirs)) => contents(ours) == contents(theirs),
            (Message::Pong(ours), WireMessage::Pong(theirs)) => contents(ours) == contents(theirs),
            (Message::Close(None), WireMessage::Close(None)) => true,
            (Message::Close(Some(ours)), WireMessage::Close(Some(theirs))) => ours.code
                == theirs.code && text_of(ours.reason) == theirs.reason@,
            _ => false,
        },
{
}

/// What a message on the wire says: its kind, and its payload as it is.
pub proof fn law_wire_messages_say_their_payload(
    text: WireText,
    buffer: Bytes,
    frame: WireCloseFrame,
)
    ensures
        WireMessage::Text(text)@ == Content::Text(text@),
        WireMessage::Binary(buffer)@ == Content::Binary(contents(buffer)),
        WireMessage::Ping(buffer)@ == Content::Ping(contents(buffer)),
        WireMessage::Pong(buffer)@ == Content::Pong(contents(buffer)),
        WireMessage::Close(None)@ == Content::Close(None),
        WireMessage::Close(Some(frame))@ == Content::Close(Some((frame.code, frame.reason@))),
{
}

/// What a message on the page's side says: its kind, and its payload as it is.
pub proof fn law_page_messages_say_their_payload(
    text: Utf8Bytes,
    buffer: Bytes,
    frame: CloseFrame,
)
    ensures
        Message::Text(text)@ == Content::Text(text_of(text)),
        Message::Binary(buffer)@ == Content::Binary(contents(buffer)),
        Message::Ping(buffer)@ == Content::Ping(contents(buffer)),
        Message::Pong(buffer)@ == Content::Pong(contents(buffer)),
        Message::Frame(buffer)@ == Content::Frame(contents(buffer)),
        Message::Close(None)@ == Content::Close(None),
        Message::Close(Some(frame))@ == Content::Close(Some((frame.code, text_of(frame.reason)))),
{
}

/// Data are told by their characters and bytes, and so are the messages that
/// carry them and what arrives in them.
pub proof fn law_data_by_kind_and_payload(text: Seq<char>, bytes: Seq<u8>, code: Option<
    (u16, Seq<char>),
>)
    ensures
        content_of(Data::Text(text)) == Content::Text(text),
        content_of(Data::Binary(bytes)) == Content::Binary(bytes),
        data_in(Content::Text(text)) == Some(Data::Text(text)),
        data_in(Content::Binary(bytes)) == Some(Data::Binary(bytes)),
        data_in(Content::Ping(bytes)) is None,
        data_in(Content::Pong(bytes)) is None,
        data_in(Content::Frame(bytes)) is None,
        data_in(Content::Close(code)) is None,
{
}

/// What data in the page's hands say: the string's characters, the vector's
/// bytes.
pub proof fn law_data_say_their_payload(text: String, data: Vec<u8>)
    ensures
        MessageData::Text(text)@ == Data::Text(text@),
        MessageData::Binary(data)@ == Data::Binary(data@),
{
}

} // verus!
