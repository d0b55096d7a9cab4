use bytes::Bytes;
use servo_ws_net::ws_map::{
    dom_to_wreq, message_from_data, utf8_to_wreq, wreq_to_message_data, CloseFrame, Message,
    MessageData, WireCloseFrame, WireMessage, WireText,
};
use tungstenite::Utf8Bytes;

fn wire_text(text: &str) -> WireText {
    WireText::try_from_buffer(Bytes::copy_from_slice(text.as_bytes())).unwrap()
}

#[test]
fn text_crosses_as_its_encoding() {
    let wire = utf8_to_wreq(Utf8Bytes::from("h\u{e9}llo \u{1f600}"));
    assert_eq!(wire.to_text(), "h\u{e9}llo \u{1f600}");
    assert_eq!(
        wire.into_buffer(),
        Bytes::copy_from_slice("h\u{e9}llo \u{1f600}".as_bytes())
    );
}

#[test]
fn a_buffer_that_is_not_utf8_is_no_text() {
    assert!(WireText::try_from_buffer(Bytes::from_static(b"\xff")).is_none());
    assert!(WireText::try_from_buffer(Bytes::new()).is_some());
}

#[test]
fn every_variant_maps_to_its_own() {
    let data = Bytes::from_static(b"\x00\xff");
    assert!(matches!(dom_to_wreq(Message::Text(Utf8Bytes::from("a"))),
        WireMessage::Text(text) if text.to_text() == "a"));
    assert!(matches!(dom_to_wreq(Message::Binary(data.clone())),
        WireMessage::Binary(sent) if sent == data));
    assert!(matches!(dom_to_wreq(Message::Ping(data.clone())),
        WireMessage::Ping(sent) if sent == data));
    assert!(matches!(dom_to_wreq(Message::Pong(data.clone())),
        WireMessage::Pong(sent) if sent == data));
    assert!(matches!(dom_to_wreq(Message::Close(None)), WireMessage::Close(None)));
    let frame = CloseFrame { code: 3001, reason: Utf8Bytes::from("done") };
    assert!(matches!(dom_to_wreq(Message::Close(Some(frame))),
        WireMessage::Close(Some(sent)) if sent.code == 3001 && sent.reason.to_text() == "done"));
}

#[test]
fn data_surfaces() {
    assert!(matches!(wreq_to_message_data(WireMessage::Text(wire_text("caf\u{e9}"))),
        Some(MessageData::Text(text)) if text == "caf\u{e9}"));
    assert!(matches!(wreq_to_message_data(WireMessage::Binary(Bytes::from_static(b"\xff"))),
        Some(MessageData::Binary(data)) if data == b"\xff"));
}

#[test]
fn what_is_no_data_does_not_surface() {
    assert!(wreq_to_message_data(WireMessage::Ping(Bytes::from_static(b"a"))).is_none());
    assert!(wreq_to_message_data(WireMessage::Pong(Bytes::from_static(b"a"))).is_none());
    assert!(wreq_to_message_data(WireMessage::Close(None)).is_none());
    let frame = WireCloseFrame { code: 1000, reason: wire_text("bye") };
    assert!(wreq_to_message_data(WireMessage::Close(Some(frame))).is_none());
}

#[test]
fn an_echo_brings_the_data_back() {
    let text = message_from_data(MessageData::Text("\u{4f60}\u{597d}".to_string()));
    assert!(matches!(wreq_to_message_data(dom_to_wreq(text)),
        Some(MessageData::Text(text)) if text == "\u{4f60}\u{597d}"));
    let binary = message_from_data(MessageData::Binary(vec![0, 128, 255]));
    assert!(matches!(wreq_to_message_data(dom_to_wreq(binary)),
        Some(MessageData::Binary(data)) if data == [0, 128, 255]));
}
