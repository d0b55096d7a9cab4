use bytes::Bytes;
use servo_ws_net::websocket_loader::dom_listener::{DomListener, DomMsg, WebSocketDomAction};
use servo_ws_net::websocket_loader::event_loop::{
    Incoming, LoopAction, LoopEvent, LoopState, WebSocketNetworkEvent, WsLoop,
};
use servo_ws_net::ws_map::{Message, MessageData, WireCloseFrame, WireMessage, WireText};
use tungstenite::Utf8Bytes;

fn wire_text(text: &str) -> WireText {
    WireText::try_from_buffer(Bytes::copy_from_slice(text.as_bytes())).unwrap()
}

fn send(text: &str) -> WebSocketDomAction {
    WebSocketDomAction::SendMessage(MessageData::Text(text.to_string()))
}

fn arrives(message: WireMessage) -> LoopEvent {
    LoopEvent::Network(Incoming::Message(message))
}

#[test]
fn the_listener_forwards_data_before_and_after_a_close() {
    let mut listener = DomListener::new();
    assert!(matches!(listener.on_action(send("a")),
        Some(DomMsg::Send(Message::Text(text))) if text == "a"));
    assert!(!listener.initiated_close);
    assert!(matches!(
        listener.on_action(WebSocketDomAction::Close(None, None)),
        Some(DomMsg::Close(None))
    ));
    assert!(listener.initiated_close);
    assert!(matches!(
        listener.on_action(WebSocketDomAction::SendMessage(MessageData::Binary(vec![1]))),
        Some(DomMsg::Send(Message::Binary(data))) if data == Bytes::from_static(&[1])
    ));
}

#[test]
fn the_listener_forwards_one_close_only() {
    let mut listener = DomListener::new();
    let first = WebSocketDomAction::Close(Some(1000), Some("bye".to_string()));
    assert!(matches!(listener.on_action(first),
        Some(DomMsg::Close(Some((1000, reason)))) if reason == "bye"));
    let second = WebSocketDomAction::Close(Some(1001), None);
    assert!(listener.on_action(second).is_none());
    assert!(listener.initiated_close);
}

#[test]
fn a_reason_without_a_code_is_dropped_and_a_missing_one_is_empty() {
    let mut listener = DomListener::new();
    let close = WebSocketDomAction::Close(None, Some("lost".to_string()));
    assert!(matches!(listener.on_action(close), Some(DomMsg::Close(None))));
    let mut listener = DomListener::new();
    let close = WebSocketDomAction::Close(Some(3000), None);
    assert!(matches!(listener.on_action(close),
        Some(DomMsg::Close(Some((3000, reason)))) if reason.is_empty()));
}

#[test]
fn the_page_messages_go_to_the_wire() {
    let mut ws_loop = WsLoop::new();
    let message = DomMsg::Send(Message::Text(Utf8Bytes::from("hi")));
    assert!(matches!(ws_loop.step(LoopEvent::Dom(Some(message))),
        LoopAction::Send(WireMessage::Text(text)) if text.to_text() == "hi"));
    assert_eq!(ws_loop.state, LoopState::Sending);
    // Even a message that could not be sent keeps the loop going.
    assert!(matches!(ws_loop.step(LoopEvent::Sent(false)), LoopAction::Nothing));
    assert_eq!(ws_loop.state, LoopState::Listening);
}

#[test]
fn the_own_close_waits_for_the_echo() {
    let mut ws_loop = WsLoop::new();
    let close = DomMsg::Close(Some((1000, "bye".to_string())));
    assert!(matches!(ws_loop.step(LoopEvent::Dom(Some(close))),
        LoopAction::Send(WireMessage::Close(Some(frame)))
            if frame.code == 1000 && frame.reason.to_text() == "bye"));
    ws_loop.step(LoopEvent::Sent(true));
    assert_eq!(ws_loop.state, LoopState::Listening);
    let echo = WireCloseFrame { code: 1000, reason: wire_text("bye") };
    assert!(matches!(ws_loop.step(arrives(WireMessage::Close(Some(echo)))),
        LoopAction::Notify(WebSocketNetworkEvent::Close(Some(1000), reason)) if reason == "bye"));
    assert_eq!(ws_loop.state, LoopState::Stopped);
}

#[test]
fn a_close_without_a_frame_goes_both_ways() {
    let mut ws_loop = WsLoop::new();
    assert!(matches!(
        ws_loop.step(LoopEvent::Dom(Some(DomMsg::Close(None)))),
        LoopAction::Send(WireMessage::Close(None))
    ));
    ws_loop.step(LoopEvent::Sent(true));
    assert!(matches!(ws_loop.step(arrives(WireMessage::Close(None))),
        LoopAction::Notify(WebSocketNetworkEvent::Close(None, reason)) if reason.is_empty()));
}

#[test]
fn data_that_arrives_is_delivered() {
    let mut ws_loop = WsLoop::new();
    assert!(matches!(ws_loop.step(arrives(WireMessage::Text(wire_text("hi")))),
        LoopAction::Notify(WebSocketNetworkEvent::MessageReceived(MessageData::Text(text)))
            if text == "hi"));
    assert_eq!(ws_loop.state, LoopState::Delivering);
    assert!(matches!(ws_loop.step(LoopEvent::Delivered(true)), LoopAction::Nothing));
    assert_eq!(ws_loop.state, LoopState::Listening);
    ws_loop.step(arrives(WireMessage::Binary(Bytes::from_static(b"x"))));
    ws_loop.step(LoopEvent::Delivered(false));
    assert_eq!(ws_loop.state, LoopState::Stopped);
}

#[test]
fn pings_and_pongs_are_skipped() {
    let mut ws_loop = WsLoop::new();
    for message in [
        WireMessage::Ping(Bytes::from_static(b"x")),
        WireMessage::Pong(Bytes::from_static(b"x")),
    ] {
        assert!(matches!(ws_loop.step(arrives(message)), LoopAction::Nothing));
        assert_eq!(ws_loop.state, LoopState::Listening);
    }
}

#[test]
fn a_stream_that_fails_or_ends_fails_the_connection() {
    for incoming in [Incoming::Error, Incoming::End] {
        let mut ws_loop = WsLoop::new();
        assert!(matches!(
            ws_loop.step(LoopEvent::Network(incoming)),
            LoopAction::Notify(WebSocketNetworkEvent::Fail)
        ));
        assert_eq!(ws_loop.state, LoopState::Stopped);
    }
}

#[test]
fn a_page_that_is_gone_stops_the_loop_silently() {
    let mut ws_loop = WsLoop::new();
    assert!(matches!(ws_loop.step(LoopEvent::Dom(None)), LoopAction::Nothing));
    assert_eq!(ws_loop.state, LoopState::Stopped);
}

#[test]
fn data_comes_back_from_an_echo() {
    let mut listener = DomListener::new();
    let mut ws_loop = WsLoop::new();
    let demand = listener.on_action(send("echo \u{1f600}"));
    let sent = match ws_loop.step(LoopEvent::Dom(demand)) {
        LoopAction::Send(message) => message,
        other => panic!("{:?}", other),
    };
    ws_loop.step(LoopEvent::Sent(true));
    assert!(matches!(ws_loop.step(arrives(sent)),
        LoopAction::Notify(WebSocketNetworkEvent::MessageReceived(MessageData::Text(text)))
            if text == "echo \u{1f600}"));
}

#[test]
fn messages_keep_their_order_in_both_directions() {
    let mut listener = DomListener::new();
    let mut ws_loop = WsLoop::new();
    let mut sent = String::new();
    for text in ["a", "b", "c"] {
        let demand = listener.on_action(send(text));
        match ws_loop.step(LoopEvent::Dom(demand)) {
            LoopAction::Send(WireMessage::Text(text)) => sent.push_str(&text.to_text()),
            other => panic!("{:?}", other),
        }
        ws_loop.step(LoopEvent::Sent(true));
    }
    assert_eq!(sent, "abc");
    let mut received = String::new();
    for text in ["x", "y", "z"] {
        match ws_loop.step(arrives(WireMessage::Text(wire_text(text)))) {
            LoopAction::Notify(WebSocketNetworkEvent::MessageReceived(MessageData::Text(text))) => {
                received.push_str(&text)
            },
            other => panic!("{:?}", other),
        }
        ws_loop.step(LoopEvent::Delivered(true));
    }
    assert_eq!(received, "xyz");
}
