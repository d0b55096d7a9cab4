use http::header::{HeaderMap, HeaderValue};
use servo_ws_net::servo_url::ServoUrl;
use servo_ws_net::websocket_loader::dom_listener::{DomListener, DomMsg, WebSocketDomAction};
use servo_ws_net::websocket_loader::error::{Error, ProtocolError};
use servo_ws_net::websocket_loader::event_loop::{
    LoopAction, LoopEvent, WebSocketNetworkEvent, WsLoop,
};
use servo_ws_net::websocket_loader::response::ResponseAction;
use servo_ws_net::websocket_loader::start::{
    needs_scheme_repair, plan_handshake, start_step, StartAction, StartEvent, StartState,
    WsHandshake, WsStartError,
};
use servo_ws_net::ws_map::WireMessage;

fn planned(original: &str, url: &str) -> String {
    let mut headers = HeaderMap::new();
    headers.insert("origin", HeaderValue::from_static("https://example.com"));
    let original = ServoUrl::parse(original).unwrap();
    let plan = plan_handshake(original, &ServoUrl::parse(url).unwrap(), headers.clone());
    assert_eq!(plan.method, "GET");
    assert_eq!(plan.headers, headers);
    assert!(!plan.follow_redirects);
    plan.url
}

fn answer(protocol: Option<&str>, cookie: Option<&str>) -> WsHandshake {
    let mut headers = HeaderMap::new();
    if let Some(protocol) = protocol {
        headers.insert("sec-websocket-protocol", HeaderValue::from_str(protocol).unwrap());
    }
    if let Some(cookie) = cookie {
        headers.insert("set-cookie", HeaderValue::from_str(cookie).unwrap());
    }
    WsHandshake { status: 101, headers }
}

type Step = (StartState, StartAction<&'static str>);

fn offered() -> Vec<String> {
    vec!["chat".to_string()]
}

fn connected(handshake: WsHandshake) -> StartState {
    let (state, action): Step =
        start_step(StartState::Connecting, StartEvent::Answered(Ok(handshake)), &offered());
    assert!(matches!(action, StartAction::Upgrade));
    state
}

fn upgraded(handshake: WsHandshake) -> StartState {
    let event = StartEvent::Upgraded(Ok(()), vec![true]);
    let (state, action): Step = start_step(connected(handshake), event, &offered());
    assert!(matches!(action, StartAction::Apply(_)));
    state
}

#[test]
fn a_plain_scheme_is_repaired_for_a_secure_request() {
    assert_eq!(planned("ws://example.com/chat", "https://example.com/chat"), "wss://example.com/chat");
    // A port that is the new scheme's own goes without saying.
    assert_eq!(planned("ws://example.com:443/", "https://example.com/"), "wss://example.com/");
    assert_eq!(
        planned("ws://u:p@example.com:8080/a?b#c", "https://example.com/"),
        "wss://u:p@example.com:8080/a?b#c"
    );
}

#[test]
fn other_schemes_are_left_alone() {
    assert_eq!(planned("ws://example.com/", "http://example.com/"), "ws://example.com/");
    assert_eq!(planned("wss://example.com/", "https://example.com/"), "wss://example.com/");
    assert_eq!(planned("wss://example.com/", "http://example.com/"), "wss://example.com/");
    assert!(needs_scheme_repair("ws", "https"));
    assert!(!needs_scheme_repair("ws", "http"));
    assert!(!needs_scheme_repair("wss", "https"));
    assert!(!needs_scheme_repair("", ""));
}

#[test]
fn only_a_port_that_goes_without_saying_is_dropped() {
    assert_eq!(planned("ws://[::443]/", "https://h/"), "wss://[::443]/");
    assert_eq!(planned("ws://[::1]:443/a:443", "https://h/"), "wss://[::1]/a:443");
    assert_eq!(planned("ws://u:443@h/", "https://h/"), "wss://u:443@h/");
    assert_eq!(planned("ws://h:1443/", "https://h/"), "wss://h:1443/");
    assert_eq!(planned("ws://h?q", "https://h/"), "wss://h/?q");
}

#[test]
fn a_failed_exchange_is_returned() {
    let event = StartEvent::Answered(Err("refused"));
    let (state, action): Step = start_step(StartState::Connecting, event, &offered());
    assert!(matches!(state, StartState::Finished));
    assert!(matches!(
        action,
        StartAction::Return { result: Err(WsStartError::Handshake("refused")), run_loop: false }
    ));
}

#[test]
fn a_failed_upgrade_touches_nothing() {
    let state = connected(answer(Some("chat"), Some("a=1")));
    let event = StartEvent::Upgraded(Err("not 101"), vec![true]);
    let (state, action): Step = start_step(state, event, &offered());
    assert!(matches!(state, StartState::Finished));
    assert!(matches!(
        action,
        StartAction::Return { result: Err(WsStartError::Handshake("not 101")), run_loop: false }
    ));
}

#[test]
fn a_refused_protocol_touches_nothing() {
    let state = connected(answer(Some("soap"), Some("a=1")));
    let event = StartEvent::Upgraded(Ok(()), vec![true]);
    let (state, action): Step = start_step(state, event, &offered());
    assert!(matches!(state, StartState::Finished));
    assert!(matches!(
        action,
        StartAction::Return {
            result: Err(WsStartError::Protocol(Error::Protocol(ProtocolError::InvalidHeader(name)))),
            run_loop: false,
        } if name == "sec-websocket-protocol"
    ));
}

#[test]
fn an_accepted_answer_is_applied() {
    let state = connected(answer(Some("chat"), Some("a=1")));
    let event = StartEvent::Upgraded(Ok(()), vec![true]);
    let (state, action): Step = start_step(state, event, &offered());
    assert!(matches!(state, StartState::Applying(_, Some(name)) if name == "chat"));
    match action {
        StartAction::Apply(actions) => {
            assert_eq!(actions.len(), 2);
            assert!(matches!(&actions[0], ResponseAction::SetCookie(cookie) if cookie == "a=1"));
            assert!(matches!(actions[1], ResponseAction::UpdateHsts));
        },
        _ => panic!("nothing to apply"),
    }
}

#[test]
fn an_established_connection_is_announced_and_served() {
    let state = upgraded(answer(Some("chat"), None));
    let (state, action): Step =
        start_step(state, StartEvent::Applied { initiated_close: false }, &offered());
    assert!(matches!(
        action,
        StartAction::Announce(WebSocketNetworkEvent::ConnectionEstablished {
            protocol_in_use: Some(name),
        }) if name == "chat"
    ));
    let (state, action): Step =
        start_step(state, StartEvent::Announced { delivered: true }, &offered());
    assert!(matches!(state, StartState::Finished));
    match action {
        StartAction::Return { result: Ok(handshake), run_loop } => {
            assert!(run_loop);
            assert_eq!(handshake.status, 101);
            assert_eq!(handshake.headers.get("sec-websocket-protocol").unwrap(), "chat");
        },
        _ => panic!("the start is over"),
    }
}

#[test]
fn a_page_that_cannot_be_told_is_served_all_the_same() {
    let state = upgraded(answer(None, None));
    let (state, _): Step =
        start_step(state, StartEvent::Applied { initiated_close: false }, &offered());
    let (_, action): Step =
        start_step(state, StartEvent::Announced { delivered: false }, &offered());
    assert!(matches!(action, StartAction::Return { result: Ok(_), run_loop: true }));
}

#[test]
fn a_page_that_has_closed_is_told_nothing() {
    let state = upgraded(answer(None, None));
    let (state, action): Step =
        start_step(state, StartEvent::Applied { initiated_close: true }, &offered());
    assert!(matches!(state, StartState::Finished));
    assert!(matches!(
        action,
        StartAction::Return { result: Ok(handshake), run_loop: true } if handshake.status == 101
    ));
}

#[test]
fn a_close_during_the_handshake_reaches_the_wire() {
    let mut listener = DomListener::new();
    let state = upgraded(answer(None, None));
    let close = WebSocketDomAction::Close(Some(1000), Some("bye".to_string()));
    let forwarded = listener.on_action(close);
    assert!(matches!(&forwarded, Some(DomMsg::Close(Some((1000, reason)))) if reason == "bye"));
    let event = StartEvent::Applied { initiated_close: listener.initiated_close };
    let (_, action): Step = start_step(state, event, &offered());
    assert!(matches!(action, StartAction::Return { result: Ok(_), run_loop: true }));
    match WsLoop::new().step(LoopEvent::Dom(forwarded)) {
        LoopAction::Send(WireMessage::Close(Some(frame))) => {
            assert_eq!(frame.code, 1000);
            assert_eq!(frame.reason.to_text(), "bye");
        },
        _ => panic!("the close was not sent"),
    }
}

#[test]
fn a_selection_is_refused_where_nothing_was_offered() {
    let state = connected(answer(Some("chat"), None));
    let event = StartEvent::Upgraded(Ok(()), vec![]);
    let (_, action): Step = start_step(state, event, &vec![]);
    assert!(matches!(
        action,
        StartAction::Return { result: Err(WsStartError::Protocol(_)), run_loop: false }
    ));
}

#[test]
fn a_transport_error_converts_into_a_handshake_failure() {
    assert!(matches!(WsStartError::from("lost"), WsStartError::Handshake("lost")));
}
