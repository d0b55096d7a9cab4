use http::header::{HeaderMap, HeaderValue};
use servo_ws_net::websocket_loader::error::{Error, ProtocolError};
use servo_ws_net::websocket_loader::response::{
    accept_protocol, process_ws_response, response_actions, set_cookie_values,
    strip_selected_protocol, ResponseAction,
};

fn headers(fields: &[(&'static str, &[u8])]) -> HeaderMap {
    let mut map = HeaderMap::new();
    for (name, value) in fields {
        map.append(*name, HeaderValue::from_bytes(value).unwrap());
    }
    map
}

fn strings(list: &[&str]) -> Vec<String> {
    list.iter().map(|s| s.to_string()).collect()
}

fn shown(actions: &[ResponseAction]) -> String {
    format!("{:?}", actions)
}

fn is_refusal<T>(result: &Result<T, Error>) -> bool {
    matches!(result, Err(Error::Protocol(ProtocolError::InvalidHeader(name)))
        if name == "sec-websocket-protocol")
}

#[test]
fn a_response_without_a_selection_is_accepted() {
    let answer = headers(&[]);
    let response = process_ws_response(&answer, &strings(&["chat"]), &vec![]).unwrap();
    assert_eq!(response.protocol_in_use, None);
    assert_eq!(shown(&response.actions), "[UpdateHsts]");
}

#[test]
fn an_offered_protocol_is_accepted() {
    let answer = headers(&[("Sec-WebSocket-Protocol", b"superchat")]);
    let offered = strings(&["chat", "superchat"]);
    let response = process_ws_response(&answer, &offered, &vec![]).unwrap();
    assert_eq!(response.protocol_in_use, Some("superchat".to_string()));
}

#[test]
fn a_protocol_that_was_not_offered_is_refused() {
    let answer = headers(&[("Sec-WebSocket-Protocol", b"soap"), ("Set-Cookie", b"a=b")]);
    let refused = process_ws_response(&answer, &strings(&["chat"]), &vec![true]);
    assert!(is_refusal(&refused));
    // The names are compared as they stand.
    let answer = headers(&[("Sec-WebSocket-Protocol", b"Chat")]);
    assert!(is_refusal(&process_ws_response(&answer, &strings(&["chat"]), &vec![])));
}

#[test]
fn a_request_that_offered_nothing_takes_no_selection() {
    let answer = headers(&[("Sec-WebSocket-Protocol", b"chat")]);
    assert!(is_refusal(&process_ws_response(&answer, &vec![], &vec![])));
    let answer = headers(&[]);
    let response = process_ws_response(&answer, &vec![], &vec![]).unwrap();
    assert_eq!(response.protocol_in_use, None);
}

#[test]
fn a_selection_that_is_not_visible_ascii_reads_as_empty() {
    let answer = headers(&[("Sec-WebSocket-Protocol", b"ch\xffat")]);
    let response = process_ws_response(&answer, &strings(&[""]), &vec![]).unwrap();
    assert_eq!(response.protocol_in_use, Some(String::new()));
    assert!(is_refusal(&process_ws_response(&answer, &strings(&["chat"]), &vec![])));
    assert!(is_refusal(&process_ws_response(&answer, &vec![], &vec![])));
}

#[test]
fn only_the_first_selection_counts() {
    let answer = headers(&[
        ("Sec-WebSocket-Protocol", b"chat"),
        ("Sec-WebSocket-Protocol", b"soap"),
    ]);
    let response = process_ws_response(&answer, &strings(&["chat"]), &vec![]).unwrap();
    assert_eq!(response.protocol_in_use, Some("chat".to_string()));
}

#[test]
fn valid_cookies_are_stored_in_order_before_the_hsts_update() {
    let answer = headers(&[
        ("Set-Cookie", b"a=1"),
        ("Set-Cookie", b"b=2"),
        ("Set-Cookie", b"c=\xff"),
        ("Set-Cookie", "d=\u{e9}".as_bytes()),
    ]);
    assert_eq!(
        set_cookie_values(&answer),
        vec![
            b"a=1".to_vec(),
            b"b=2".to_vec(),
            b"c=\xff".to_vec(),
            "d=\u{e9}".as_bytes().to_vec(),
        ]
    );
    let valid = vec![true, false, true, true];
    let response = process_ws_response(&answer, &vec![], &valid).unwrap();
    assert_eq!(
        shown(&response.actions),
        "[SetCookie(\"a=1\"), SetCookie(\"d=\u{e9}\"), UpdateHsts]"
    );
}

#[test]
fn a_cookie_without_a_verdict_is_not_stored() {
    let values = vec![b"a=1".to_vec(), b"b=2".to_vec()];
    assert_eq!(
        shown(&response_actions(&values, &vec![true])),
        "[SetCookie(\"a=1\"), UpdateHsts]"
    );
    assert_eq!(shown(&response_actions(&values, &vec![])), "[UpdateHsts]");
}

#[test]
fn protocols_are_accepted_by_name() {
    let offered = strings(&["a", "b"]);
    assert_eq!(accept_protocol(Some("b"), &offered).unwrap(), Some("b".to_string()));
    assert_eq!(accept_protocol(None, &offered).unwrap(), None);
    assert!(is_refusal(&accept_protocol(Some(""), &offered)));
    assert!(is_refusal(&accept_protocol(Some("a"), &vec![])));
    assert_eq!(accept_protocol(None, &vec![]).unwrap(), None);
}

#[test]
fn stripping_removes_every_selection_and_nothing_else() {
    let mut answer = headers(&[
        ("Sec-WebSocket-Protocol", b"chat"),
        ("Sec-WebSocket-Protocol", b"soap"),
        ("Set-Cookie", b"a=1"),
    ]);
    strip_selected_protocol(&mut answer);
    assert!(answer.get("Sec-WebSocket-Protocol").is_none());
    assert_eq!(answer.get("Set-Cookie").unwrap(), "a=1");
    assert_eq!(answer.len(), 1);
}
