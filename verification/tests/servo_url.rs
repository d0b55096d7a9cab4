use servo_ws_net::servo_url::{ServoUrl, UrlError};
use url::ParseError;

#[test]
fn a_url_answers_for_its_parts() {
    let url = ServoUrl::parse("WS://user:pa%20ss@Example.com:80/a/../b?q#f").unwrap();
    assert_eq!(url.as_str(), "ws://user:pa%20ss@example.com/b?q#f");
    assert_eq!(url.scheme(), "ws");
    assert_eq!(url.username(), "user");
    assert_eq!(url.password(), Some("pa%20ss"));
    assert_eq!(url.ascii_origin(), "ws://example.com");
    assert_eq!(url.as_url().path(), "/b");
    assert_eq!(url.into_url().as_str(), "ws://user:pa%20ss@example.com/b?q#f");
}

#[test]
fn a_url_without_credentials_has_none() {
    let url = ServoUrl::parse("https://:@example.com:8443/").unwrap();
    assert_eq!(url.as_str(), "https://example.com:8443/");
    assert_eq!(url.username(), "");
    assert_eq!(url.password(), None);
    assert_eq!(url.ascii_origin(), "https://example.com:8443");
    let url = ServoUrl::parse("https://:secret@example.com/").unwrap();
    assert_eq!(url.username(), "");
    assert_eq!(url.password(), Some("secret"));
}

#[test]
fn an_opaque_origin_is_null() {
    let url = ServoUrl::parse("foo:/.//u:p@x").unwrap();
    assert_eq!(url.as_str(), "foo:/.//u:p@x");
    assert_eq!(url.username(), "");
    assert_eq!(url.password(), None);
    assert_eq!(url.ascii_origin(), "null");
}

#[test]
fn credentials_are_read_off_the_authority() {
    let parts = |text: &str| {
        let url = ServoUrl::parse(text).unwrap();
        (url.username().to_string(), url.password().map(str::to_string))
    };
    assert_eq!(parts("ws://u:@h/"), ("u".to_string(), None));
    assert_eq!(parts("ws://a:b:c@h:1/x@y:z"), ("a".to_string(), Some("b%3Ac".to_string())));
    assert_eq!(parts("foo://a@b@h?x"), ("a%40b".to_string(), None));
    assert_eq!(parts("file:///u:p@x"), (String::new(), None));
    assert_eq!(parts("mailto:u:p@x"), (String::new(), None));
}

#[test]
fn a_blob_has_the_origin_of_the_url_in_it() {
    let nested = |n: usize| format!("{}https://example.com/x", "blob:".repeat(n));
    for n in [1, 2, 64] {
        let url = ServoUrl::parse(&nested(n)).unwrap();
        assert_eq!(url.ascii_origin(), "https://example.com");
    }
    assert!(matches!(ServoUrl::parse(&nested(65)), Err(UrlError::TooDeep)));
    assert!(matches!(ServoUrl::parse(&nested(20000)), Err(UrlError::TooDeep)));
    assert_eq!(ServoUrl::parse("blob:nothing").unwrap().ascii_origin(), "null");
    assert_eq!(ServoUrl::parse("blob:/.//h/p").unwrap().ascii_origin(), "null");
    assert_eq!(ServoUrl::parse("blob:ws://h/?blob:").unwrap().ascii_origin(), "ws://h");
}

#[test]
fn a_text_that_is_no_url_is_refused() {
    assert!(matches!(
        ServoUrl::parse("/chat"),
        Err(UrlError::Syntax(ParseError::RelativeUrlWithoutBase))
    ));
    assert!(matches!(ServoUrl::parse("ws://"), Err(UrlError::Syntax(ParseError::EmptyHost))));
}

#[test]
fn a_copy_is_the_same_url() {
    let url = ServoUrl::parse("wss://u@example.com/").unwrap();
    let copy = url.clone();
    assert_eq!(copy.as_url(), url.as_url());
    assert_eq!(copy.username(), "u");
}
