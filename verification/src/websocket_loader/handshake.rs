//! The HTTP request that opens a WebSocket connection.

use http::header::{HeaderMap, HeaderValue};
use vstd::prelude::*;
use vstd::string::StringExecFns;
use vstd::utf8::{encode_utf8, is_ascii_chars, is_ascii_chars_encode_utf8};

use crate::foreign::address::{length_before, origin_in, password_in, username_in};
use crate::foreign::fields::{
    base64, basic_credentials, fields, insert_basic_authorization, insert_field, is_field_char,
    is_field_chars, is_field_text, is_plain_name, is_visible_byte, law_field_text_by_characters,
    values_of, Fields,
};
use crate::servo_url::{lemma_length_before_is, ServoUrl};
use crate::websocket_loader::error::{Error, Fault};

verus! {

/// What kind of fetch a request belongs to.
pub enum RequestMode {
    /// A WebSocket handshake, with the subprotocols that the page offers and
    /// the URL that it asked for.
    WebSocket { protocols: Vec<String>, original_url: ServoUrl },
    /// Any other fetch.
    Other,
}

/// A request under construction.
pub struct RequestBuilder {
    pub url: ServoUrl,
    pub mode: RequestMode,
    pub headers: HeaderMap<HeaderValue>,
}

/// A request as it is handed to the network.
pub struct Request {
    pub url: ServoUrl,
    pub mode: RequestMode,
    pub headers: HeaderMap<HeaderValue>,
}

impl RequestBuilder {
    /// Sets the request's headers, in place of those it had.
    pub fn headers(self, headers: HeaderMap<HeaderValue>) -> (builder: RequestBuilder)
        ensures
            builder == (RequestBuilder { url: self.url, mode: self.mode, headers }),
    {
        RequestBuilder { url: self.url, mode: self.mode, headers }
    }

    /// The request as it stands.
    pub fn build(self) -> (request: Request)
        ensures
            request == (Request { url: self.url, mode: self.mode, headers: self.headers }),
    {
        Request { url: self.url, mode: self.mode, headers: self.headers }
    }
}

/// The texts of `parts`, in order, with a comma between each two.
pub open spec fn comma_joined(parts: Seq<Seq<char>>) -> Seq<char>
    decreases parts.len(),
{
    if parts.len() == 0 {
        Seq::empty()
    } else if parts.len() == 1 {
        parts[0]
    } else {
        comma_joined(parts.drop_last()) + seq![','] + parts.last()
    }
}

/// The texts of a list of strings.
pub open spec fn texts(strings: Seq<String>) -> Seq<Seq<char>> {
    strings.map_values(|s: String| s@)
}

/// One header value that holds `text` and is not marked as sensitive.
pub open spec fn plain_value(text: Seq<char>) -> Seq<(Seq<u8>, bool)> {
    seq![(encode_utf8(text), false)]
}

/// The header fields of a handshake: always the origin and the pair that marks
/// a handshake; the offered subprotocols, the cookies and the credentials as
/// far as there are any.
pub open spec fn handshake_fields(
    origin: Seq<char>,
    protocols: Seq<Seq<char>>,
    cookie_list: Option<Seq<char>>,
    username: Seq<char>,
    password: Option<Seq<char>>,
) -> Fields {
    let marked = Fields::empty().insert("origin"@, plain_value(origin)).insert(
        "upgrade"@,
        plain_value("websocket"@),
    ).insert("sec-websocket-version"@, plain_value("13"@));
    let offering = if protocols.len() == 0 {
        marked
    } else {
        marked.insert("sec-websocket-protocol"@, plain_value(comma_joined(protocols)))
    };
    let with_cookies = match cookie_list {
        Some(list) => offering.insert("cookie"@, plain_value(list)),
        None => offering,
    };
    if has_credentials(username, password) {
        with_cookies.insert(
            "authorization"@,
            seq![(basic_credentials(username, password.unwrap_or(Seq::empty())), true)],
        )
    } else {
        with_cookies
    }
}

/// Whether a URL with this user name and password carries credentials.
pub open spec fn has_credentials(username: Seq<char>, password: Option<Seq<char>>) -> bool {
    password is Some || username.len() > 0
}

/// Whether all that goes into the headers as text may stand in a header value.
pub open spec fn handshake_is_sendable(
    origin: Seq<char>,
    protocols: Seq<Seq<char>>,
    cookie_list: Option<Seq<char>>,
) -> bool {
    &&& is_field_text(origin)
    &&& protocols.len() > 0 ==> is_field_text(comma_joined(protocols))
    &&& cookie_list matches Some(list) ==> is_field_text(list)
}

/// The view of an optional string slice.
pub open spec fn opt_text(text: Option<&str>) -> Option<Seq<char>> {
    match text {
        Some(t) => Some(t@),
        None => None,
    }
}

/// The names under which the handshake's fields are filed are header names.
proof fn lemma_names()
    ensures
        is_plain_name("origin"@),
        is_plain_name("upgrade"@),
        is_plain_name("sec-websocket-version"@),
        is_plain_name("sec-websocket-protocol"@),
        is_plain_name("cookie"@),
{
    reveal_strlit("origin");
    reveal_strlit("upgrade");
    reveal_strlit("sec-websocket-version");
    reveal_strlit("sec-websocket-protocol");
    reveal_strlit("cookie");
}

/// The texts of the pair that marks a handshake are visible ASCII.
proof fn lemma_mark_is_visible()
    ensures
        forall|i: int|
            0 <= i < encode_utf8("websocket"@).len() ==> is_visible_byte(
                #[trigger] encode_utf8("websocket"@)[i],
            ),
        forall|i: int|
            0 <= i < encode_utf8("13"@).len() ==> is_visible_byte(
                #[trigger] encode_utf8("13"@)[i],
            ),
{
    reveal_strlit("websocket");
    reveal_strlit("13");
    assert(is_ascii_chars("websocket"@));
    assert(is_ascii_chars("13"@));
    is_ascii_chars_encode_utf8("websocket"@);
    is_ascii_chars_encode_utf8("13"@);
}

/// Joins `parts` with commas.
fn join_with_commas(parts: &Vec<String>) -> (joined: String)
    ensures
        joined@ == comma_joined(texts(parts@)),
{
    let mut joined = String::new();
    let ghost all = texts(parts@);
    for i in 0..parts.len()
        invariant
            all == texts(parts@),
            joined@ == comma_joined(all.take(i as int)),
    {
        let ghost before = all.take(i as int);
        let ghost after = all.take(i + 1);
        if i > 0 {
            joined.append(",");
        }
        joined.append(parts[i].as_str());
        proof {
            reveal_strlit(",");
            assert(","@ =~= seq![',']);
            assert(after.drop_last() =~= before);
            assert(after.last() == parts@[i as int]@);
        }
    }
    assert(all.take(parts.len() as int) =~= all);
    joined
}

/// Builds the headers of a handshake request from what the URL, the page and
/// the cookie jar contribute. Fails exactly if one of the texts may not stand
/// in a header value.
pub fn handshake_headers(
    origin: &str,
    protocols: &Vec<String>,
    cookie_list: Option<&str>,
    username: &str,
    password: Option<&str>,
) -> (headers: Result<HeaderMap<HeaderValue>, Error>)
    ensures
        headers is Ok <==> handshake_is_sendable(
            origin@,
            texts(protocols@),
            opt_text(cookie_list),
        ),
        headers matches Ok(map) ==> fields(map) == handshake_fields(
            origin@,
            texts(protocols@),
            opt_text(cookie_list),
            username@,
            opt_text(password),
        ),
        headers matches Err(error) ==> error@ == Fault::HttpFormat,
        headers matches Err(error) ==> error is HttpFormat,
{
    proof {
        lemma_names();
        lemma_mark_is_visible();
        reveal_strlit("");
        assert(""@ =~= Seq::empty());
    }
    let mut headers: HeaderMap<HeaderValue> = HeaderMap::new();
    match HeaderValue::from_str(origin) {
        Ok(value) => insert_field(&mut headers, "origin", value),
        Err(error) => return Err(Error::HttpFormat(error)),
    }

    // The pair rides along as request metadata: whoever decides on the request
    // before it reaches the network detects a handshake by it.
    insert_field(&mut headers, "upgrade", HeaderValue::from_static("websocket"));
    insert_field(&mut headers, "sec-websocket-version", HeaderValue::from_static("13"));

    // The offered subprotocols go out as one plain value, joined by commas.
    if !protocols.is_empty() {
        let joined = join_with_commas(protocols);
        match HeaderValue::from_str(joined.as_str()) {
            Ok(value) => insert_field(&mut headers, "sec-websocket-protocol", value),
            Err(error) => return Err(Error::HttpFormat(error)),
        }
    }

    if let Some(list) = cookie_list {
        match HeaderValue::from_str(list) {
            Ok(value) => insert_field(&mut headers, "cookie", value),
            Err(error) => return Err(Error::HttpFormat(error)),
        }
    }

    if password.is_some() || !username.is_empty() {
        insert_basic_authorization(&mut headers, username, password.unwrap_or(""));
    }
    Ok(headers)
}

/// Creates the request of the initial HTTP exchange. It carries the `Origin`,
/// `Sec-WebSocket-Protocol`, `Authorization` and `Cookie` headers as
/// appropriate; `cookie_list` is what the cookie jar holds for the URL.
/// Returns an error if a header value is invalid.
pub fn create_handshake_request(request: RequestBuilder, cookie_list: Option<&str>) -> (created:
    Result<Request, Error>)
    requires
        request.mode is WebSocket,
    ensures
        created is Ok <==> handshake_is_sendable(
            origin_in(request.url@),
            texts(request.mode->protocols@),
            opt_text(cookie_list),
        ),
        created matches Ok(made) ==> {
            &&& made.url == request.url
            &&& made.mode == request.mode
            &&& fields(made.headers) == handshake_fields(
                origin_in(request.url@),
                texts(request.mode->protocols@),
                opt_text(cookie_list),
                username_in(request.url@),
                password_in(request.url@),
            )
        },
        created matches Err(error) ==> error@ == Fault::HttpFormat,
        created matches Err(error) ==> error is HttpFormat,
{
    let origin = request.url.ascii_origin();
    let built = match &request.mode {
        RequestMode::WebSocket { protocols, .. } => handshake_headers(
            origin.as_str(),
            protocols,
            cookie_list,
            request.url.username(),
            request.url.password(),
        ),
        RequestMode::Other => vstd::pervasive::unreached(),
    };
    match built {
        Ok(headers) => Ok(request.headers(headers).build()),
        Err(error) => Err(error),
    }
}

/// The header names that play a part in a handshake are pairwise different.
proof fn lemma_names_differ()
    ensures
        "origin"@.len() == 6,
        "cookie"@.len() == 6,
        "origin"@ != "cookie"@,
        "upgrade"@.len() == 7,
        "connection"@.len() == 10,
        "authorization"@.len() == 13,
        "sec-websocket-key"@.len() == 17,
        "sec-websocket-version"@.len() == 21,
        "sec-websocket-protocol"@.len() == 22,
{
    reveal_strlit("origin");
    reveal_strlit("cookie");
    assert("origin"@[0] != "cookie"@[0]);
    reveal_strlit("upgrade");
    reveal_strlit("connection");
    reveal_strlit("authorization");
    reveal_strlit("sec-websocket-key");
    reveal_strlit("sec-websocket-version");
    reveal_strlit("sec-websocket-protocol");
}

/// Every handshake carries the pair by which it is detected, `Upgrade:
/// websocket` and `Sec-WebSocket-Version: 13`, and its origin, each exactly
/// once, whatever the URL, the page and the cookie jar contribute.
pub proof fn law_handshake_is_marked(
    origin: Seq<char>,
    protocols: Seq<Seq<char>>,
    cookie_list: Option<Seq<char>>,
    username: Seq<char>,
    password: Option<Seq<char>>,
)
    ensures
        ({
            let sent = handshake_fields(origin, protocols, cookie_list, username, password);
            &&& values_of(sent, "origin"@) == plain_value(origin)
            &&& values_of(sent, "upgrade"@) == plain_value("websocket"@)
            &&& values_of(sent, "sec-websocket-version"@) == plain_value("13"@)
        }),
{
    lemma_names_differ();
}

/// The optional headers appear exactly when there is something to put in
/// them: the subprotocols, joined by commas, when the page offers any; the
/// cookies when the jar holds some; the credentials when the URL has a user
/// name or a password, a missing password counting as the empty one.
pub proof fn law_handshake_options(
    origin: Seq<char>,
    protocols: Seq<Seq<char>>,
    cookie_list: Option<Seq<char>>,
    username: Seq<char>,
    password: Option<Seq<char>>,
)
    ensures
        ({
            let sent = handshake_fields(origin, protocols, cookie_list, username, password);
            &&& values_of(sent, "sec-websocket-protocol"@) == if protocols.len() > 0 {
                plain_value(comma_joined(protocols))
            } else {
                Seq::empty()
            }
            &&& values_of(sent, "cookie"@) == match cookie_list {
                Some(list) => plain_value(list),
                None => Seq::empty(),
            }
            &&& values_of(sent, "authorization"@) == if password is Some || username.len() > 0 {
                seq![(basic_credentials(username, password.unwrap_or(Seq::empty())), true)]
            } else {
                Seq::empty()
            }
        }),
{
    lemma_names_differ();
}

/// A handshake carries no header but these six. In particular `Connection`
/// and `Sec-WebSocket-Key` are left to the transport.
pub proof fn law_handshake_leaves_the_rest_to_the_transport(
    origin: Seq<char>,
    protocols: Seq<Seq<char>>,
    cookie_list: Option<Seq<char>>,
    username: Seq<char>,
    password: Option<Seq<char>>,
    name: Seq<char>,
)
    requires
        handshake_fields(origin, protocols, cookie_list, username, password).dom().contains(name),
    ensures
        name == "origin"@ || name == "upgrade"@ || name == "sec-websocket-version"@ || name
            == "sec-websocket-protocol"@ || name == "cookie"@ || name == "authorization"@,
        name != "connection"@,
        name != "sec-websocket-key"@,
{
    lemma_names_differ();
}

/// A comma-joined list is free of control characters exactly if its parts are.
proof fn lemma_joined_chars(parts: Seq<Seq<char>>)
    ensures
        is_field_chars(comma_joined(parts)) <==> (forall|i: int|
            0 <= i < parts.len() ==> is_field_chars(#[trigger] parts[i])),
    decreases parts.len(),
{
    if parts.len() > 1 {
        let front = parts.drop_last();
        let head = comma_joined(front);
        let all = comma_joined(parts);
        lemma_joined_chars(front);
        assert(all == head + seq![','] + parts.last());
        if is_field_chars(all) {
            assert forall|i: int| 0 <= i < head.len() implies is_field_char(#[trigger] head[i]) by {
                assert(all[i] == head[i]);
            }
            assert forall|i: int| 0 <= i < parts.last().len() implies is_field_char(
                #[trigger] parts.last()[i],
            ) by {
                assert(all[head.len() + 1 + i] == parts.last()[i]);
            }
            assert forall|i: int| 0 <= i < parts.len() implies is_field_chars(
                #[trigger] parts[i],
            ) by {
                if i < front.len() {
                    assert(front[i] == parts[i]);
                }
            }
        }
        if forall|i: int| 0 <= i < parts.len() ==> is_field_chars(#[trigger] parts[i]) {
            assert forall|i: int| 0 <= i < front.len() implies is_field_chars(
                #[trigger] front[i],
            ) by {
                assert(front[i] == parts[i]);
            }
            assert forall|i: int| 0 <= i < all.len() implies is_field_char(#[trigger] all[i]) by {
                if i < head.len() {
                    assert(all[i] == head[i]);
                } else if i == head.len() {
                    assert(all[i] == ',');
                } else {
                    assert(all[i] == parts.last()[i - head.len() - 1]);
                }
            }
        }
    } else if parts.len() == 1 {
        assert(comma_joined(parts) == parts[0]);
    }
}

/// A handshake is refused exactly on account of a control character, the
/// horizontal tab aside, in its origin, in one of the offered subprotocols or
/// in its cookies.
pub proof fn law_handshake_is_refused_for_control_characters(
    origin: Seq<char>,
    protocols: Seq<Seq<char>>,
    cookie_list: Option<Seq<char>>,
)
    ensures
        handshake_is_sendable(origin, protocols, cookie_list) <==> {
            &&& is_field_chars(origin)
            &&& forall|i: int| 0 <= i < protocols.len() ==> is_field_chars(#[trigger] protocols[i])
            &&& cookie_list matches Some(list) ==> is_field_chars(list)
        },
{
    law_field_text_by_characters(origin);
    law_field_text_by_characters(comma_joined(protocols));
    lemma_joined_chars(protocols);
    if let Some(list) = cookie_list {
        law_field_text_by_characters(list);
    }
}

/// Joining one name gives that name, joining none the empty text, and joining
/// two lists one after the other puts a comma between what each of them gives.
pub proof fn law_joining_puts_a_comma_between_lists(
    name: Seq<char>,
    front: Seq<Seq<char>>,
    back: Seq<Seq<char>>,
)
    ensures
        comma_joined(Seq::empty()) == Seq::<char>::empty(),
        comma_joined(seq![name]) == name,
        front.len() > 0 && back.len() > 0 ==> comma_joined(front + back) == comma_joined(front)
            + seq![','] + comma_joined(back),
    decreases back.len(),
{
    if front.len() > 0 && back.len() == 1 {
        assert((front + back).drop_last() =~= front);
        assert((front + back).last() == back[0]);
    } else if front.len() > 0 && back.len() > 1 {
        let before = back.drop_last();
        law_joining_puts_a_comma_between_lists(name, front, before);
        assert((front + back).drop_last() =~= front + before);
        assert((front + back).last() == back.last());
        assert(comma_joined(front + back) =~= comma_joined(front) + seq![','] + comma_joined(back));
    }
}

/// The first name of a joined list is what comes before its first comma, and the
/// rest of the list is what comes behind it.
proof fn lemma_first_joined(parts: Seq<Seq<char>>)
    requires
        parts.len() > 0,
        forall|i: int| 0 <= i < parts.len() ==> !(#[trigger] parts[i]).contains(','),
    ensures
        length_before(comma_joined(parts), seq![',']) == parts[0].len(),
        comma_joined(parts).take(parts[0].len() as int) == parts[0],
        parts.len() == 1 <==> comma_joined(parts).len() == parts[0].len(),
        parts.len() > 1 ==> comma_joined(parts).skip(1int + parts[0].len()) == comma_joined(
            parts.skip(1),
        ),
{
    let joined = comma_joined(parts);
    let first = parts[0];
    if parts.len() > 1 {
        let rest = parts.skip(1);
        law_joining_puts_a_comma_between_lists(first, seq![first], rest);
        assert(seq![first] + rest =~= parts);
        assert(joined == first + seq![','] + comma_joined(rest));
        assert(joined[first.len() as int] == ',');
        assert(seq![','][0] == ',');
        assert(joined.skip(1int + first.len()) =~= comma_joined(rest));
    }
    assert(joined.take(first.len() as int) =~= first);
    assert forall|j: int| 0 <= j < first.len() implies !seq![','].contains(
        #[trigger] joined[j],
    ) by {
        assert(joined[j] == first[j]);
        if first[j] == ',' {
            assert(parts[0].contains(','));
        }
    }
    lemma_length_before_is(joined, seq![','], first.len() as int);
}

/// The names in a joined list can be read off it: two lists of names without
/// commas that are joined to the same text are the same list.
pub proof fn law_joined_names_can_be_told_apart(left: Seq<Seq<char>>, right: Seq<Seq<char>>)
    requires
        left.len() > 0,
        right.len() > 0,
        forall|i: int| 0 <= i < left.len() ==> !(#[trigger] left[i]).contains(','),
        forall|i: int| 0 <= i < right.len() ==> !(#[trigger] right[i]).contains(','),
        comma_joined(left) == comma_joined(right),
    ensures
        left == right,
    decreases left.len(),
{
    lemma_first_joined(left);
    lemma_first_joined(right);
    assert(left[0] == right[0]);
    if left.len() > 1 {
        assert forall|i: int| 0 <= i < left.skip(1).len() implies !(
        #[trigger] left.skip(1)[i]).contains(',') by {
            assert(left.skip(1)[i] == left[i + 1]);
        }
        assert forall|i: int| 0 <= i < right.skip(1).len() implies !(
        #[trigger] right.skip(1)[i]).contains(',') by {
            assert(right.skip(1)[i] == right[i + 1]);
        }
        law_joined_names_can_be_told_apart(left.skip(1), right.skip(1));
        assert(left =~= seq![left[0]] + left.skip(1));
        assert(right =~= seq![right[0]] + right.skip(1));
    }
    assert(left =~= right);
}

/// What each header of a handshake holds, byte for byte, and when it is there;
/// the credentials alone are marked as sensitive.
pub proof fn law_handshake_headers_by_their_bytes(
    origin: Seq<char>,
    protocols: Seq<Seq<char>>,
    cookie_list: Option<Seq<char>>,
    username: Seq<char>,
    password: Option<Seq<char>>,
)
    ensures
        ({
            let sent = handshake_fields(origin, protocols, cookie_list, username, password);
            &&& sent.dom().contains("origin"@) && sent["origin"@] == seq![
                (encode_utf8(origin), false),
            ]
            &&& sent.dom().contains("upgrade"@) && sent["upgrade"@] == seq![
                (encode_utf8("websocket"@), false),
            ]
            &&& sent.dom().contains("sec-websocket-version"@) && sent["sec-websocket-version"@]
                == seq![(encode_utf8("13"@), false)]
            &&& sent.dom().contains("sec-websocket-protocol"@) <==> protocols.len() > 0
            &&& protocols.len() > 0 ==> sent["sec-websocket-protocol"@] == seq![
                (encode_utf8(comma_joined(protocols)), false),
            ]
            &&& sent.dom().contains("cookie"@) <==> cookie_list is Some
            &&& cookie_list matches Some(list) ==> sent["cookie"@] == seq![
                (encode_utf8(list), false),
            ]
            &&& sent.dom().contains("authorization"@) <==> password is Some || username.len() > 0
            &&& password matches Some(secret) ==> sent["authorization"@] == seq![
                (
                    encode_utf8("Basic "@) + base64(encode_utf8(username + seq![':'] + secret)),
                    true,
                ),
            ]
            &&& password is None && username.len() > 0 ==> sent["authorization"@] == seq![
                (encode_utf8("Basic "@) + base64(encode_utf8(username + seq![':'])), true),
            ]
        }),
{
    lemma_names_differ();
    assert(username + seq![':'] + Seq::empty() =~= username + seq![':']);
}

/// A handshake can be sent exactly if no character of its origin, of an offered
/// subprotocol or of its cookies is a control character other than the
/// horizontal tab.
pub proof fn law_sendable_by_characters(
    origin: Seq<char>,
    protocols: Seq<Seq<char>>,
    cookie_list: Option<Seq<char>>,
)
    ensures
        handshake_is_sendable(origin, protocols, cookie_list) <==> {
            &&& forall|j: int|
                0 <= j < origin.len() ==> {
                    let c = #[trigger] origin[j] as u32;
                    c == 9 || (c >= 32 && c != 127)
                }
            &&& forall|i: int, j: int|
                0 <= i < protocols.len() && 0 <= j < protocols[i].len() ==> {
                    let c = #[trigger] protocols[i][j] as u32;
                    c == 9 || (c >= 32 && c != 127)
                }
            &&& cookie_list matches Some(list) ==> forall|j: int|
                0 <= j < list.len() ==> {
                    let c = #[trigger] list[j] as u32;
                    c == 9 || (c >= 32 && c != 127)
                }
        },
{
    law_handshake_is_refused_for_control_characters(origin, protocols, cookie_list);
    if forall|i: int, j: int|
        0 <= i < protocols.len() && 0 <= j < protocols[i].len() ==> {
            let c = #[trigger] protocols[i][j] as u32;
            c == 9 || (c >= 32 && c != 127)
        } {
        assert forall|i: int| 0 <= i < protocols.len() implies is_field_chars(
            #[trigger] protocols[i],
        ) by {
            assert forall|j: int| 0 <= j < protocols[i].len() implies is_field_char(
                #[trigger] protocols[i][j],
            ) by {}
        }
    }
    if forall|i: int| 0 <= i < protocols.len() ==> is_field_chars(#[trigger] protocols[i]) {
        assert forall|i: int, j: int|
            0 <= i < protocols.len() && 0 <= j < protocols[i].len() implies {
            let c = #[trigger] protocols[i][j] as u32;
            c == 9 || (c >= 32 && c != 127)
        } by {
            assert(is_field_chars(protocols[i]));
            assert(is_field_char(protocols[i][j]));
        }
    }
}

/// Strings say just what they hold, one by one.
pub proof fn law_strings_say_what_they_hold(strings: Seq<String>, i: int, text: &str)
    ensures
        texts(strings).len() == strings.len(),
        0 <= i < strings.len() ==> texts(strings)[i] == strings[i]@,
        opt_text(Some(text)) == Some(text@),
        opt_text(None) is None,
{
}

} // verus!
