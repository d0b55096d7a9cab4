//! The HTTP response that answers a handshake: the subprotocol it selects, and
//! what it leaves behind in the cookie jar and the HSTS list.

use http::header::{HeaderMap, HeaderValue};
use vstd::prelude::*;
use vstd::utf8::{decode_utf8, encode_utf8, encode_utf8_decode_utf8, valid_utf8};

use crate::foreign::fields::{
    all_values, fields, first_value, is_plain_name, is_visible_byte, remove_field, value_bytes,
    values_of, Fields,
};
use crate::foreign::payload::utf8_text;
use crate::websocket_loader::error::{Error, Fault, ProtocolError};
use crate::websocket_loader::handshake::{opt_text, texts};

verus! {

/// What an accepted response asks of the engine's state, in order.
#[derive(Debug)]
pub enum ResponseAction {
    /// Store this cookie, which came over HTTP, for the URL of the resource.
    SetCookie(String),
    /// Update the HSTS list from the response's headers.
    UpdateHsts,
}

/// A [`ResponseAction`], with the cookie as a text.
pub enum ResponseEffect {
    SetCookie(Seq<char>),
    UpdateHsts,
}

impl View for ResponseAction {
    type V = ResponseEffect;

    open spec fn view(&self) -> ResponseEffect {
        match self {
            ResponseAction::SetCookie(cookie) => ResponseEffect::SetCookie(cookie@),
            ResponseAction::UpdateHsts => ResponseEffect::UpdateHsts,
        }
    }
}

/// A response that was accepted: the subprotocol it selected, if any, and what
/// is to be done about it.
#[derive(Debug)]
pub struct WsResponse {
    pub protocol_in_use: Option<String>,
    pub actions: Vec<ResponseAction>,
}

/// A header value read as text; one that is not visible ASCII reads as empty.
pub open spec fn visible_text(bytes: Seq<u8>) -> Seq<char> {
    if forall|i: int| 0 <= i < bytes.len() ==> is_visible_byte(#[trigger] bytes[i]) {
        decode_utf8(bytes)
    } else {
        Seq::empty()
    }
}

/// The subprotocol that a response with these fields selects.
pub open spec fn selected_protocol(answer: Fields) -> Option<Seq<char>> {
    let values = values_of(answer, "sec-websocket-protocol"@);
    if values.len() > 0 {
        Some(visible_text(values[0].0))
    } else {
        None
    }
}

/// Whether a response that selects `selected` fits a request that offered
/// `protocols`: it selects nothing, or one of them. A request that offered none
/// takes no selection.
pub open spec fn protocol_is_acceptable(
    selected: Option<Seq<char>>,
    protocols: Seq<Seq<char>>,
) -> bool {
    match selected {
        Some(name) => protocols.contains(name),
        None => true,
    }
}

/// The view of an optional string.
pub open spec fn opt_string(text: Option<String>) -> Option<Seq<char>> {
    match text {
        Some(t) => Some(t@),
        None => None,
    }
}

/// The bytes of a list of vectors.
pub open spec fn byte_strings(list: Seq<Vec<u8>>) -> Seq<Seq<u8>> {
    list.map_values(|v: Vec<u8>| v@)
}

/// The values of the `Set-Cookie` headers among these fields.
pub open spec fn set_cookies(answer: Fields) -> Seq<Seq<u8>> {
    values_of(answer, "set-cookie"@).map_values(|v: (Seq<u8>, bool)| v.0)
}

/// Whether the `Set-Cookie` value at index `i` is stored: the cookie jar finds
/// it valid, and it is UTF-8. One that the jar gave no verdict on is not stored.
pub open spec fn is_kept(values: Seq<Seq<u8>>, valid: Seq<bool>, i: int) -> bool {
    0 <= i < valid.len() && valid[i] && valid_utf8(values[i])
}

/// The cookies to store out of the `Set-Cookie` values of a response, in order.
pub open spec fn kept_cookies(values: Seq<Seq<u8>>, valid: Seq<bool>) -> Seq<Seq<char>>
    decreases values.len(),
{
    if values.len() == 0 {
        Seq::empty()
    } else {
        let earlier = kept_cookies(values.drop_last(), valid);
        if is_kept(values, valid, values.len() - 1) {
            earlier.push(decode_utf8(values.last()))
        } else {
            earlier
        }
    }
}

/// What an accepted response leaves behind: each cookie to store, then the
/// update of the HSTS list.
pub open spec fn response_effects(values: Seq<Seq<u8>>, valid: Seq<bool>) -> Seq<ResponseEffect> {
    kept_cookies(values, valid).map_values(
        |cookie: Seq<char>| ResponseEffect::SetCookie(cookie),
    ).push(ResponseEffect::UpdateHsts)
}

/// The effects of a list of actions.
pub open spec fn effects(actions: Seq<ResponseAction>) -> Seq<ResponseEffect> {
    actions.map_values(|a: ResponseAction| a@)
}

proof fn lemma_names()
    ensures
        is_plain_name("sec-websocket-protocol"@),
        is_plain_name("set-cookie"@),
{
    reveal_strlit("sec-websocket-protocol");
    reveal_strlit("set-cookie");
}

/// The values of the response's `Set-Cookie` headers, in order, for the cookie
/// jar to judge.
pub fn set_cookie_values(response_headers: &HeaderMap<HeaderValue>) -> (values: Vec<Vec<u8>>)
    ensures
        byte_strings(values@) == set_cookies(fields(*response_headers)),
        values@.len() == values_of(fields(*response_headers), "set-cookie"@).len(),
        forall|i: int|
            0 <= i < values@.len() ==> (#[trigger] values@[i])@ == values_of(
                fields(*response_headers),
                "set-cookie"@,
            )[i].0,
{
    proof {
        lemma_names();
    }
    let values = all_values(response_headers, "set-cookie");
    assert(byte_strings(values@) =~= set_cookies(fields(*response_headers)));
    values
}

/// Whether `name` is one of `protocols`.
fn is_offered(protocols: &Vec<String>, name: &str) -> (offered: bool)
    ensures
        offered == texts(protocols@).contains(name@),
{
    let ghost all = texts(protocols@);
    let wanted = name.to_owned();
    for i in 0..protocols.len()
        invariant
            all == texts(protocols@),
            wanted@ == name@,
            forall|j: int| 0 <= j < i ==> all[j] != name@,
    {
        if protocols[i] == wanted {
            assert(all[i as int] == name@);
            return true;
        }
    }
    false
}

/// A list of strings holds a text exactly if one of them says it.
proof fn lemma_texts_contain(strings: Seq<String>, text: Option<Seq<char>>)
    ensures
        text matches Some(name) ==> (texts(strings).contains(name) <==> exists|i: int|
            0 <= i < strings.len() && (#[trigger] strings[i])@ == name),
{
    if let Some(name) = text {
        if texts(strings).contains(name) {
            let i = choose|i: int| 0 <= i < texts(strings).len() && texts(strings)[i] == name;
            assert(strings[i]@ == name);
        }
        if exists|i: int| 0 <= i < strings.len() && (#[trigger] strings[i])@ == name {
            let i = choose|i: int| 0 <= i < strings.len() && (#[trigger] strings[i])@ == name;
            assert(texts(strings)[i] == name);
        }
    }
}

/// The effects of actions are theirs one by one.
proof fn lemma_effects_of_actions(actions: Seq<ResponseAction>)
    ensures
        effects(actions).len() == actions.len(),
        forall|k: int| 0 <= k < actions.len() ==> effects(actions)[k] == (#[trigger] actions[k])@,
{
}

/// The indices of the `Set-Cookie` values that are stored, in order.
spec fn kept_indices(values: Seq<Seq<u8>>, valid: Seq<bool>) -> Seq<int>
    decreases values.len(),
{
    if values.len() == 0 {
        Seq::empty()
    } else {
        let earlier = kept_indices(values.drop_last(), valid);
        if is_kept(values, valid, values.len() - 1) {
            earlier.push(values.len() - 1)
        } else {
            earlier
        }
    }
}

proof fn lemma_kept_indices(values: Seq<Seq<u8>>, valid: Seq<bool>)
    ensures
        ({
            let from = kept_indices(values, valid);
            let kept = kept_cookies(values, valid);
            &&& kept.len() == from.len()
            &&& forall|k: int|
                0 <= k < from.len() ==> {
                    &&& 0 <= #[trigger] from[k] < values.len()
                    &&& from[k] < valid.len() && valid[from[k]]
                    &&& valid_utf8(values[from[k]])
                    &&& kept[k] == decode_utf8(values[from[k]])
                }
            &&& forall|k: int, l: int|
                0 <= k < l < from.len() ==> #[trigger] from[k] < #[trigger] from[l]
            &&& forall|i: int|
                0 <= i < values.len() && i < valid.len() && #[trigger] valid[i] && valid_utf8(
                    values[i],
                ) ==> from.contains(i)
        }),
    decreases values.len(),
{
    if values.len() > 0 {
        let before = values.drop_last();
        let last = values.len() - 1;
        let earlier = kept_indices(before, valid);
        let from = kept_indices(values, valid);
        lemma_kept_indices(before, valid);
        assert forall|i: int|
            0 <= i < values.len() && i < valid.len() && #[trigger] valid[i] && valid_utf8(
                values[i],
            ) implies from.contains(i) by {
            if i < last {
                assert(before[i] == values[i]);
                let k = choose|k: int| 0 <= k < earlier.len() && earlier[k] == i;
                assert(from[k] == i);
            } else {
                assert(from[from.len() - 1] == i);
            }
        }
    }
}

/// What is to be done about an accepted response with these `Set-Cookie`
/// values.
pub fn response_actions(values: &Vec<Vec<u8>>, valid: &Vec<bool>) -> (actions: Vec<ResponseAction>)
    ensures
        effects(actions@) == response_effects(byte_strings(values@), valid@),
{
    let mut actions: Vec<ResponseAction> = Vec::new();
    let ghost all = byte_strings(values@);
    let ghost effect = |cookie: Seq<char>| ResponseEffect::SetCookie(cookie);
    assert(effects(actions@) =~= kept_cookies(all.take(0), valid@).map_values(effect));
    for i in 0..values.len()
        invariant
            all == byte_strings(values@),
            effect == (|cookie: Seq<char>| ResponseEffect::SetCookie(cookie)),
            effects(actions@) == kept_cookies(all.take(i as int), valid@).map_values(effect),
    {
        let ghost before = actions@;
        let ghost earlier = kept_cookies(all.take(i as int), valid@);
        assert(all.take(i + 1).drop_last() =~= all.take(i as int));
        assert(all.take(i + 1).last() == values@[i as int]@);
        if i < valid.len() && valid[i] {
            if let Some(cookie) = utf8_text(values[i].as_slice()) {
                proof {
                    encode_utf8_decode_utf8(cookie@);
                }
                let ghost added = ResponseEffect::SetCookie(cookie@);
                assert(earlier.push(cookie@).map_values(effect) =~= earlier.map_values(
                    effect,
                ).push(added));
                actions.push(ResponseAction::SetCookie(cookie));
                assert(effects(actions@) =~= effects(before).push(added));
            }
        }
    }
    assert(all.take(values.len() as int) =~= all);
    let ghost before = actions@;
    actions.push(ResponseAction::UpdateHsts);
    assert(effects(actions@) =~= effects(before).push(ResponseEffect::UpdateHsts));
    actions
}

/// Accepts the subprotocol that a response selects, if the request offered it.
pub fn accept_protocol(selected: Option<&str>, protocols: &Vec<String>) -> (accepted: Result<
    Option<String>,
    Error,
>)
    ensures
        accepted is Ok <==> protocol_is_acceptable(opt_text(selected), texts(protocols@)),
        accepted matches Ok(in_use) ==> opt_string(in_use) == opt_text(selected),
        accepted matches Err(error) ==> error@ == Fault::InvalidHeader(
            "sec-websocket-protocol"@,
        ),
        selected is None ==> accepted == Ok::<Option<String>, Error>(None),
        selected matches Some(name) ==> (accepted is Ok <==> exists|i: int|
            0 <= i < protocols@.len() && (#[trigger] protocols@[i])@ == name@),
        accepted matches Ok(in_use) ==> (selected matches Some(name) ==> (
        in_use matches Some(taken) && taken@ == name@)),
        accepted matches Err(error) ==> error matches Error::Protocol(
            ProtocolError::InvalidHeader(header),
        ) && header@ == "sec-websocket-protocol"@,
{
    proof {
        lemma_texts_contain(protocols@, opt_text(selected));
    }
    match selected {
        Some(name) => {
            if !is_offered(protocols, name) {
                return Err(
                    Error::Protocol(
                        ProtocolError::InvalidHeader("sec-websocket-protocol".to_owned()),
                    ),
                );
            }
            Ok(Some(name.to_owned()))
        },
        None => Ok(None),
    }
}

/// Processes the HTTP response to a handshake. Returns the subprotocol it
/// selects, with the cookies and the HSTS update that are then due; `valid`
/// holds the cookie jar's verdict on each of the [`set_cookie_values`].
/// Returns an error, and asks for nothing to be done, if the subprotocol that
/// the response selects is not among those the request offered.
pub fn process_ws_response(
    response_headers: &HeaderMap<HeaderValue>,
    protocols: &Vec<String>,
    valid: &Vec<bool>,
) -> (processed: Result<WsResponse, Error>)
    ensures
        processed is Ok <==> protocol_is_acceptable(
            selected_protocol(fields(*response_headers)),
            texts(protocols@),
        ),
        processed matches Ok(response) ==> {
            &&& opt_string(response.protocol_in_use) == selected_protocol(
                fields(*response_headers),
            )
            &&& effects(response.actions@) == response_effects(
                set_cookies(fields(*response_headers)),
                valid@,
            )
        },
        processed matches Err(error) ==> error@ == Fault::InvalidHeader(
            "sec-websocket-protocol"@,
        ),
        ({
            let selections = values_of(fields(*response_headers), "sec-websocket-protocol"@);
            let cookies = values_of(fields(*response_headers), "set-cookie"@);
            let readable = forall|j: int|
                0 <= j < selections[0].0.len() ==> is_visible_byte(#[trigger] selections[0].0[j]);
            let name = if readable {
                decode_utf8(selections[0].0)
            } else {
                Seq::empty()
            };
            &&& processed is Ok <==> selections.len() == 0 || exists|i: int|
                0 <= i < protocols@.len() && (#[trigger] protocols@[i])@ == name
            &&& processed matches Ok(response) ==> {
                &&& selections.len() == 0 ==> response.protocol_in_use is None
                &&& selections.len() > 0 ==> (response.protocol_in_use matches Some(taken) && taken@
                    == name)
                &&& exists|from: Seq<int>|
                    {
                        &&& response.actions@.len() == #[trigger] from.len() + 1
                        &&& response.actions@.last() is UpdateHsts
                        &&& forall|k: int|
                            0 <= k < from.len() ==> {
                                &&& 0 <= #[trigger] from[k] < cookies.len()
                                &&& from[k] < valid@.len() && valid@[from[k]]
                                &&& valid_utf8(cookies[from[k]].0)
                                &&& response.actions@[k] matches ResponseAction::SetCookie(cookie)
                                &&& cookie@ == decode_utf8(cookies[from[k]].0)
                            }
                        &&& forall|k: int, l: int|
                            0 <= k < l < from.len() ==> #[trigger] from[k] < #[trigger] from[l]
                        &&& forall|i: int|
                            0 <= i < cookies.len() && i < valid@.len() && #[trigger] valid@[i]
                                && valid_utf8(cookies[i].0) ==> from.contains(i)
                    }
            }
            &&& processed matches Err(error) ==> error matches Error::Protocol(
                ProtocolError::InvalidHeader(header),
            ) && header@ == "sec-websocket-protocol"@
        }),
{
    proof {
        lemma_names();
        reveal_strlit("");
        assert(""@ =~= Seq::empty());
    }
    let selected = match first_value(response_headers, "sec-websocket-protocol") {
        Some(value) => {
            let name = match value.to_str() {
                Ok(text) => text,
                Err(_) => "",
            };
            proof {
                encode_utf8_decode_utf8(name@);
                assert(name@ == visible_text(value_bytes(*value)));
            }
            Some(name)
        },
        None => None,
    };
    match accept_protocol(selected, protocols) {
        Ok(protocol_in_use) => {
            let values = set_cookie_values(response_headers);
            let actions = response_actions(&values, valid);
            proof {
                let cookies = set_cookies(fields(*response_headers));
                law_response_stores_exactly_the_valid_cookies(cookies, valid@);
                lemma_effects_of_actions(actions@);
                let from = choose|from: Seq<int>|
                    {
                        &&& response_effects(cookies, valid@).len() == #[trigger] from.len() + 1
                        &&& response_effects(cookies, valid@).last() == ResponseEffect::UpdateHsts
                        &&& forall|k: int|
                            0 <= k < from.len() ==> {
                                &&& 0 <= #[trigger] from[k] < cookies.len()
                                &&& from[k] < valid@.len() && valid@[from[k]]
                                &&& valid_utf8(cookies[from[k]])
                                &&& response_effects(cookies, valid@)[k]
                                    == ResponseEffect::SetCookie(decode_utf8(cookies[from[k]]))
                            }
                        &&& forall|k: int, l: int|
                            0 <= k < l < from.len() ==> #[trigger] from[k] < #[trigger] from[l]
                        &&& forall|i: int|
                            0 <= i < cookies.len() && i < valid@.len() && #[trigger] valid@[i]
                                && valid_utf8(cookies[i]) ==> from.contains(i)
                    };
                assert(actions@.len() == from.len() + 1);
                assert(actions@.last()@ == ResponseEffect::UpdateHsts);
                assert forall|k: int| 0 <= k < from.len() implies {
                    &&& 0 <= #[trigger] from[k] < cookies.len()
                    &&& actions@[k] matches ResponseAction::SetCookie(cookie)
                    &&& cookie@ == decode_utf8(cookies[from[k]])
                } by {
                    assert(actions@[k]@ == ResponseEffect::SetCookie(
                        decode_utf8(cookies[from[k]]),
                    ));
                }
            }
            Ok(WsResponse { protocol_in_use, actions })
        },
        Err(error) => Err(error),
    }
}

/// Removes the subprotocol selection from the headers on which the transport
/// validates the upgrade. Its own policy on subprotocols is stricter than the
/// one above, which owns the decision.
pub fn strip_selected_protocol(headers: &mut HeaderMap<HeaderValue>)
    ensures
        fields(*final(headers)) == fields(*old(headers)).remove("sec-websocket-protocol"@),
{
    proof {
        lemma_names();
    }
    remove_field(headers, "sec-websocket-protocol");
}

/// A response that echoes one of the offered subprotocols is accepted,
/// whatever else the request offered.
pub proof fn law_echoed_protocol_is_accepted(protocols: Seq<Seq<char>>, i: int)
    requires
        0 <= i < protocols.len(),
        forall|j: int|
            0 <= j < encode_utf8(protocols[i]).len() ==> is_visible_byte(
                #[trigger] encode_utf8(protocols[i])[j],
            ),
    ensures
        visible_text(encode_utf8(protocols[i])) == protocols[i],
        protocol_is_acceptable(Some(visible_text(encode_utf8(protocols[i]))), protocols),
{
    encode_utf8_decode_utf8(protocols[i]);
}

/// Once its selection is stripped an answer selects no subprotocol, and is
/// otherwise as it was.
pub proof fn law_stripped_answer_selects_nothing(answer: Fields, name: Seq<char>)
    ensures
        selected_protocol(answer.remove("sec-websocket-protocol"@)) is None,
        name != "sec-websocket-protocol"@ ==> values_of(
            answer.remove("sec-websocket-protocol"@),
            name,
        ) == values_of(answer, name),
{
}

/// Only cookies that the jar finds valid are stored, and each is the text of
/// one of the response's `Set-Cookie` values.
pub proof fn law_stored_cookies_are_valid(values: Seq<Seq<u8>>, valid: Seq<bool>, k: int)
    requires
        0 <= k < kept_cookies(values, valid).len(),
    ensures
        exists|i: int|
            0 <= i < values.len() && #[trigger] is_kept(values, valid, i) && kept_cookies(
                values,
                valid,
            )[k] == decode_utf8(values[i]),
    decreases values.len(),
{
    let earlier = kept_cookies(values.drop_last(), valid);
    if k < earlier.len() {
        law_stored_cookies_are_valid(values.drop_last(), valid, k);
        let i = choose|i: int|
            0 <= i < values.len() - 1 && #[trigger] is_kept(values.drop_last(), valid, i)
                && earlier[k] == decode_utf8(values.drop_last()[i]);
        assert(is_kept(values, valid, i));
    } else {
        assert(is_kept(values, valid, values.len() - 1));
    }
}

/// No valid cookie is dropped.
pub proof fn law_valid_cookies_are_stored(values: Seq<Seq<u8>>, valid: Seq<bool>, i: int)
    requires
        0 <= i < values.len(),
        is_kept(values, valid, i),
    ensures
        kept_cookies(values, valid).contains(decode_utf8(values[i])),
    decreases values.len(),
{
    let earlier = kept_cookies(values.drop_last(), valid);
    let all = kept_cookies(values, valid);
    if i < values.len() - 1 {
        assert(is_kept(values.drop_last(), valid, i));
        law_valid_cookies_are_stored(values.drop_last(), valid, i);
        let k = choose|k: int| 0 <= k < earlier.len() && earlier[k] == decode_utf8(values[i]);
        assert(all[k] == decode_utf8(values[i]));
    } else {
        assert(all.last() == decode_utf8(values[i]));
    }
}

/// Cookies are stored in the order of their headers: those of an initial run
/// of `Set-Cookie` values come before those of the values that follow.
pub proof fn law_cookies_keep_their_order(
    first: Seq<Seq<u8>>,
    second: Seq<Seq<u8>>,
    valid: Seq<bool>,
)
    requires
        first.len() <= valid.len(),
    ensures
        kept_cookies(first + second, valid) == kept_cookies(first, valid) + kept_cookies(
            second,
            valid.skip(first.len() as int),
        ),
    decreases second.len(),
{
    let rest = valid.skip(first.len() as int);
    if second.len() == 0 {
        assert(first + second =~= first);
        assert(kept_cookies(second, rest) =~= Seq::empty());
    } else {
        law_cookies_keep_their_order(first, second.drop_last(), valid);
        assert((first + second).drop_last() =~= first + second.drop_last());
        let i = second.len() - 1;
        assert(is_kept(first + second, valid, first.len() + i) == is_kept(second, rest, i));
    }
    assert(kept_cookies(first + second, valid) =~= kept_cookies(first, valid) + kept_cookies(
        second,
        rest,
    ));
}

/// The HSTS list is updated exactly once, after the last cookie was stored.
pub proof fn law_hsts_update_comes_last(values: Seq<Seq<u8>>, valid: Seq<bool>, k: int)
    requires
        0 <= k < response_effects(values, valid).len(),
    ensures
        response_effects(values, valid)[k] is UpdateHsts <==> k == response_effects(
            values,
            valid,
        ).len() - 1,
{
}

/// A response stores exactly the cookies that the jar finds valid and that are
/// UTF-8, each once, in the order of their headers, each as the text of its
/// header's bytes; and the update of the HSTS list follows.
pub proof fn law_response_stores_exactly_the_valid_cookies(
    values: Seq<Seq<u8>>,
    valid: Seq<bool>,
)
    ensures
        exists|from: Seq<int>|
            {
                &&& response_effects(values, valid).len() == #[trigger] from.len() + 1
                &&& response_effects(values, valid).last() == ResponseEffect::UpdateHsts
                &&& forall|k: int|
                    0 <= k < from.len() ==> {
                        &&& 0 <= #[trigger] from[k] < values.len()
                        &&& from[k] < valid.len() && valid[from[k]]
                        &&& valid_utf8(values[from[k]])
                        &&& response_effects(values, valid)[k] == ResponseEffect::SetCookie(
                            decode_utf8(values[from[k]]),
                        )
                    }
                &&& forall|k: int, l: int|
                    0 <= k < l < from.len() ==> #[trigger] from[k] < #[trigger] from[l]
                &&& forall|i: int|
                    0 <= i < values.len() && i < valid.len() && #[trigger] valid[i] && valid_utf8(
                        values[i],
                    ) ==> from.contains(i)
            },
{
    lemma_kept_indices(values, valid);
    let from = kept_indices(values, valid);
    assert(response_effects(values, valid).len() == from.len() + 1);
}

/// A response is accepted exactly if it selects nothing, or a name that equals
/// one of those offered. Where none was offered no selection is accepted.
pub proof fn law_accepted_protocol_was_offered(name: Seq<char>, protocols: Seq<Seq<char>>)
    ensures
        protocol_is_acceptable(Some(name), protocols) <==> exists|i: int|
            0 <= i < protocols.len() && #[trigger] protocols[i] == name,
        protocol_is_acceptable(None, protocols),
        !protocol_is_acceptable(Some(name), Seq::empty()),
{
}

/// What a response selects is what its first `Sec-WebSocket-Protocol` value
/// reads: its bytes as text if all of them are visible ASCII, and the empty name
/// otherwise. Without such a value it selects nothing. No other header and no
/// further value matters.
pub proof fn law_first_value_is_the_selection(answer: Fields)
    ensures
        selected_protocol(answer) is Some <==> answer.dom().contains("sec-websocket-protocol"@)
            && answer["sec-websocket-protocol"@].len() > 0,
        selected_protocol(answer) matches Some(name) ==> {
            let bytes = answer["sec-websocket-protocol"@][0].0;
            &&& (forall|j: int| 0 <= j < bytes.len() ==> is_visible_byte(#[trigger] bytes[j]))
                ==> name == decode_utf8(bytes)
            &&& (exists|j: int| 0 <= j < bytes.len() && !is_visible_byte(#[trigger] bytes[j]))
                ==> name.len() == 0
        },
{
}

/// The cookies that a response brings are the bytes of its `Set-Cookie` values,
/// all of them and in order.
pub proof fn law_cookies_are_the_values_of_their_header(answer: Fields, i: int)
    ensures
        answer.dom().contains("set-cookie"@) ==> set_cookies(answer).len()
            == answer["set-cookie"@].len(),
        !answer.dom().contains("set-cookie"@) ==> set_cookies(answer).len() == 0,
        0 <= i < set_cookies(answer).len() ==> set_cookies(answer)[i] == answer["set-cookie"@][i].0,
{
}

/// Actions, strings and vectors say just what they hold, one by one.
pub proof fn law_actions_say_what_they_hold(
    cookie: String,
    actions: Seq<ResponseAction>,
    list: Seq<Vec<u8>>,
    i: int,
)
    ensures
        ResponseAction::SetCookie(cookie)@ == ResponseEffect::SetCookie(cookie@),
        ResponseAction::UpdateHsts@ == ResponseEffect::UpdateHsts,
        effects(actions).len() == actions.len(),
        0 <= i < actions.len() ==> effects(actions)[i] == actions[i]@,
        byte_strings(list).len() == list.len(),
        0 <= i < list.len() ==> byte_strings(list)[i] == list[i]@,
        opt_string(Some(cookie)) == Some(cookie@),
        opt_string(None) is None,
{
}

} // verus!
