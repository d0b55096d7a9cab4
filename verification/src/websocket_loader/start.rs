//! The start of a connection: from the handshake request to the message loop.
//!
//! The steps alternate with work done elsewhere: the HTTP exchange, the
//! upgrade, the engine's cookie jar and HSTS list, the channel to the page.

use http::header::{HeaderMap, HeaderValue};
use vstd::prelude::*;
use vstd::std_specs::convert::FromSpecImpl;
use vstd::utf8::{decode_utf8, valid_utf8};

use crate::foreign::address::{
    after_scheme, authority_in, has_authority, length_before, password_in, path_in,
    replace_scheme, scheme_in, secured, userinfo_of, username_in,
};
use crate::foreign::fields::{fields, is_visible_byte, values_of, Fields};
use crate::servo_url::{
    lemma_length_before, lemma_length_before_is, lemma_parts, ServoUrl,
};
use crate::websocket_loader::dom_listener::{
    close_frame, closing_after, forwarded, law_first_close_is_forwarded, Action, Demand,
};
use crate::websocket_loader::error::{Error, Fault, ProtocolError};
use crate::websocket_loader::event_loop::{
    awaited, transition, Effect, Event, LoopState, Notice, WebSocketNetworkEvent,
};
use crate::websocket_loader::handshake::texts;
use crate::websocket_loader::response::{
    effects, law_response_stores_exactly_the_valid_cookies, opt_string, process_ws_response,
    protocol_is_acceptable, response_effects, selected_protocol, set_cookies, ResponseAction,
    ResponseEffect,
};
use crate::ws_map::Content;

verus! {

/// How the handshake is to be made.
pub struct HandshakePlan {
    /// The method of the HTTP exchange.
    pub method: &'static str,
    /// The serialization of the URL to ask for.
    pub url: String,
    /// The headers to send.
    pub headers: HeaderMap<HeaderValue>,
    /// Whether a redirect is followed. It never is: any answer but a switch of
    /// protocols has to fail the upgrade.
    pub follow_redirects: bool,
}

/// Whether the scheme of a handshake's URL has to be repaired: the page asked
/// for a plain connection, and the request has meanwhile been upgraded.
pub open spec fn scheme_needs_repair(original_scheme: Seq<char>, scheme: Seq<char>) -> bool {
    original_scheme == "ws"@ && scheme == "https"@
}

/// Whether the scheme of a handshake's URL has to be repaired.
pub fn needs_scheme_repair(original_scheme: &str, scheme: &str) -> (repair: bool)
    ensures
        repair == scheme_needs_repair(original_scheme@, scheme@),
        repair <==> original_scheme@ == "ws"@ && scheme@ == "https"@,
{
    original_scheme.to_owned() == "ws".to_owned() && scheme.to_owned() == "https".to_owned()
}

/// Whether `plan` is the handshake for a request with these headers that the
/// page made to `original_url` and that has come to `url`: a `GET` of the
/// original URL, over a secure connection if the request has come to one, with
/// the request's headers as they are, that follows no redirect.
pub open spec fn is_plan_for(
    plan: HandshakePlan,
    original_url: ServoUrl,
    url: ServoUrl,
    headers: HeaderMap<HeaderValue>,
) -> bool {
    let repaired = scheme_needs_repair(scheme_in(original_url@), scheme_in(url@));
    &&& plan.method@ == "GET"@
    &&& plan.url@ == if repaired {
        secured(original_url@)
    } else {
        original_url@
    }
    &&& plan.headers == headers
    &&& !plan.follow_redirects
}

/// Plans the handshake for a request with these headers that the page made to
/// `original_url` and that has come to `url`.
pub fn plan_handshake(
    original_url: ServoUrl,
    url: &ServoUrl,
    headers: HeaderMap<HeaderValue>,
) -> (plan: HandshakePlan)
    ensures
        is_plan_for(plan, original_url, *url, headers),
        plan.method@ == "GET"@,
        plan.headers == headers,
        !plan.follow_redirects,
        plan.url@ == if scheme_in(original_url@) == "ws"@ && scheme_in(url@) == "https"@ {
            secured(original_url@)
        } else {
            original_url@
        },
{
    let repair = needs_scheme_repair(original_url.scheme(), url.scheme());
    let mut ws_url = original_url.into_url();
    if repair {
        let replaced = replace_scheme(&mut ws_url, "wss");
        assert(replaced is Ok);
    }
    HandshakePlan {
        method: "GET",
        url: ws_url.as_str().to_owned(),
        headers,
        follow_redirects: false,
    }
}

/// A port is no part of the credentials in an authority.
proof fn lemma_userinfo_ends_before_the_port(host: Seq<char>, port: Seq<char>)
    requires
        !port.contains('@'),
    ensures
        userinfo_of(host + port) == userinfo_of(host),
{
    let stops = seq!['@'];
    let authority = host + port;
    lemma_length_before(host, stops);
    let at = length_before(host, stops);
    assert forall|j: int| 0 <= j < at implies !stops.contains(#[trigger] authority[j]) by {
        assert(authority[j] == host[j]);
    }
    if at < host.len() {
        assert(authority[at] == host[at]);
        lemma_length_before_is(authority, stops, at);
        assert(authority.take(at) =~= host.take(at));
    } else {
        assert forall|j: int| 0 <= j < authority.len() implies !stops.contains(
            #[trigger] authority[j],
        ) by {
            if j >= host.len() {
                assert(authority[j] == port[j - host.len()]);
            }
        }
        lemma_length_before_is(authority, stops, authority.len() as int);
    }
}

/// A repaired URL is a secure one. It keeps its credentials and its path, and
/// its authority but for a port that goes without saying.
pub proof fn law_repair_keeps_the_rest(text: Seq<char>)
    requires
        scheme_in(text) == "ws"@,
        has_authority(text),
    ensures
        scheme_in(secured(text)) == "wss"@,
        has_authority(secured(text)),
        authority_in(text) == authority_in(secured(text)) || authority_in(text) == authority_in(
            secured(text),
        ) + ":443"@,
        username_in(secured(text)) == username_in(text),
        password_in(secured(text)) == password_in(text),
        path_in(secured(text)) == path_in(text),
{
    reveal_strlit("ws");
    reveal_strlit("wss");
    reveal_strlit(":443");
    let marks = seq![':', '/', '/'];
    let port = seq![':', '4', '4', '3'];
    let authority = authority_in(text);
    let rest = after_scheme(text).skip(3);
    let tail = rest.skip(authority.len() as int);
    lemma_length_before(text, seq![':']);
    lemma_length_before(rest, seq!['/', '?', '#']);
    assert(text.take(2) =~= "ws"@);
    assert(text.skip(2).subrange(0, 3) =~= marks);
    assert(text =~= "ws"@ + marks + authority + tail);
    assert forall|j: int| 0 <= j < authority.len() implies !seq!['/', '?', '#'].contains(
        #[trigger] authority[j],
    ) by {
        assert(authority[j] == rest[j]);
    }
    lemma_parts(text, "ws"@, authority, tail);
    if port.is_suffix_of(authority) {
        let kept = authority.take(authority.len() - 4);
        assert(authority =~= kept + port);
        assert(port =~= ":443"@);
        assert(secured(text) =~= "wss"@ + marks + kept + tail);
        assert forall|j: int| 0 <= j < kept.len() implies !seq!['/', '?', '#'].contains(
            #[trigger] kept[j],
        ) by {
            assert(kept[j] == authority[j]);
        }
        lemma_parts(secured(text), "wss"@, kept, tail);
        lemma_userinfo_ends_before_the_port(kept, port);
    } else {
        assert(secured(text) =~= "wss"@ + marks + authority + tail);
        lemma_parts(secured(text), "wss"@, authority, tail);
    }
}

/// Everything that the fetch pipeline needs from a completed handshake: the
/// status and the headers to build its response from.
pub struct WsHandshake {
    pub status: u16,
    pub headers: HeaderMap<HeaderValue>,
}

/// A [`WsHandshake`], in terms of what it holds.
pub struct Answer {
    pub status: u16,
    pub fields: Fields,
}

impl View for WsHandshake {
    type V = Answer;

    open spec fn view(&self) -> Answer {
        Answer { status: self.status, fields: fields(self.headers) }
    }
}

/// Why a connection could not start: the transport's handshake failed, with
/// the transport's own error, or the response was refused.
#[derive(Debug)]
pub enum WsStartError<H> {
    Handshake(H),
    Protocol(Error),
}

/// A [`WsStartError`], in terms of what it says.
pub enum StartFault<H> {
    Handshake(H),
    Protocol(Fault),
}

impl<H> View for WsStartError<H> {
    type V = StartFault<H>;

    open spec fn view(&self) -> StartFault<H> {
        match self {
            WsStartError::Handshake(error) => StartFault::Handshake(*error),
            WsStartError::Protocol(error) => StartFault::Protocol(error@),
        }
    }
}

impl<H> From<H> for WsStartError<H> {
    fn from(error: H) -> (wrapped: Self) {
        WsStartError::Handshake(error)
    }
}

impl<H> FromSpecImpl<H> for WsStartError<H> {
    open spec fn obeys_from_spec() -> bool {
        true
    }

    open spec fn from_spec(error: H) -> Self {
        WsStartError::Handshake(error)
    }
}

/// How far the start has come.
pub enum StartState {
    /// The handshake request is out.
    Connecting,
    /// The answer is in, and the transport validates the upgrade.
    Upgrading(WsHandshake),
    /// The answer was accepted with this subprotocol, and its actions are being
    /// carried out.
    Applying(WsHandshake, Option<String>),
    /// The page is being told that its connection is established.
    Announcing(WsHandshake),
    /// The start is over.
    Finished,
}

/// A [`StartState`], in terms of what it holds.
pub enum Phase {
    Connecting,
    Upgrading(Answer),
    Applying(Answer, Option<Seq<char>>),
    Announcing(Answer),
    Finished,
}

impl View for StartState {
    type V = Phase;

    open spec fn view(&self) -> Phase {
        match self {
            StartState::Connecting => Phase::Connecting,
            StartState::Upgrading(handshake) => Phase::Upgrading(handshake@),
            StartState::Applying(handshake, protocol_in_use) => Phase::Applying(
                handshake@,
                opt_string(*protocol_in_use),
            ),
            StartState::Announcing(handshake) => Phase::Announcing(handshake@),
            StartState::Finished => Phase::Finished,
        }
    }
}

/// What happens in the course of a start.
pub enum StartEvent<H> {
    /// The HTTP exchange brought an answer, or failed.
    Answered(Result<WsHandshake, H>),
    /// The transport accepted the upgrade or failed it; with the cookie jar's
    /// verdicts on the answer's `Set-Cookie` values.
    Upgraded(Result<(), H>, Vec<bool>),
    /// The actions were carried out; with whether the page has asked for a
    /// close in the meantime.
    Applied { initiated_close: bool },
    /// The page was told, or could not be.
    Announced { delivered: bool },
}

/// A [`StartEvent`], in terms of what it says.
pub enum StartFact<H> {
    Answered(Result<Answer, H>),
    Upgraded(Result<(), H>, Seq<bool>),
    Applied { initiated_close: bool },
    Announced { delivered: bool },
}

impl<H> View for StartEvent<H> {
    type V = StartFact<H>;

    open spec fn view(&self) -> StartFact<H> {
        match self {
            StartEvent::Answered(answer) => StartFact::Answered(
                match answer {
                    Ok(handshake) => Ok(handshake@),
                    Err(error) => Err(*error),
                },
            ),
            StartEvent::Upgraded(upgrade, valid) => StartFact::Upgraded(*upgrade, valid@),
            StartEvent::Applied { initiated_close } => StartFact::Applied {
                initiated_close: *initiated_close,
            },
            StartEvent::Announced { delivered } => StartFact::Announced { delivered: *delivered },
        }
    }
}

/// What is to be done in the course of a start.
pub enum StartAction<H> {
    /// Strip the selected subprotocol from the answer, and have the transport
    /// validate the upgrade.
    Upgrade,
    /// Carry out these actions.
    Apply(Vec<ResponseAction>),
    /// Tell the page.
    Announce(WebSocketNetworkEvent),
    /// Run the message loop if asked to, and return this.
    Return { result: Result<WsHandshake, WsStartError<H>>, run_loop: bool },
}

/// A [`StartAction`], in terms of what it says.
pub enum StartEffect<H> {
    Upgrade,
    Apply(Seq<ResponseEffect>),
    Announce(Notice),
    Return { result: Result<Answer, StartFault<H>>, run_loop: bool },
}

impl<H> View for StartAction<H> {
    type V = StartEffect<H>;

    open spec fn view(&self) -> StartEffect<H> {
        match self {
            StartAction::Upgrade => StartEffect::Upgrade,
            StartAction::Apply(actions) => StartEffect::Apply(effects(actions@)),
            StartAction::Announce(event) => StartEffect::Announce(event@),
            StartAction::Return { result, run_loop } => StartEffect::Return {
                result: match result {
                    Ok(handshake) => Ok(handshake@),
                    Err(error) => Err(error@),
                },
                run_loop: *run_loop,
            },
        }
    }
}

/// Whether an event may happen in a phase.
pub open spec fn start_awaits<H>(phase: Phase, event: StartFact<H>) -> bool {
    match event {
        StartFact::Answered(_) => phase is Connecting,
        StartFact::Upgraded(..) => phase is Upgrading,
        StartFact::Applied { .. } => phase is Applying,
        StartFact::Announced { .. } => phase is Announcing,
    }
}

/// The end of a start that failed.
pub open spec fn failed<H>(fault: StartFault<H>) -> (Phase, StartEffect<H>) {
    (Phase::Finished, StartEffect::Return { result: Err(fault), run_loop: false })
}

/// What an event leads to: the next phase, and what is to be done. `protocols`
/// are those that the request offered.
pub open spec fn start_transition<H>(
    phase: Phase,
    event: StartFact<H>,
    protocols: Seq<Seq<char>>,
) -> (Phase, StartEffect<H>)
    recommends
        start_awaits(phase, event),
{
    match (phase, event) {
        (_, StartFact::Answered(Ok(answer))) => (Phase::Upgrading(answer), StartEffect::Upgrade),
        (_, StartFact::Answered(Err(error))) => failed(StartFault::Handshake(error)),
        (_, StartFact::Upgraded(Err(error), _)) => failed(StartFault::Handshake(error)),
        (Phase::Upgrading(answer), StartFact::Upgraded(Ok(_), valid)) => {
            let selected = selected_protocol(answer.fields);
            if protocol_is_acceptable(selected, protocols) {
                (
                    Phase::Applying(answer, selected),
                    StartEffect::Apply(response_effects(set_cookies(answer.fields), valid)),
                )
            } else {
                failed(StartFault::Protocol(Fault::InvalidHeader("sec-websocket-protocol"@)))
            }
        },
        (Phase::Applying(answer, selected), StartFact::Applied { initiated_close: false }) => (
            Phase::Announcing(answer),
            StartEffect::Announce(Notice::ConnectionEstablished(selected)),
        ),
        (Phase::Applying(answer, selected), StartFact::Applied { initiated_close: true }) => (
            Phase::Finished,
            StartEffect::Return { result: Ok(answer), run_loop: true },
        ),
        (Phase::Announcing(answer), StartFact::Announced { .. }) => (
            Phase::Finished,
            StartEffect::Return { result: Ok(answer), run_loop: true },
        ),
        _ => arbitrary(),
    }
}

/// Takes the start of a connection one step on.
pub fn start_step<H>(state: StartState, event: StartEvent<H>, protocols: &Vec<String>) -> (next: (
    StartState,
    StartAction<H>,
))
    requires
        start_awaits(state@, event@),
    ensures
        (next.0@, next.1@) == start_transition(state@, event@, texts(protocols@)),
        match (state, event) {
            (_, StartEvent::Answered(Ok(given))) => {
                &&& next.0 == StartState::Upgrading(given)
                &&& next.1 is Upgrade
            },
            (_, StartEvent::Answered(Err(given))) => {
                &&& next.0 is Finished
                &&& next.1 == (StartAction::Return {
                    result: Err(WsStartError::Handshake(given)),
                    run_loop: false,
                })
            },
            (_, StartEvent::Upgraded(Err(given), _)) => {
                &&& next.0 is Finished
                &&& next.1 == (StartAction::Return {
                    result: Err(WsStartError::Handshake(given)),
                    run_loop: false,
                })
            },
            (StartState::Upgrading(given), StartEvent::Upgraded(Ok(_), valid)) => {
                let selections = values_of(fields(given.headers), "sec-websocket-protocol"@);
                let cookies = values_of(fields(given.headers), "set-cookie"@);
                let readable = forall|j: int|
                    0 <= j < selections[0].0.len() ==> is_visible_byte(
                        #[trigger] selections[0].0[j],
                    );
                let name = if readable {
                    decode_utf8(selections[0].0)
                } else {
                    Seq::empty()
                };
                if selections.len() == 0 || exists|i: int|
                    0 <= i < protocols@.len() && (#[trigger] protocols@[i])@ == name {
                    &&& next.0 matches StartState::Applying(kept, in_use)
                    &&& kept == given
                    &&& selections.len() == 0 ==> in_use is None
                    &&& selections.len() > 0 ==> (in_use matches Some(taken) && taken@ == name)
                    &&& next.1 matches StartAction::Apply(actions)
                    &&& exists|from: Seq<int>|
                        {
                            &&& actions@.len() == #[trigger] from.len() + 1
                            &&& actions@.last() is UpdateHsts
                            &&& forall|k: int|
                                0 <= k < from.len() ==> {
                                    &&& 0 <= #[trigger] from[k] < cookies.len()
                                    &&& from[k] < valid@.len() && valid@[from[k]]
                                    &&& valid_utf8(cookies[from[k]].0)
                                    &&& actions@[k] matches ResponseAction::SetCookie(cookie)
                                    &&& cookie@ == decode_utf8(cookies[from[k]].0)
                                }
                            &&& forall|k: int, l: int|
                                0 <= k < l < from.len() ==> #[trigger] from[k] < #[trigger] from[l]
                            &&& forall|i: int|
                                0 <= i < cookies.len() && i < valid@.len() && #[trigger] valid@[i]
                                    && valid_utf8(cookies[i].0) ==> from.contains(i)
                        }
                } else {
                    &&& next.0 is Finished
                    &&& next.1 matches StartAction::Return {
                        result: Err(
                            WsStartError::Protocol(
                                Error::Protocol(ProtocolError::InvalidHeader(header)),
                            ),
                        ),
                        run_loop,
                    }
                    &&& header@ == "sec-websocket-protocol"@
                    &&& !run_loop
                }
            },
            (
                StartState::Applying(given, in_use),
                StartEvent::Applied { initiated_close: false },
            ) => {
                &&& next.0 == StartState::Announcing(given)
                &&& next.1 == StartAction::<H>::Announce(
                    WebSocketNetworkEvent::ConnectionEstablished { protocol_in_use: in_use },
                )
            },
            (StartState::Applying(given, _), StartEvent::Applied { initiated_close: true }) => {
                &&& next.0 is Finished
                &&& next.1 == (StartAction::<H>::Return { result: Ok(given), run_loop: true })
            },
            (StartState::Announcing(given), StartEvent::Announced { .. }) => {
                &&& next.0 is Finished
                &&& next.1 == (StartAction::<H>::Return { result: Ok(given), run_loop: true })
            },
            _ => true,
        },
{
    match (state, event) {
        (StartState::Connecting, StartEvent::Answered(Ok(handshake))) => (
            StartState::Upgrading(handshake),
            StartAction::Upgrade,
        ),
        (_, StartEvent::Answered(Err(error))) => (
            StartState::Finished,
            StartAction::Return { result: Err(WsStartError::from(error)), run_loop: false },
        ),
        (_, StartEvent::Upgraded(Err(error), _)) => (
            StartState::Finished,
            StartAction::Return { result: Err(WsStartError::from(error)), run_loop: false },
        ),
        (StartState::Upgrading(handshake), StartEvent::Upgraded(Ok(_), valid)) => {
            match process_ws_response(&handshake.headers, protocols, &valid) {
                Ok(response) => (
                    StartState::Applying(handshake, response.protocol_in_use),
                    StartAction::Apply(response.actions),
                ),
                Err(error) => (
                    StartState::Finished,
                    StartAction::Return {
                        result: Err(WsStartError::Protocol(error)),
                        run_loop: false,
                    },
                ),
            }
        },
        (
            StartState::Applying(handshake, protocol_in_use),
            StartEvent::Applied { initiated_close },
        ) => {
            if initiated_close {
                // The page is not told of a connection that it no longer wants,
                // but the loop has yet to take its close to the wire.
                (
                    StartState::Finished,
                    StartAction::Return { result: Ok(handshake), run_loop: true },
                )
            } else {
                (
                    StartState::Announcing(handshake),
                    StartAction::Announce(
                        WebSocketNetworkEvent::ConnectionEstablished { protocol_in_use },
                    ),
                )
            }
        },
        (StartState::Announcing(handshake), StartEvent::Announced { .. }) => (
            StartState::Finished,
            StartAction::Return { result: Ok(handshake), run_loop: true },
        ),
        _ => vstd::pervasive::unreached(),
    }
}

/// The phase that `events` bring a start to.
pub open spec fn phase_after<H>(events: Seq<StartFact<H>>, protocols: Seq<Seq<char>>) -> Phase
    decreases events.len(),
{
    if events.len() == 0 {
        Phase::Connecting
    } else {
        start_transition(
            phase_after(events.drop_last(), protocols),
            events.last(),
            protocols,
        ).0
    }
}

/// What the last of `events` leads to.
pub open spec fn last_effect<H>(
    events: Seq<StartFact<H>>,
    protocols: Seq<Seq<char>>,
) -> StartEffect<H> {
    start_transition(phase_after(events.drop_last(), protocols), events.last(), protocols).1
}

/// Whether `events` is what may happen to one start, from its beginning on.
pub open spec fn is_start<H>(events: Seq<StartFact<H>>, protocols: Seq<Seq<char>>) -> bool
    decreases events.len(),
{
    events.len() == 0 || {
        &&& is_start(events.drop_last(), protocols)
        &&& start_awaits(phase_after(events.drop_last(), protocols), events.last())
    }
}

/// What has happened by the time a start has come to a phase.
proof fn lemma_phase_tells_events<H>(events: Seq<StartFact<H>>, protocols: Seq<Seq<char>>)
    requires
        is_start(events, protocols),
    ensures
        match phase_after(events, protocols) {
            Phase::Connecting => events.len() == 0,
            Phase::Upgrading(answer) => events.len() == 1 && events[0] == StartFact::<H>::Answered(
                Ok(answer),
            ),
            Phase::Applying(answer, selected) => {
                &&& events.len() == 2
                &&& events[0] == StartFact::<H>::Answered(Ok(answer))
                &&& events[1] matches StartFact::Upgraded(Ok(_), _)
                &&& selected == selected_protocol(answer.fields)
                &&& protocol_is_acceptable(selected, protocols)
            },
            Phase::Announcing(answer) => {
                &&& events.len() == 3
                &&& events[0] == StartFact::<H>::Answered(Ok(answer))
                &&& events[1] matches StartFact::Upgraded(Ok(_), _)
                &&& protocol_is_acceptable(selected_protocol(answer.fields), protocols)
                &&& events[2] == (StartFact::<H>::Applied { initiated_close: false })
            },
            Phase::Finished => 1 <= events.len() <= 4,
        },
    decreases events.len(),
{
    if events.len() > 0 {
        lemma_phase_tells_events(events.drop_last(), protocols);
    }
}

/// A start is over after at most four events, and nothing happens to it once
/// it is.
pub proof fn law_start_ends<H>(
    events: Seq<StartFact<H>>,
    protocols: Seq<Seq<char>>,
    next: StartFact<H>,
)
    requires
        is_start(events, protocols),
    ensures
        events.len() <= 4,
        phase_after(events, protocols) is Finished ==> !is_start(events.push(next), protocols),
{
    lemma_phase_tells_events(events, protocols);
    assert(events.push(next).drop_last() =~= events);
}

/// Cookies and the HSTS list are touched only on account of an answer whose
/// upgrade the transport has validated and whose subprotocol is acceptable.
pub proof fn law_nothing_is_applied_before_validation<H>(
    events: Seq<StartFact<H>>,
    protocols: Seq<Seq<char>>,
)
    requires
        is_start(events, protocols),
        events.len() > 0,
        last_effect(events, protocols) is Apply,
    ensures
        events.len() == 2,
        events[1] matches StartFact::Upgraded(Ok(_), _),
        events[0] matches StartFact::Answered(Ok(answer)) && protocol_is_acceptable(
            selected_protocol(answer.fields),
            protocols,
        ),
{
    lemma_phase_tells_events(events.drop_last(), protocols);
}

/// A start that fails has touched neither the cookies nor the HSTS list, has
/// told the page nothing, and runs no loop.
pub proof fn law_failure_leaves_no_trace<H>(
    events: Seq<StartFact<H>>,
    protocols: Seq<Seq<char>>,
    n: int,
)
    requires
        is_start(events, protocols),
        events.len() > 0,
        last_effect(events, protocols) matches StartEffect::Return { result: Err(_), .. },
        0 < n <= events.len(),
    ensures
        last_effect(events, protocols) matches StartEffect::Return { run_loop: false, .. },
        !(last_effect(events.take(n), protocols) is Apply),
        !(last_effect(events.take(n), protocols) is Announce),
{
    lemma_phase_tells_events(events.drop_last(), protocols);
    if n == events.len() {
        assert(events.take(n) =~= events);
    } else {
        assert(events.len() == 2 && n == 1);
        assert(events.take(1) =~= events.drop_last());
        assert(events.drop_last().drop_last() =~= Seq::empty());
    }
}

/// The message loop runs exactly if the start succeeds.
pub proof fn law_loop_runs_exactly_on_success<H>(
    events: Seq<StartFact<H>>,
    protocols: Seq<Seq<char>>,
)
    requires
        is_start(events, protocols),
        events.len() > 0,
    ensures
        last_effect(events, protocols) matches StartEffect::Return { result, run_loop } ==> run_loop
            == (result is Ok),
        phase_after(events, protocols) is Finished <==> last_effect(events, protocols) is Return,
{
    lemma_phase_tells_events(events.drop_last(), protocols);
}

/// Where a start succeeds, the page was told that its connection is
/// established, with the subprotocol that the server selected; or else it had
/// asked for a close before that.
pub proof fn law_success_is_announced<H>(events: Seq<StartFact<H>>, protocols: Seq<Seq<char>>)
    requires
        is_start(events, protocols),
        events.len() > 0,
        last_effect(events, protocols) matches StartEffect::Return { result: Ok(_), .. },
    ensures
        events[0] matches StartFact::Answered(Ok(answer)) && {
            ||| {
                &&& events.len() == 3
                &&& events[2] == (StartFact::<H>::Applied { initiated_close: true })
            }
            ||| {
                &&& events.len() == 4
                &&& events[2] == (StartFact::<H>::Applied { initiated_close: false })
                &&& last_effect(events.drop_last(), protocols) == StartEffect::<H>::Announce(
                    Notice::ConnectionEstablished(selected_protocol(answer.fields)),
                )
            }
        },
        events[1] matches StartFact::Upgraded(Ok(_), _),
{
    lemma_phase_tells_events(events.drop_last(), protocols);
    assert(is_start(events.drop_last(), protocols));
    if events.len() == 4 {
        lemma_phase_tells_events(events.drop_last().drop_last(), protocols);
    }
}

/// A page that has asked for a close by the time its connection is ready is
/// told nothing: the start succeeds with the server's answer, and runs the loop
/// for the close to be sent.
pub proof fn law_closing_page_is_told_nothing<H>(
    events: Seq<StartFact<H>>,
    protocols: Seq<Seq<char>>,
    n: int,
)
    requires
        is_start(events, protocols),
        events.len() > 0,
        events.last() == (StartFact::<H>::Applied { initiated_close: true }),
        0 < n <= events.len(),
    ensures
        events[0] matches StartFact::Answered(Ok(answer)) && last_effect(events, protocols) == (
        StartEffect::<H>::Return { result: Ok(answer), run_loop: true }),
        phase_after(events, protocols) is Finished,
        !(last_effect(events.take(n), protocols) is Announce),
{
    lemma_phase_tells_events(events.drop_last(), protocols);
    assert(is_start(events.drop_last(), protocols));
    if n == 3 {
        assert(events.take(n) =~= events);
    } else if n == 2 {
        assert(events.take(n) =~= events.drop_last());
        lemma_phase_tells_events(events.drop_last().drop_last(), protocols);
    } else {
        assert(events.take(n) =~= events.drop_last().drop_last());
        assert(events.take(n).drop_last() =~= Seq::empty());
    }
}

/// A close that the page asks for during the handshake reaches the wire: the
/// listener has forwarded it, with its code and reason, the start runs the loop,
/// and the loop sends it.
pub proof fn law_early_close_reaches_the_wire<H>(
    actions: Seq<Action>,
    first: int,
    code: Option<u16>,
    reason: Option<Seq<char>>,
    events: Seq<StartFact<H>>,
    protocols: Seq<Seq<char>>,
)
    requires
        0 <= first < actions.len(),
        actions[first] == Action::Close(code, reason),
        forall|k: int| 0 <= k < first ==> !((#[trigger] actions[k]) is Close),
        is_start(events, protocols),
        events.len() > 0,
        events.last() == (StartFact::<H>::Applied {
            initiated_close: closing_after(false, actions),
        }),
    ensures
        last_effect(events, protocols) matches StartEffect::Return { run_loop: true, .. },
        forwarded(false, actions).contains(Demand::Close(close_frame(code, reason))),
        awaited(
            LoopState::Listening,
            Event::Dom(Some(Demand::Close(close_frame(code, reason)))),
        ),
        transition(Event::Dom(Some(Demand::Close(close_frame(code, reason))))).1 == Effect::Send(
            Content::Close(close_frame(code, reason)),
        ),
{
    law_first_close_is_forwarded(actions, first, code, reason);
    lemma_phase_tells_events(events.drop_last(), protocols);
}

/// A start that succeeds returns the server's answer as it came.
pub proof fn law_answer_is_returned_as_it_came<H>(
    events: Seq<StartFact<H>>,
    protocols: Seq<Seq<char>>,
    answer: Answer,
)
    requires
        is_start(events, protocols),
        events.len() > 0,
        last_effect(events, protocols) matches StartEffect::Return { result: Ok(returned), .. }
            && returned == answer,
    ensures
        events[0] == StartFact::<H>::Answered(Ok(answer)),
{
    lemma_phase_tells_events(events.drop_last(), protocols);
}

/// Once an upgrade is accepted, an answer that selects no subprotocol, or one of
/// those offered, is applied in full: each of its `Set-Cookie` values that the
/// jar finds valid and that is UTF-8 is stored, once and in order, and the HSTS
/// list is updated after that. Any other answer ends the start with an error, and
/// nothing is applied.
pub proof fn law_accepted_answer_is_applied_in_full<H>(
    events: Seq<StartFact<H>>,
    protocols: Seq<Seq<char>>,
    answer: Answer,
    valid: Seq<bool>,
)
    requires
        is_start(events, protocols),
        events.len() == 2,
        events[0] == StartFact::<H>::Answered(Ok(answer)),
        events[1] == StartFact::<H>::Upgraded(Ok(()), valid),
    ensures
        ({
            let selections = values_of(answer.fields, "sec-websocket-protocol"@);
            let cookies = values_of(answer.fields, "set-cookie"@);
            let readable = forall|j: int|
                0 <= j < selections[0].0.len() ==> is_visible_byte(#[trigger] selections[0].0[j]);
            let name = if readable {
                decode_utf8(selections[0].0)
            } else {
                Seq::empty()
            };
            if selections.len() == 0 || exists|i: int|
                0 <= i < protocols.len() && #[trigger] protocols[i] == name {
                &&& phase_after(events, protocols) == Phase::Applying(
                    answer,
                    if selections.len() == 0 {
                        None
                    } else {
                        Some(name)
                    },
                )
                &&& last_effect(events, protocols) matches StartEffect::Apply(applied)
                &&& exists|from: Seq<int>|
                    {
                        &&& applied.len() == #[trigger] from.len() + 1
                        &&& applied.last() == ResponseEffect::UpdateHsts
                        &&& forall|k: int|
                            0 <= k < from.len() ==> {
                                &&& 0 <= #[trigger] from[k] < cookies.len()
                                &&& from[k] < valid.len() && valid[from[k]]
                                &&& valid_utf8(cookies[from[k]].0)
                                &&& applied[k] == ResponseEffect::SetCookie(
                                    decode_utf8(cookies[from[k]].0),
                                )
                            }
                        &&& forall|k: int, l: int|
                            0 <= k < l < from.len() ==> #[trigger] from[k] < #[trigger] from[l]
                        &&& forall|i: int|
                            0 <= i < cookies.len() && i < valid.len() && #[trigger] valid[i]
                                && valid_utf8(cookies[i].0) ==> from.contains(i)
                    }
            } else {
                &&& phase_after(events, protocols) is Finished
                &&& last_effect(events, protocols) == (StartEffect::<H>::Return {
                    result: Err(
                        StartFault::Protocol(Fault::InvalidHeader("sec-websocket-protocol"@)),
                    ),
                    run_loop: false,
                })
            }
        }),
{
    lemma_phase_tells_events(events.drop_last(), protocols);
    assert(events.drop_last().drop_last() =~= Seq::empty());
    assert(phase_after(events.drop_last(), protocols) == Phase::Upgrading(answer));
    let values = set_cookies(answer.fields);
    law_response_stores_exactly_the_valid_cookies(values, valid);
    let cookies = values_of(answer.fields, "set-cookie"@);
    assert(values.len() == cookies.len());
    assert(forall|i: int| 0 <= i < values.len() ==> #[trigger] values[i] == cookies[i].0);
}

/// What each event leads to, in terms of the answer that the start is about.
pub proof fn law_what_each_event_leads_to<H>(
    answer: Answer,
    selected: Option<Seq<char>>,
    error: H,
    valid: Seq<bool>,
    delivered: bool,
    protocols: Seq<Seq<char>>,
)
    ensures
        start_transition(Phase::Connecting, StartFact::<H>::Answered(Ok(answer)), protocols) == (
            Phase::Upgrading(answer),
            StartEffect::<H>::Upgrade,
        ),
        start_transition(Phase::Connecting, StartFact::Answered(Err(error)), protocols) == (
            Phase::Finished,
            StartEffect::Return { result: Err(StartFault::Handshake(error)), run_loop: false },
        ),
        start_transition(
            Phase::Upgrading(answer),
            StartFact::Upgraded(Err(error), valid),
            protocols,
        ) == (
            Phase::Finished,
            StartEffect::Return { result: Err(StartFault::Handshake(error)), run_loop: false },
        ),
        start_transition(
            Phase::Applying(answer, selected),
            StartFact::<H>::Applied { initiated_close: false },
            protocols,
        ) == (
            Phase::Announcing(answer),
            StartEffect::<H>::Announce(Notice::ConnectionEstablished(selected)),
        ),
        start_transition(
            Phase::Applying(answer, selected),
            StartFact::<H>::Applied { initiated_close: true },
            protocols,
        ) == (Phase::Finished, StartEffect::<H>::Return { result: Ok(answer), run_loop: true }),
        start_transition(
            Phase::Announcing(answer),
            StartFact::<H>::Announced { delivered },
            protocols,
        ) == (Phase::Finished, StartEffect::<H>::Return { result: Ok(answer), run_loop: true }),
{
}

/// What a start waits for in each phase: one kind of event, and nothing once it
/// is over.
pub proof fn law_what_a_start_waits_for<H>(
    event: StartFact<H>,
    answer: Answer,
    selected: Option<Seq<char>>,
)
    ensures
        start_awaits(Phase::Connecting, event) <==> event is Answered,
        start_awaits(Phase::Upgrading(answer), event) <==> event is Upgraded,
        start_awaits(Phase::Applying(answer, selected), event) <==> event is Applied,
        start_awaits(Phase::Announcing(answer), event) <==> event is Announced,
        !start_awaits(Phase::Finished, event),
{
}

/// A start begins with nothing known, and goes on with an event exactly if it
/// waits for it.
pub proof fn law_starts_grow_event_by_event<H>(
    events: Seq<StartFact<H>>,
    next: StartFact<H>,
    protocols: Seq<Seq<char>>,
)
    ensures
        phase_after(Seq::<StartFact<H>>::empty(), protocols) == Phase::Connecting,
        is_start(Seq::<StartFact<H>>::empty(), protocols),
        phase_after(events.push(next), protocols) == start_transition(
            phase_after(events, protocols),
            next,
            protocols,
        ).0,
        last_effect(events.push(next), protocols) == start_transition(
            phase_after(events, protocols),
            next,
            protocols,
        ).1,
        is_start(events.push(next), protocols) <==> is_start(events, protocols) && start_awaits(
            phase_after(events, protocols),
            next,
        ),
{
    assert(events.push(next).drop_last() =~= events);
}

/// The plan of a handshake asks for the original URL with a `GET`, with the
/// request's headers and no redirects; only where the page asked for `ws` and the
/// request has come to `https` is the URL changed to `wss`.
pub proof fn law_plan_by_its_parts(
    plan: HandshakePlan,
    original_url: ServoUrl,
    url: ServoUrl,
    headers: HeaderMap<HeaderValue>,
)
    ensures
        is_plan_for(plan, original_url, url, headers) <==> {
            &&& plan.method@ == "GET"@
            &&& plan.headers == headers
            &&& !plan.follow_redirects
            &&& scheme_in(original_url@) == "ws"@ && scheme_in(url@) == "https"@ ==> plan.url@
                == secured(original_url@)
            &&& scheme_in(original_url@) != "ws"@ || scheme_in(url@) != "https"@ ==> plan.url@
                == original_url@
        },
{
}

/// The text of a repaired URL: the scheme is replaced, the port 443 is dropped,
/// and all else is as it was, whatever follows the authority.
pub proof fn law_repaired_text(authority: Seq<char>, tail: Seq<char>)
    requires
        forall|j: int|
            0 <= j < authority.len() ==> #[trigger] authority[j] != '/' && authority[j] != '?'
                && authority[j] != '#',
        tail.len() > 0 ==> tail[0] == '/' || tail[0] == '?' || tail[0] == '#',
    ensures
        secured("ws://"@ + authority + ":443"@ + tail) == "wss://"@ + authority + tail,
        !":443"@.is_suffix_of(authority) ==> secured("ws://"@ + authority + tail) == "wss://"@
            + authority + tail,
{
    reveal_strlit("ws://");
    reveal_strlit("wss://");
    reveal_strlit("wss");
    reveal_strlit(":443");
    let stops = seq!['/', '?', '#'];
    let marks = seq![':', '/', '/'];
    let port = seq![':', '4', '4', '3'];
    assert(stops[0] == '/' && stops[1] == '?' && stops[2] == '#');
    assert(":443"@ =~= port);
    let ported = "ws://"@ + authority + ":443"@ + tail;
    let long = authority + port;
    assert(ported =~= seq!['w', 's'] + marks + long + tail);
    assert forall|j: int| 0 <= j < long.len() implies !stops.contains(#[trigger] long[j]) by {
        if j < authority.len() {
            assert(long[j] == authority[j]);
        } else {
            assert(long[j] == port[j - authority.len()]);
        }
    }
    lemma_parts(ported, seq!['w', 's'], long, tail);
    assert(port.is_suffix_of(long));
    assert(secured(ported) =~= "wss://"@ + authority + tail);
    if !":443"@.is_suffix_of(authority) {
        let plain = "ws://"@ + authority + tail;
        assert(plain =~= seq!['w', 's'] + marks + authority + tail);
        lemma_parts(plain, seq!['w', 's'], authority, tail);
        assert(secured(plain) =~= "wss://"@ + authority + tail);
    }
}

/// States, events and actions of a start say just what they hold.
pub proof fn law_start_values_say_what_they_hold<H>(
    handshake: WsHandshake,
    name: String,
    error: H,
    fault: Error,
    valid: Vec<bool>,
    actions: Vec<ResponseAction>,
    event: WebSocketNetworkEvent,
    flag: bool,
)
    ensures
        handshake@.status == handshake.status,
        handshake@.fields == fields(handshake.headers),
        WsStartError::Handshake(error)@ == StartFault::Handshake(error),
        WsStartError::<H>::Protocol(fault)@ == StartFault::<H>::Protocol(fault@),
        StartState::Connecting@ == Phase::Connecting,
        StartState::Upgrading(handshake)@ == Phase::Upgrading(handshake@),
        StartState::Applying(handshake, Some(name))@ == Phase::Applying(handshake@, Some(name@)),
        StartState::Applying(handshake, None)@ == Phase::Applying(handshake@, None),
        StartState::Announcing(handshake)@ == Phase::Announcing(handshake@),
        StartState::Finished@ == Phase::Finished,
        StartEvent::<H>::Answered(Ok(handshake))@ == StartFact::<H>::Answered(Ok(handshake@)),
        StartEvent::Answered(Err(error))@ == StartFact::Answered(Err(error)),
        StartEvent::<H>::Upgraded(Ok(()), valid)@ == StartFact::<H>::Upgraded(Ok(()), valid@),
        StartEvent::Upgraded(Err(error), valid)@ == StartFact::Upgraded(Err(error), valid@),
        (StartEvent::<H>::Applied { initiated_close: flag })@ == (StartFact::<H>::Applied {
            initiated_close: flag,
        }),
        (StartEvent::<H>::Announced { delivered: flag })@ == (StartFact::<H>::Announced {
            delivered: flag,
        }),
        StartAction::<H>::Upgrade@ == StartEffect::<H>::Upgrade,
        StartAction::<H>::Apply(actions)@ matches StartEffect::Apply(applied) && applied.len()
            == actions@.len() && forall|k: int|
            0 <= k < applied.len() ==> #[trigger] applied[k] == actions@[k]@,
        StartAction::<H>::Announce(event)@ == StartEffect::<H>::Announce(event@),
        (StartAction::<H>::Return { result: Ok(handshake), run_loop: flag })@ == (
        StartEffect::<H>::Return { result: Ok(handshake@), run_loop: flag }),
        (StartAction::Return { result: Err(WsStartError::Handshake(error)), run_loop: flag })@ == (
        StartEffect::Return { result: Err(StartFault::Handshake(error)), run_loop: flag }),
        (StartAction::<H>::Return { result: Err(WsStartError::Protocol(fault)), run_loop: flag })@
            == (StartEffect::<H>::Return {
            result: Err(StartFault::Protocol(fault@)),
            run_loop: flag,
        }),
{
}

} // verus!
