//! The loop that serves an open connection: it takes what the page demands to
//! the wire, and what comes from the wire to the page, until one side closes
//! the connection or an error occurs.
//!
//! The loop alternates with work done elsewhere. It is told what happened, and
//! says what is to be done and what it waits for next.

use vstd::prelude::*;

use crate::foreign::payload::{contents, payload_from_string};
use crate::websocket_loader::dom_listener::{
    forwarded, forwarded_for, law_only_data_is_forwarded, Action, Demand, DomMsg,
};
use crate::ws_map::{
    data_in, dom_to_wreq, utf8_to_wreq, wreq_to_message_data, Content, Data, MessageData,
    WireCloseFrame, WireMessage,
};

verus! {

/// What the page is told about its connection.
#[derive(Debug)]
pub enum WebSocketNetworkEvent {
    /// The handshake succeeded, with the subprotocol that was selected.
    ConnectionEstablished { protocol_in_use: Option<String> },
    /// A message arrived.
    MessageReceived(MessageData),
    /// The connection was closed, with the code and the reason as far as given.
    Close(Option<u16>, String),
    /// The connection failed.
    Fail,
}

/// A [`WebSocketNetworkEvent`], in terms of what it says.
pub enum Notice {
    ConnectionEstablished(Option<Seq<char>>),
    MessageReceived(Data),
    Close(Option<u16>, Seq<char>),
    Fail,
}

impl View for WebSocketNetworkEvent {
    type V = Notice;

    open spec fn view(&self) -> Notice {
        match self {
            WebSocketNetworkEvent::ConnectionEstablished {
                protocol_in_use,
            } => Notice::ConnectionEstablished(
                match protocol_in_use {
                    Some(name) => Some(name@),
                    None => None,
                },
            ),
            WebSocketNetworkEvent::MessageReceived(data) => Notice::MessageReceived(data@),
            WebSocketNetworkEvent::Close(code, reason) => Notice::Close(*code, reason@),
            WebSocketNetworkEvent::Fail => Notice::Fail,
        }
    }
}

/// What the stream of incoming messages yields.
#[derive(Debug)]
pub enum Incoming {
    Message(WireMessage),
    /// The stream reports an error.
    Error,
    /// The stream ends.
    End,
}

/// What the loop is told.
#[derive(Debug)]
pub enum LoopEvent {
    /// The page demands something; `None` once it can demand nothing more.
    Dom(Option<DomMsg>),
    /// The stream of incoming messages yields something.
    Network(Incoming),
    /// The message last given to the wire was sent, or could not be.
    Sent(bool),
    /// The notice last given to the page was delivered, or could not be.
    Delivered(bool),
}

/// A [`LoopEvent`], in terms of what it says.
pub enum Event {
    Dom(Option<Demand>),
    Network(Arrival),
    Sent(bool),
    Delivered(bool),
}

/// An [`Incoming`], in terms of what it says.
pub enum Arrival {
    Message(Content),
    Error,
    End,
}

impl View for Incoming {
    type V = Arrival;

    open spec fn view(&self) -> Arrival {
        match self {
            Incoming::Message(message) => Arrival::Message(message@),
            Incoming::Error => Arrival::Error,
            Incoming::End => Arrival::End,
        }
    }
}

impl View for LoopEvent {
    type V = Event;

    open spec fn view(&self) -> Event {
        match self {
            LoopEvent::Dom(message) => Event::Dom(
                match message {
                    Some(message) => Some(message@),
                    None => None,
                },
            ),
            LoopEvent::Network(incoming) => Event::Network(incoming@),
            LoopEvent::Sent(sent) => Event::Sent(*sent),
            LoopEvent::Delivered(delivered) => Event::Delivered(*delivered),
        }
    }
}

/// What the loop asks to be done.
#[derive(Debug)]
pub enum LoopAction {
    /// Nothing.
    Nothing,
    /// Send this message.
    Send(WireMessage),
    /// Tell the page.
    Notify(WebSocketNetworkEvent),
}

/// A [`LoopAction`], in terms of what it says.
pub enum Effect {
    Nothing,
    Send(Content),
    Notify(Notice),
}

impl View for LoopAction {
    type V = Effect;

    open spec fn view(&self) -> Effect {
        match self {
            LoopAction::Nothing => Effect::Nothing,
            LoopAction::Send(message) => Effect::Send(message@),
            LoopAction::Notify(event) => Effect::Notify(event@),
        }
    }
}

/// What the loop waits for.
#[derive(Debug, Clone, Copy, PartialEq, Eq, Structural)]
pub enum LoopState {
    /// For the page or the wire, whichever comes first.
    Listening,
    /// For a message to be sent.
    Sending,
    /// For a notice of data to be delivered.
    Delivering,
    /// For nothing: the loop is over.
    Stopped,
}

/// Whether an event may happen in a state. The page's messages are never raw
/// frames.
pub open spec fn awaited(state: LoopState, event: Event) -> bool {
    match event {
        Event::Dom(demand) => state == LoopState::Listening && !(demand matches Some(
            Demand::Send(Content::Frame(_)),
        )),
        Event::Network(_) => state == LoopState::Listening,
        Event::Sent(_) => state == LoopState::Sending,
        Event::Delivered(_) => state == LoopState::Delivering,
    }
}

/// The message on the wire that meets a demand of the page.
pub open spec fn wire_content(demand: Demand) -> Content {
    match demand {
        Demand::Send(message) => message,
        Demand::Close(frame) => Content::Close(frame),
    }
}

/// The notice of a close with this frame.
pub open spec fn close_notice(frame: Option<(u16, Seq<char>)>) -> Notice {
    match frame {
        Some((code, reason)) => Notice::Close(Some(code), reason),
        None => Notice::Close(None, Seq::empty()),
    }
}

/// What an event leads to: the next state, and what is to be done.
pub open spec fn transition(event: Event) -> (LoopState, Effect) {
    match event {
        Event::Dom(Some(demand)) => (LoopState::Sending, Effect::Send(wire_content(demand))),
        Event::Dom(None) => (LoopState::Stopped, Effect::Nothing),
        Event::Network(Arrival::Message(Content::Close(frame))) => (
            LoopState::Stopped,
            Effect::Notify(close_notice(frame)),
        ),
        Event::Network(Arrival::Message(message)) => match data_in(message) {
            Some(data) => (
                LoopState::Delivering,
                Effect::Notify(Notice::MessageReceived(data)),
            ),
            None => (LoopState::Listening, Effect::Nothing),
        },
        Event::Network(Arrival::Error) => (LoopState::Stopped, Effect::Notify(Notice::Fail)),
        Event::Network(Arrival::End) => (LoopState::Stopped, Effect::Notify(Notice::Fail)),
        Event::Sent(_) => (LoopState::Listening, Effect::Nothing),
        Event::Delivered(true) => (LoopState::Listening, Effect::Nothing),
        Event::Delivered(false) => (LoopState::Stopped, Effect::Nothing),
    }
}

/// The message loop of one connection.
#[derive(Debug)]
pub struct WsLoop {
    pub state: LoopState,
}

impl WsLoop {
    /// A loop that is about to start listening.
    pub fn new() -> (ws_loop: WsLoop)
        ensures
            ws_loop.state == LoopState::Listening,
    {
        WsLoop { state: LoopState::Listening }
    }

    /// Takes note of an event, and returns what is to be done about it.
    pub fn step(&mut self, event: LoopEvent) -> (action: LoopAction)
        requires
            awaited(old(self).state, event@),
        ensures
            (final(self).state, action@) == transition(event@),
            match event {
                LoopEvent::Dom(Some(DomMsg::Send(given))) => {
                    &&& final(self).state == LoopState::Sending
                    &&& action matches LoopAction::Send(message)
                    &&& message@ == given@
                },
                LoopEvent::Dom(Some(DomMsg::Close(None))) => {
                    &&& final(self).state == LoopState::Sending
                    &&& action == LoopAction::Send(WireMessage::Close(None))
                },
                LoopEvent::Dom(Some(DomMsg::Close(Some(given)))) => {
                    &&& final(self).state == LoopState::Sending
                    &&& action matches LoopAction::Send(WireMessage::Close(Some(frame)))
                    &&& frame.code == given.0
                    &&& frame.reason@ == given.1@
                },
                LoopEvent::Dom(None) => {
                    &&& final(self).state == LoopState::Stopped
                    &&& action is Nothing
                },
                LoopEvent::Network(Incoming::Message(WireMessage::Text(given))) => {
                    &&& final(self).state == LoopState::Delivering
                    &&& action matches LoopAction::Notify(
                        WebSocketNetworkEvent::MessageReceived(MessageData::Text(text)),
                    )
                    &&& text@ == given@
                },
                LoopEvent::Network(Incoming::Message(WireMessage::Binary(given))) => {
                    &&& final(self).state == LoopState::Delivering
                    &&& action matches LoopAction::Notify(
                        WebSocketNetworkEvent::MessageReceived(MessageData::Binary(data)),
                    )
                    &&& data@ == contents(given)
                },
                LoopEvent::Network(Incoming::Message(WireMessage::Ping(_))) => {
                    &&& final(self).state == LoopState::Listening
                    &&& action is Nothing
                },
                LoopEvent::Network(Incoming::Message(WireMessage::Pong(_))) => {
                    &&& final(self).state == LoopState::Listening
                    &&& action is Nothing
                },
                LoopEvent::Network(Incoming::Message(WireMessage::Close(None))) => {
                    &&& final(self).state == LoopState::Stopped
                    &&& action matches LoopAction::Notify(WebSocketNetworkEvent::Close(None, said))
                    &&& said@.len() == 0
                },
                LoopEvent::Network(Incoming::Message(WireMessage::Close(Some(frame)))) => {
                    &&& final(self).state == LoopState::Stopped
                    &&& action matches LoopAction::Notify(
                        WebSocketNetworkEvent::Close(Some(code), said),
                    )
                    &&& code == frame.code
                    &&& said@ == frame.reason@
                },
                LoopEvent::Network(Incoming::Error) | LoopEvent::Network(Incoming::End) => {
                    &&& final(self).state == LoopState::Stopped
                    &&& action == LoopAction::Notify(WebSocketNetworkEvent::Fail)
                },
                LoopEvent::Sent(_) => {
                    &&& final(self).state == LoopState::Listening
                    &&& action is Nothing
                },
                LoopEvent::Delivered(delivered) => {
                    &&& final(self).state == if delivered {
                        LoopState::Listening
                    } else {
                        LoopState::Stopped
                    }
                    &&& action is Nothing
                },
            },
    {
        match event {
            LoopEvent::Dom(Some(message)) => {
                self.state = LoopState::Sending;
                LoopAction::Send(wire_message(message))
            },
            LoopEvent::Dom(None) => {
                self.state = LoopState::Stopped;
                LoopAction::Nothing
            },
            LoopEvent::Network(Incoming::Message(message)) => self.on_message(message),
            LoopEvent::Network(Incoming::Error) | LoopEvent::Network(Incoming::End) => {
                self.state = LoopState::Stopped;
                LoopAction::Notify(WebSocketNetworkEvent::Fail)
            },
            LoopEvent::Sent(_) => {
                // A message that cannot be sent is no reason to stop: the
                // stream will report the connection's failure itself.
                self.state = LoopState::Listening;
                LoopAction::Nothing
            },
            LoopEvent::Delivered(delivered) => {
                self.state = if delivered {
                    LoopState::Listening
                } else {
                    LoopState::Stopped
                };
                LoopAction::Nothing
            },
        }
    }

    /// Takes note of a message that arrived.
    fn on_message(&mut self, message: WireMessage) -> (action: LoopAction)
        ensures
            (final(self).state, action@) == transition(
                Event::Network(Arrival::Message(message@)),
            ),
    {
        match message {
            WireMessage::Close(frame) => {
                self.state = LoopState::Stopped;
                let (code, reason) = match frame {
                    Some(frame) => (Some(frame.code), frame.reason.to_text()),
                    None => (None, String::new()),
                };
                LoopAction::Notify(WebSocketNetworkEvent::Close(code, reason))
            },
            other => match wreq_to_message_data(other) {
                Some(data) => {
                    self.state = LoopState::Delivering;
                    LoopAction::Notify(WebSocketNetworkEvent::MessageReceived(data))
                },
                None => {
                    self.state = LoopState::Listening;
                    LoopAction::Nothing
                },
            },
        }
    }
}

/// The message on the wire that meets a demand of the page. A close goes out
/// like any other message, so that the loop keeps running to receive the
/// server's echo.
fn wire_message(message: DomMsg) -> (wire: WireMessage)
    requires
        !(message@ matches Demand::Send(Content::Frame(_))),
    ensures
        wire@ == wire_content(message@),
{
    match message {
        DomMsg::Send(message) => dom_to_wreq(message),
        DomMsg::Close(Some((code, reason))) => WireMessage::Close(
            Some(WireCloseFrame { code, reason: utf8_to_wreq(payload_from_string(reason)) }),
        ),
        DomMsg::Close(None) => WireMessage::Close(None),
    }
}

/// The state in which the event at index `i` of a run finds the loop.
pub open spec fn state_before(events: Seq<Event>, i: int) -> LoopState {
    if i == 0 {
        LoopState::Listening
    } else {
        transition(events[i - 1]).0
    }
}

/// Whether `events` is what may happen to one loop, from its start on.
pub open spec fn is_run(events: Seq<Event>) -> bool {
    forall|i: int|
        0 <= i < events.len() ==> awaited(#[trigger] state_before(events, i), events[i])
}

/// What the page demands in the course of `events`, as messages on the wire.
pub open spec fn demanded(events: Seq<Event>) -> Seq<Content> {
    events.filter_map(
        |event: Event|
            match event {
                Event::Dom(Some(demand)) => Some(wire_content(demand)),
                _ => None,
            },
    )
}

/// What the loop sends in the course of `events`.
pub open spec fn sent(events: Seq<Event>) -> Seq<Content> {
    events.filter_map(
        |event: Event|
            match transition(event).1 {
                Effect::Send(message) => Some(message),
                _ => None,
            },
    )
}

/// The data that arrives in the course of `events`.
pub open spec fn arrived(events: Seq<Event>) -> Seq<Data> {
    events.filter_map(
        |event: Event|
            match event {
                Event::Network(Arrival::Message(message)) => data_in(message),
                _ => None,
            },
    )
}

/// The data that the loop notifies the page of in the course of `events`.
pub open spec fn surfaced(events: Seq<Event>) -> Seq<Data> {
    events.filter_map(
        |event: Event|
            match transition(event).1 {
                Effect::Notify(Notice::MessageReceived(data)) => Some(data),
                _ => None,
            },
    )
}

/// The loop stops on exactly these events: the page can demand nothing more;
/// the peer closes; the stream fails or ends; the page cannot be told of data.
pub proof fn law_what_stops_the_loop(event: Event)
    ensures
        transition(event).0 == LoopState::Stopped <==> {
            ||| event == Event::Dom(None)
            ||| event matches Event::Network(Arrival::Message(Content::Close(_)))
            ||| event == Event::Network(Arrival::Error)
            ||| event == Event::Network(Arrival::End)
            ||| event == Event::Delivered(false)
        },
{
}

/// Once the loop has stopped nothing happens to it any more.
pub proof fn law_stopping_is_final(events: Seq<Event>, i: int)
    requires
        is_run(events),
        0 <= i < events.len(),
        transition(events[i]).0 == LoopState::Stopped,
    ensures
        i == events.len() - 1,
{
    if i < events.len() - 1 {
        assert(awaited(state_before(events, i + 1), events[i + 1]));
    }
}

/// The page is told of the end of its connection at most once, by a close or a
/// failure, and of nothing after that. The loop never announces a connection.
pub proof fn law_last_notice_is_final(events: Seq<Event>, i: int)
    requires
        is_run(events),
        0 <= i < events.len(),
    ensures
        transition(events[i]).1 matches Effect::Notify(notice) ==> {
            &&& !(notice is ConnectionEstablished)
            &&& notice is Close || notice is Fail ==> i == events.len() - 1
        },
{
    if transition(events[i]).0 == LoopState::Stopped {
        law_stopping_is_final(events, i);
    }
}

/// The wire gets exactly what the page demands, in order.
pub proof fn law_wire_gets_what_the_page_demands(events: Seq<Event>)
    ensures
        sent(events) == demanded(events),
    decreases events.len(),
{
    if events.len() > 0 {
        law_wire_gets_what_the_page_demands(events.drop_last());
    }
}

/// The page is told of exactly the data that arrives, in order.
pub proof fn law_page_gets_what_arrives(events: Seq<Event>)
    ensures
        surfaced(events) == arrived(events),
    decreases events.len(),
{
    if events.len() > 0 {
        law_page_gets_what_arrives(events.drop_last());
    }
}

/// A close that the page demands does not stop the loop, whether it can be
/// sent or not: the loop listens on, and a peer that closes is reported.
pub proof fn law_own_close_keeps_listening(
    frame: Option<(u16, Seq<char>)>,
    was_sent: bool,
    echo: Option<(u16, Seq<char>)>,
)
    ensures
        transition(Event::Dom(Some(Demand::Close(frame)))) == (
            LoopState::Sending,
            Effect::Send(Content::Close(frame)),
        ),
        transition(Event::Sent(was_sent)) == (LoopState::Listening, Effect::Nothing),
        transition(Event::Network(Arrival::Message(Content::Close(echo)))) == (
            LoopState::Stopped,
            Effect::Notify(close_notice(echo)),
        ),
        is_run(
            seq![
                Event::Dom(Some(Demand::Close(frame))),
                Event::Sent(was_sent),
                Event::Network(Arrival::Message(Content::Close(echo))),
            ],
        ),
{
}

/// Whatever the page does, the loop can serve what the listener forwards.
pub proof fn law_forwarded_demands_can_be_served(closing: bool, actions: Seq<Action>, i: int)
    requires
        0 <= i < forwarded(closing, actions).len(),
    ensures
        awaited(LoopState::Listening, Event::Dom(Some(forwarded(closing, actions)[i]))),
{
    law_only_data_is_forwarded(closing, actions, i);
}

/// Data that the page sends reaches the wire, and a peer that echoes what it
/// got from there brings the page the same data.
pub proof fn law_sent_data_comes_back_from_an_echo(closing: bool, data: Data)
    ensures
        forwarded_for(closing, Action::Send(data)) matches Some(demand) && transition(
            Event::Dom(Some(demand)),
        ).1 matches Effect::Send(message) && transition(
            Event::Network(Arrival::Message(message)),
        ) == (LoopState::Delivering, Effect::Notify(Notice::MessageReceived(data))),
{
}

/// The page is told of a close with the very code and reason that arrived, and
/// of one without a frame with no code and the empty reason; either way the loop
/// is over.
pub proof fn law_close_is_reported_as_it_came(code: u16, reason: Seq<char>)
    ensures
        transition(Event::Network(Arrival::Message(Content::Close(Some((code, reason)))))) == (
            LoopState::Stopped,
            Effect::Notify(Notice::Close(Some(code), reason)),
        ),
        transition(Event::Network(Arrival::Message(Content::Close(None)))) == (
            LoopState::Stopped,
            Effect::Notify(Notice::Close(None, Seq::empty())),
        ),
{
}

/// A connection that fails, or ends without a close, is reported as a failure,
/// and the loop is over.
pub proof fn law_failure_is_reported()
    ensures
        transition(Event::Network(Arrival::Error)) == (
            LoopState::Stopped,
            Effect::Notify(Notice::Fail),
        ),
        transition(Event::Network(Arrival::End)) == (
            LoopState::Stopped,
            Effect::Notify(Notice::Fail),
        ),
{
}

/// The page is told of text and binary messages with the very characters and
/// bytes that arrived; other messages that do not close the connection change
/// nothing.
pub proof fn law_arriving_data_is_reported_as_it_came(text: Seq<char>, bytes: Seq<u8>)
    ensures
        transition(Event::Network(Arrival::Message(Content::Text(text)))) == (
            LoopState::Delivering,
            Effect::Notify(Notice::MessageReceived(Data::Text(text))),
        ),
        transition(Event::Network(Arrival::Message(Content::Binary(bytes)))) == (
            LoopState::Delivering,
            Effect::Notify(Notice::MessageReceived(Data::Binary(bytes))),
        ),
        transition(Event::Network(Arrival::Message(Content::Ping(bytes)))) == (
            LoopState::Listening,
            Effect::Nothing,
        ),
        transition(Event::Network(Arrival::Message(Content::Pong(bytes)))) == (
            LoopState::Listening,
            Effect::Nothing,
        ),
        transition(Event::Network(Arrival::Message(Content::Frame(bytes)))) == (
            LoopState::Listening,
            Effect::Nothing,
        ),
{
}

/// The wire gets the very message that the page demands to be sent, and a close
/// with the very code and reason that it demands, or with none.
pub proof fn law_demand_is_sent_as_it_is(message: Content, frame: Option<(u16, Seq<char>)>)
    ensures
        transition(Event::Dom(Some(Demand::Send(message)))) == (
            LoopState::Sending,
            Effect::Send(message),
        ),
        transition(Event::Dom(Some(Demand::Close(frame)))) == (
            LoopState::Sending,
            Effect::Send(Content::Close(frame)),
        ),
        transition(Event::Dom(None)) == (LoopState::Stopped, Effect::Nothing),
{
}

/// Whether a message could be sent makes no difference; the loop goes on
/// listening after data exactly if the page could be told of them.
pub proof fn law_what_follows_an_attempt(outcome: bool)
    ensures
        transition(Event::Sent(outcome)) == (LoopState::Listening, Effect::Nothing),
        transition(Event::Delivered(outcome)).1 == Effect::Nothing,
        transition(Event::Delivered(outcome)).0 == LoopState::Listening <==> outcome,
        transition(Event::Delivered(outcome)).0 == LoopState::Stopped <==> !outcome,
{
}

/// What the loop waits for: while it listens, for the page, which demands no raw
/// frame, and for the wire; while it sends, for the outcome; while it delivers,
/// for the outcome; once it has stopped, for nothing.
pub proof fn law_what_the_loop_waits_for(state: LoopState, event: Event)
    ensures
        state == LoopState::Listening ==> (awaited(state, event) <==> event is Network || (
        event matches Event::Dom(demand) && !(demand matches Some(
            Demand::Send(Content::Frame(_)),
        )))),
        state == LoopState::Sending ==> (awaited(state, event) <==> event is Sent),
        state == LoopState::Delivering ==> (awaited(state, event) <==> event is Delivered),
        state == LoopState::Stopped ==> !awaited(state, event),
{
}

/// A run goes on with an event exactly if the loop waits for it: listening at
/// first, and then as the event before left it.
pub proof fn law_runs_grow_event_by_event(events: Seq<Event>, next: Event)
    ensures
        is_run(Seq::empty()),
        is_run(events.push(next)) <==> is_run(events) && awaited(
            if events.len() == 0 {
                LoopState::Listening
            } else {
                transition(events.last()).0
            },
            next,
        ),
{
    let all = events.push(next);
    let last = events.len() as int;
    assert forall|i: int| 0 <= i < last implies #[trigger] state_before(all, i) == state_before(
        events,
        i,
    ) by {
        if i > 0 {
            assert(all[i - 1] == events[i - 1]);
        }
    }
    assert(all[last] == next);
    assert(state_before(all, last) == if events.len() == 0 {
        LoopState::Listening
    } else {
        transition(events.last()).0
    });
    if is_run(all) {
        assert forall|i: int| 0 <= i < last implies awaited(
            #[trigger] state_before(events, i),
            events[i],
        ) by {
            assert(awaited(state_before(all, i), all[i]));
        }
        assert(awaited(state_before(all, last), all[last]));
    }
    if is_run(events) && awaited(state_before(all, last), next) {
        assert forall|i: int| 0 <= i < all.len() implies awaited(
            #[trigger] state_before(all, i),
            all[i],
        ) by {
            if i < last {
                assert(awaited(state_before(events, i), events[i]));
            }
        }
    }
}

/// What the wire gets and what the page is told in the course of a run, by its
/// last event: a demand adds one message, arriving data add one notice.
pub proof fn law_traffic_grows_event_by_event(
    events: Seq<Event>,
    message: Content,
    frame: Option<(u16, Seq<char>)>,
    text: Seq<char>,
    bytes: Seq<u8>,
)
    ensures
        sent(Seq::empty()) == Seq::<Content>::empty(),
        surfaced(Seq::empty()) == Seq::<Data>::empty(),
        sent(events.push(Event::Dom(Some(Demand::Send(message))))) == sent(events).push(message),
        sent(events.push(Event::Dom(Some(Demand::Close(frame))))) == sent(events).push(
            Content::Close(frame),
        ),
        sent(events.push(Event::Network(Arrival::Message(message)))) == sent(events),
        surfaced(events.push(Event::Network(Arrival::Message(Content::Text(text))))) == surfaced(
            events,
        ).push(Data::Text(text)),
        surfaced(events.push(Event::Network(Arrival::Message(Content::Binary(bytes)))))
            == surfaced(events).push(Data::Binary(bytes)),
        surfaced(events.push(Event::Dom(Some(Demand::Send(message))))) == surfaced(events),
{
    assert forall|event: Event| (#[trigger] events.push(event)).drop_last() == events by {
        assert(events.push(event).drop_last() =~= events);
    }
}

/// What the loop is told, what it asks for and what it tells the page say just
/// what they hold.
pub proof fn law_events_and_notices_say_what_they_hold(
    demand: DomMsg,
    message: WireMessage,
    flag: bool,
    code: Option<u16>,
    text: String,
    data: MessageData,
)
    ensures
        LoopEvent::Dom(Some(demand))@ == Event::Dom(Some(demand@)),
        LoopEvent::Dom(None)@ == Event::Dom(None),
        LoopEvent::Network(Incoming::Message(message))@ == Event::Network(
            Arrival::Message(message@),
        ),
        LoopEvent::Network(Incoming::Error)@ == Event::Network(Arrival::Error),
        LoopEvent::Network(Incoming::End)@ == Event::Network(Arrival::End),
        LoopEvent::Sent(flag)@ == Event::Sent(flag),
        LoopEvent::Delivered(flag)@ == Event::Delivered(flag),
        LoopAction::Nothing@ == Effect::Nothing,
        LoopAction::Send(message)@ == Effect::Send(message@),
        LoopAction::Notify(WebSocketNetworkEvent::Fail)@ == Effect::Notify(Notice::Fail),
        WebSocketNetworkEvent::Close(code, text)@ == Notice::Close(code, text@),
        WebSocketNetworkEvent::MessageReceived(data)@ == Notice::MessageReceived(data@),
        (WebSocketNetworkEvent::ConnectionEstablished { protocol_in_use: Some(text) })@
            == Notice::ConnectionEstablished(Some(text@)),
        (WebSocketNetworkEvent::ConnectionEstablished { protocol_in_use: None })@
            == Notice::ConnectionEstablished(None),
        LoopAction::Notify(WebSocketNetworkEvent::Close(code, text))@ == Effect::Notify(
            Notice::Close(code, text@),
        ),
        LoopAction::Notify(WebSocketNetworkEvent::MessageReceived(data))@ == Effect::Notify(
            Notice::MessageReceived(data@),
        ),
{
}

} // verus!
