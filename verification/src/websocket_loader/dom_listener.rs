//! The listener for what the page does with its WebSocket: it turns each
//! action into a request to the connection.

use vstd::prelude::*;

use crate::foreign::payload::{contents, text_of};
use crate::websocket_loader::response::opt_string;
use crate::ws_map::{content_of, message_from_data, Content, Data, Message, MessageData};

verus! {

/// What the page does with its WebSocket.
#[derive(Debug)]
pub enum WebSocketDomAction {
    SendMessage(MessageData),
    /// Close the connection, with a code and a reason as far as given.
    Close(Option<u16>, Option<String>),
}

/// A [`WebSocketDomAction`], in terms of what it says.
pub enum Action {
    Send(Data),
    Close(Option<u16>, Option<Seq<char>>),
}

impl View for WebSocketDomAction {
    type V = Action;

    open spec fn view(&self) -> Action {
        match self {
            WebSocketDomAction::SendMessage(data) => Action::Send(data@),
            WebSocketDomAction::Close(code, reason) => Action::Close(*code, opt_string(*reason)),
        }
    }
}

/// What the page asks of the connection.
#[derive(Debug)]
pub enum DomMsg {
    Send(Message),
    Close(Option<(u16, String)>),
}

/// A [`DomMsg`], in terms of what it says.
pub enum Demand {
    Send(Content),
    Close(Option<(u16, Seq<char>)>),
}

impl View for DomMsg {
    type V = Demand;

    open spec fn view(&self) -> Demand {
        match self {
            DomMsg::Send(message) => Demand::Send(message@),
            DomMsg::Close(frame) => Demand::Close(
                match frame {
                    Some(frame) => Some((frame.0, frame.1@)),
                    None => None,
                },
            ),
        }
    }
}

/// The view of an optional message.
pub open spec fn opt_demand(message: Option<DomMsg>) -> Option<Demand> {
    match message {
        Some(message) => Some(message@),
        None => None,
    }
}

/// The close frame for a code and a reason. Without a code there is none, and
/// the reason is dropped; with one, a missing reason is the empty one.
pub open spec fn close_frame(code: Option<u16>, reason: Option<Seq<char>>) -> Option<
    (u16, Seq<char>),
> {
    match code {
        Some(code) => Some((code, reason.unwrap_or(Seq::empty()))),
        None => None,
    }
}

/// What the listener forwards for one action, given whether the page has asked
/// for a close before: data always, a close only the first time.
pub open spec fn forwarded_for(closing: bool, action: Action) -> Option<Demand> {
    match action {
        Action::Send(data) => Some(Demand::Send(content_of(data))),
        Action::Close(code, reason) => if closing {
            None
        } else {
            Some(Demand::Close(close_frame(code, reason)))
        },
    }
}

/// The state of the listener: whether the page has asked for a close.
#[derive(Debug)]
pub struct DomListener {
    pub initiated_close: bool,
}

impl DomListener {
    /// A listener that has seen nothing yet.
    pub fn new() -> (listener: DomListener)
        ensures
            !listener.initiated_close,
    {
        DomListener { initiated_close: false }
    }

    /// Handles one action of the page, and returns what is to be forwarded to
    /// the connection, if anything is.
    pub fn on_action(&mut self, action: WebSocketDomAction) -> (forwarded: Option<DomMsg>)
        ensures
            opt_demand(forwarded) == forwarded_for(old(self).initiated_close, action@),
            final(self).initiated_close == (old(self).initiated_close || action@ is Close),
            final(self).initiated_close == (old(self).initiated_close || action is Close),
            match action {
                WebSocketDomAction::SendMessage(MessageData::Text(given)) => {
                    &&& forwarded matches Some(DomMsg::Send(Message::Text(text)))
                    &&& text_of(text) == given@
                },
                WebSocketDomAction::SendMessage(MessageData::Binary(given)) => {
                    &&& forwarded matches Some(DomMsg::Send(Message::Binary(data)))
                    &&& contents(data) == given@
                },
                WebSocketDomAction::Close(None, _) => forwarded == if old(self).initiated_close {
                    None
                } else {
                    Some(DomMsg::Close(None))
                },
                WebSocketDomAction::Close(Some(code), reason) => if old(self).initiated_close {
                    forwarded is None
                } else {
                    &&& forwarded matches Some(DomMsg::Close(Some(frame)))
                    &&& frame.0 == code
                    &&& reason matches Some(given) ==> frame.1@ == given@
                    &&& reason is None ==> frame.1@.len() == 0
                },
            },
    {
        match action {
            WebSocketDomAction::SendMessage(data) => Some(DomMsg::Send(message_from_data(data))),
            WebSocketDomAction::Close(code, reason) => {
                if self.initiated_close {
                    return None;
                }
                self.initiated_close = true;
                let frame = match code {
                    Some(code) => {
                        let reason = match reason {
                            Some(reason) => reason,
                            None => String::new(),
                        };
                        Some((code, reason))
                    },
                    None => None,
                };
                Some(DomMsg::Close(frame))
            },
        }
    }
}

/// Whether the page has asked for a close, after `actions`.
pub open spec fn closing_after(closing: bool, actions: Seq<Action>) -> bool {
    closing || exists|i: int| 0 <= i < actions.len() && (#[trigger] actions[i]) is Close
}

/// All that the listener forwards for `actions`, in order.
pub open spec fn forwarded(closing: bool, actions: Seq<Action>) -> Seq<Demand>
    decreases actions.len(),
{
    if actions.len() == 0 {
        Seq::empty()
    } else {
        let before = actions.drop_last();
        let earlier = forwarded(closing, before);
        match forwarded_for(closing_after(closing, before), actions.last()) {
            Some(demand) => earlier.push(demand),
            None => earlier,
        }
    }
}

/// What the page sends among `actions`, in order.
pub open spec fn data_sent(actions: Seq<Action>) -> Seq<Content> {
    actions.filter_map(
        |action: Action|
            match action {
                Action::Send(data) => Some(content_of(data)),
                Action::Close(..) => None,
            },
    )
}

/// The messages among `demands`, in order.
pub open spec fn messages_in(demands: Seq<Demand>) -> Seq<Content> {
    demands.filter_map(
        |demand: Demand|
            match demand {
                Demand::Send(message) => Some(message),
                Demand::Close(_) => None,
            },
    )
}

/// However often the page asks, the connection is closed at most once, and not
/// at all if a close was asked for before.
pub proof fn law_at_most_one_close(closing: bool, actions: Seq<Action>, i: int, j: int)
    requires
        0 <= i < forwarded(closing, actions).len(),
        0 <= j < forwarded(closing, actions).len(),
        forwarded(closing, actions)[i] is Close,
        forwarded(closing, actions)[j] is Close,
    ensures
        i == j,
        !closing,
    decreases actions.len(),
{
    let before = actions.drop_last();
    let earlier = forwarded(closing, before);
    if i < earlier.len() && j < earlier.len() {
        law_at_most_one_close(closing, before, i, j);
    } else if i < earlier.len() {
        lemma_close_means_closing(closing, before, i);
    } else if j < earlier.len() {
        lemma_close_means_closing(closing, before, j);
    }
}

/// Once a close has been forwarded, the page has asked for one.
proof fn lemma_close_means_closing(closing: bool, actions: Seq<Action>, i: int)
    requires
        0 <= i < forwarded(closing, actions).len(),
        forwarded(closing, actions)[i] is Close,
    ensures
        closing_after(closing, actions),
    decreases actions.len(),
{
    let before = actions.drop_last();
    if i < forwarded(closing, before).len() {
        lemma_close_means_closing(closing, before, i);
        if !closing {
            let k = choose|k: int| 0 <= k < before.len() && (#[trigger] before[k]) is Close;
            assert(actions[k] is Close);
        }
    } else {
        assert(actions[actions.len() - 1] is Close);
    }
}

/// Every message that the page sends is forwarded, in order and unchanged,
/// before a close and after it.
pub proof fn law_data_is_always_forwarded(closing: bool, actions: Seq<Action>)
    ensures
        messages_in(forwarded(closing, actions)) == data_sent(actions),
    decreases actions.len(),
{
    if actions.len() > 0 {
        let before = actions.drop_last();
        law_data_is_always_forwarded(closing, before);
        if let Some(_) = forwarded_for(closing_after(closing, before), actions.last()) {
            assert(forwarded(closing, actions).drop_last() =~= forwarded(closing, before));
        }
    }
}

/// The listener's state is determined by what it has seen: one more action
/// makes it closing if it was so before, or if that action is a close.
pub proof fn law_state_follows_the_actions(closing: bool, actions: Seq<Action>, next: Action)
    ensures
        closing_after(closing, Seq::empty()) == closing,
        closing_after(closing, actions.push(next)) == (closing_after(closing, actions)
            || next is Close),
{
    let all = actions.push(next);
    if closing_after(closing, actions) && !closing {
        let k = choose|k: int| 0 <= k < actions.len() && (#[trigger] actions[k]) is Close;
        assert(all[k] is Close);
    }
    if next is Close {
        assert(all[actions.len() as int] is Close);
    }
    if closing_after(closing, all) && !closing {
        let k = choose|k: int| 0 <= k < all.len() && (#[trigger] all[k]) is Close;
        if k < actions.len() {
            assert(actions[k] is Close);
        }
    }
}

/// The first close that the page asks for is forwarded, with its code and
/// reason.
pub proof fn law_first_close_is_forwarded(
    actions: Seq<Action>,
    first: int,
    code: Option<u16>,
    reason: Option<Seq<char>>,
)
    requires
        0 <= first < actions.len(),
        actions[first] == Action::Close(code, reason),
        forall|k: int| 0 <= k < first ==> !((#[trigger] actions[k]) is Close),
    ensures
        forwarded(false, actions).contains(Demand::Close(close_frame(code, reason))),
    decreases actions.len(),
{
    let close = Demand::Close(close_frame(code, reason));
    let before = actions.drop_last();
    let earlier = forwarded(false, before);
    let all = forwarded(false, actions);
    if first < before.len() {
        law_first_close_is_forwarded(before, first, code, reason);
        let k = choose|k: int| 0 <= k < earlier.len() && earlier[k] == close;
        assert(all[k] == close);
    } else {
        assert(all.last() == close);
    }
}

/// The listener forwards no message but text and binary ones.
pub proof fn law_only_data_is_forwarded(closing: bool, actions: Seq<Action>, i: int)
    requires
        0 <= i < forwarded(closing, actions).len(),
    ensures
        forwarded(closing, actions)[i] matches Demand::Send(message) ==> message is Text
            || message is Binary,
    decreases actions.len(),
{
    let before = actions.drop_last();
    if i < forwarded(closing, before).len() {
        law_only_data_is_forwarded(closing, before, i);
    }
}

/// Data go on in a message of their kind with the very characters and bytes,
/// whether or not a close was asked for.
pub proof fn law_data_is_forwarded_as_it_is(closing: bool, text: Seq<char>, bytes: Seq<u8>)
    ensures
        forwarded_for(closing, Action::Send(Data::Text(text))) == Some(
            Demand::Send(Content::Text(text)),
        ),
        forwarded_for(closing, Action::Send(Data::Binary(bytes))) == Some(
            Demand::Send(Content::Binary(bytes)),
        ),
{
}

/// A first close goes on with the very code and reason that the page gave, a
/// reason that it did not give counting as the empty one, and without a frame if
/// it gave no code. Any further close goes nowhere.
pub proof fn law_close_is_forwarded_as_it_is(
    code: u16,
    reason: Seq<char>,
    any_code: Option<u16>,
    any_reason: Option<Seq<char>>,
)
    ensures
        forwarded_for(false, Action::Close(Some(code), Some(reason))) == Some(
            Demand::Close(Some((code, reason))),
        ),
        forwarded_for(false, Action::Close(Some(code), None)) == Some(
            Demand::Close(Some((code, Seq::empty()))),
        ),
        forwarded_for(false, Action::Close(None, any_reason)) == Some(Demand::Close(None)),
        forwarded_for(true, Action::Close(any_code, any_reason)) is None,
        close_frame(Some(code), Some(reason)) == Some((code, reason)),
        close_frame(Some(code), None) == Some((code, Seq::<char>::empty())),
        close_frame(None, any_reason) is None,
{
}

/// What is forwarded for one run of actions after another is what is forwarded
/// for the first, and then for the second by a listener that has seen the first.
pub proof fn law_forwarding_goes_on_where_it_left_off(
    closing: bool,
    first: Seq<Action>,
    second: Seq<Action>,
)
    ensures
        forwarded(closing, Seq::empty()) == Seq::<Demand>::empty(),
        forwarded(closing, first + second) == forwarded(closing, first) + forwarded(
            closing_after(closing, first),
            second,
        ),
        closing_after(closing, first + second) == closing_after(
            closing_after(closing, first),
            second,
        ),
    decreases second.len(),
{
    if second.len() == 0 {
        assert(first + second =~= first);
        assert(forwarded(closing, first) + forwarded(closing_after(closing, first), second)
            =~= forwarded(closing, first));
    } else {
        let before = second.drop_last();
        law_forwarding_goes_on_where_it_left_off(closing, first, before);
        assert((first + second).drop_last() =~= first + before);
        assert((first + second).last() == second.last());
        assert(first + second =~= (first + before).push(second.last()));
        assert(second =~= before.push(second.last()));
        law_state_follows_the_actions(closing, first + before, second.last());
        law_state_follows_the_actions(closing_after(closing, first), before, second.last());
        assert(forwarded(closing, first + second) =~= forwarded(closing, first) + forwarded(
            closing_after(closing, first),
            second,
        ));
    }
}

/// One action is forwarded, or not, by itself, and is a close or leaves things
/// as they were.
pub proof fn law_one_action(closing: bool, action: Action)
    ensures
        forwarded(closing, seq![action]) == match forwarded_for(closing, action) {
            Some(demand) => seq![demand],
            None => Seq::empty(),
        },
        closing_after(closing, seq![action]) == (closing || action is Close),
{
    let actions = seq![action];
    assert(actions.drop_last() =~= Seq::empty());
    assert(forwarded(closing, actions.drop_last()) =~= Seq::empty());
    assert(closing_after(closing, actions.drop_last()) == closing);
    law_state_follows_the_actions(closing, Seq::empty(), action);
    assert(Seq::empty().push(action) =~= actions);
    assert(forwarded(closing, actions) =~= match forwarded_for(closing, action) {
        Some(demand) => seq![demand],
        None => Seq::empty(),
    });
}

/// The page's actions and demands say just what they hold.
pub proof fn law_actions_and_demands_say_what_they_hold(
    data: MessageData,
    message: Message,
    code: Option<u16>,
    given: u16,
    reason: String,
)
    ensures
        WebSocketDomAction::SendMessage(data)@ == Action::Send(data@),
        WebSocketDomAction::Close(code, Some(reason))@ == Action::Close(code, Some(reason@)),
        WebSocketDomAction::Close(code, None)@ == Action::Close(code, None),
        DomMsg::Send(message)@ == Demand::Send(message@),
        DomMsg::Close(Some((given, reason)))@ == Demand::Close(Some((given, reason@))),
        DomMsg::Close(None)@ == Demand::Close(None),
        opt_demand(Some(DomMsg::Send(message))) == Some(Demand::Send(message@)),
        opt_demand(Some(DomMsg::Close(Some((given, reason))))) == Some(
            Demand::Close(Some((given, reason@))),
        ),
        opt_demand(Some(DomMsg::Close(None))) == Some(Demand::Close(None)),
        opt_demand(None) is None,
{
}

} // verus!
