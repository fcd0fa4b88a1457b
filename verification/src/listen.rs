//! The loops that take in messages and answer requests, and the wait for the
//! first announcement.
use vstd::prelude::*;

use crate::error::TransportError;
#[allow(unused_imports)]
use crate::jsonrpc::JsonRpcVersion;
use crate::jsonrpc::{
    JsonRpcError, JsonRpcNotification, JsonRpcRequest, JsonRpcResponse, Message, RequestId,
};

verus! {

/// What came of a step of a loop. Responses that cannot be sent fail with an `E`.
#[derive(Debug)]
pub enum ListenEvent<E> {
    /// A poll brought a message.
    Received(Message),
    /// A poll brought no message.
    Nothing,
    /// A poll failed.
    PollFailed,
    /// A request was handled; this is its response.
    Answered(JsonRpcResponse),
    /// A notification or a response was handled.
    Handled,
    /// A response was sent.
    Sent,
    /// A response could not be sent, and why.
    SendFailed(E),
    /// A pause is over.
    Rested,
}

/// What a loop does next.
#[derive(Debug)]
pub enum ListenAction<E> {
    /// Poll for a message.
    Poll,
    /// Have the request handled.
    HandleRequest(JsonRpcRequest),
    /// Have the notification handled.
    HandleNotification(JsonRpcNotification),
    /// Have the response handled.
    HandleResponse(JsonRpcResponse),
    /// Send the response with these parts.
    SendResponse {
        id: RequestId,
        result: Option<serde_json::Value>,
        error: Option<JsonRpcError>,
    },
    /// Pause for so many milliseconds.
    Rest(u64),
    /// End the loop: nothing more will come.
    Finish,
    /// End the loop with this error, of the response that could not be sent.
    Abort(E),
}

/// How long the client pauses after a poll that failed, in milliseconds.
pub const POLL_PAUSE_MILLIS: u64 = 1000;

/// Who handles a message.
pub open spec fn handling<E>(message: Message) -> ListenAction<E> {
    match message {
        Message::Request(request) => ListenAction::HandleRequest(request),
        Message::Notification(notification) => ListenAction::HandleNotification(notification),
        Message::Response(response) => ListenAction::HandleResponse(response),
    }
}

/// How the response to a handled request goes out.
pub open spec fn answer<E>(response: JsonRpcResponse) -> ListenAction<E> {
    ListenAction::SendResponse {
        id: response.id,
        result: response.result,
        error: response.error,
    }
}

/// What the client's loop does after an event: it never ends, it pauses where a
/// poll failed, and it does not mind a response that could not be sent.
pub open spec fn client_next<E>(event: ListenEvent<E>) -> ListenAction<E> {
    match event {
        ListenEvent::Received(message) => handling(message),
        ListenEvent::Answered(response) => answer(response),
        ListenEvent::PollFailed => ListenAction::Rest(POLL_PAUSE_MILLIS),
        _ => ListenAction::Poll,
    }
}

/// What the server's loop does after an event: it ends where no message comes any
/// more or a response cannot be sent, and polls on where a poll failed.
pub open spec fn server_next<E>(event: ListenEvent<E>) -> ListenAction<E> {
    match event {
        ListenEvent::Received(message) => handling(message),
        ListenEvent::Answered(response) => answer(response),
        ListenEvent::Nothing => ListenAction::Finish,
        ListenEvent::SendFailed(error) => ListenAction::Abort(error),
        _ => ListenAction::Poll,
    }
}

/// Who handles `message`.
pub fn route<E>(message: Message) -> (action: ListenAction<E>)
    ensures
        action == handling::<E>(message),
{
    match message {
        Message::Request(request) => ListenAction::HandleRequest(request),
        Message::Notification(notification) => ListenAction::HandleNotification(notification),
        Message::Response(response) => ListenAction::HandleResponse(response),
    }
}

/// How `response` goes out.
pub fn reply<E>(response: JsonRpcResponse) -> (action: ListenAction<E>)
    ensures
        action == answer::<E>(response),
{
    ListenAction::SendResponse {
        id: response.id,
        result: response.result,
        error: response.error,
    }
}

/// What the client's loop does after `event`.
pub fn next_for_client<E>(event: ListenEvent<E>) -> (action: ListenAction<E>)
    ensures
        action == client_next(event),
{
    match event {
        ListenEvent::Received(message) => route(message),
        ListenEvent::Answered(response) => reply(response),
        ListenEvent::PollFailed => ListenAction::Rest(POLL_PAUSE_MILLIS),
        _ => ListenAction::Poll,
    }
}

/// What the server's loop does after `event`.
pub fn next_for_server<E>(event: ListenEvent<E>) -> (action: ListenAction<E>)
    ensures
        action == server_next(event),
{
    match event {
        ListenEvent::Received(message) => route(message),
        ListenEvent::Answered(response) => reply(response),
        ListenEvent::Nothing => ListenAction::Finish,
        ListenEvent::SendFailed(error) => ListenAction::Abort(error),
        _ => ListenAction::Poll,
    }
}

/// Whether an action ends a loop.
pub open spec fn ends<E>(action: ListenAction<E>) -> bool {
    action is Finish || action is Abort
}

/// The client listens for as long as it runs: no event ends its loop.
pub proof fn client_never_stops<E>(event: ListenEvent<E>)
    ensures
        !ends(client_next(event)),
{
}

/// The server stops for two reasons only: the input is over, or a response cannot
/// be sent. In the second case it stops with the very error of that response.
pub proof fn server_stops<E>(event: ListenEvent<E>)
    ensures
        ends(server_next(event)) <==> event is Nothing || event is SendFailed,
        server_next(event) is Finish <==> event is Nothing,
        event matches ListenEvent::SendFailed(error) ==> server_next(event)
            == ListenAction::<E>::Abort(error),
{
}

/// Every request is handed to its handler, and the handler's response is sent as
/// it is; nothing but a request is answered.
pub proof fn requests_are_answered<E>(request: JsonRpcRequest, response: JsonRpcResponse)
    ensures
        client_next(ListenEvent::<E>::Received(Message::Request(request)))
            == ListenAction::<E>::HandleRequest(request),
        server_next(ListenEvent::<E>::Received(Message::Request(request)))
            == ListenAction::<E>::HandleRequest(request),
        client_next(ListenEvent::<E>::Answered(response)) == answer::<E>(response),
        server_next(ListenEvent::<E>::Answered(response)) == answer::<E>(response),
        forall|event: ListenEvent<E>|
            (#[trigger] client_next(event)) is SendResponse ==> event is Answered,
        forall|event: ListenEvent<E>|
            (#[trigger] server_next(event)) is SendResponse ==> event is Answered,
{
}

/// What a loop does after an event.
pub open spec fn loop_next<E>(client: bool, event: ListenEvent<E>) -> ListenAction<E> {
    if client {
        client_next(event)
    } else {
        server_next(event)
    }
}

/// Whether an event is what can come of an action.
pub open spec fn comes_of<E>(action: ListenAction<E>, event: ListenEvent<E>) -> bool {
    match action {
        ListenAction::Poll => event is Received || event is Nothing || event is PollFailed,
        ListenAction::HandleRequest(_) => event is Answered,
        ListenAction::HandleNotification(_) => event is Handled,
        ListenAction::HandleResponse(_) => event is Handled,
        ListenAction::SendResponse { .. } => event is Sent || event is SendFailed,
        ListenAction::Rest(_) => event is Rested,
        ListenAction::Finish => false,
        ListenAction::Abort(_) => false,
    }
}

/// A loop from its beginning on: what it did, and what came of all of it but the
/// last.
pub open spec fn loop_run<E>(
    client: bool,
    actions: Seq<ListenAction<E>>,
    events: Seq<ListenEvent<E>>,
) -> bool {
    &&& actions.len() == events.len() + 1
    &&& actions[0] is Poll
    &&& forall|i: int|
        #![trigger events[i]]
        0 <= i < events.len() ==> {
            &&& comes_of(actions[i], events[i])
            &&& actions[i + 1] == loop_next(client, events[i])
        }
}

/// The requests that came, in their order.
pub open spec fn requests_of<E>(events: Seq<ListenEvent<E>>) -> Seq<JsonRpcRequest>
    decreases events.len(),
{
    if events.len() == 0 {
        Seq::empty()
    } else {
        let before = requests_of(events.drop_last());
        match events.last() {
            ListenEvent::Received(Message::Request(request)) => before.push(request),
            _ => before,
        }
    }
}

/// The requests that were handled, in their order, each with the response that its
/// handler gave.
pub open spec fn exchanges_of<E>(
    actions: Seq<ListenAction<E>>,
    events: Seq<ListenEvent<E>>,
) -> Seq<(JsonRpcRequest, JsonRpcResponse)>
    decreases events.len(),
{
    if events.len() == 0 {
        Seq::empty()
    } else {
        let before = exchanges_of(actions.drop_last(), events.drop_last());
        match (actions[events.len() - 1], events.last()) {
            (
                ListenAction::HandleRequest(request),
                ListenEvent::Answered(response),
            ) => before.push((request, response)),
            _ => before,
        }
    }
}

/// The responses that were given out to be sent, in their order.
pub open spec fn responses_of<E>(actions: Seq<ListenAction<E>>) -> Seq<JsonRpcResponse>
    decreases actions.len(),
{
    if actions.len() == 0 {
        Seq::empty()
    } else {
        let before = responses_of(actions.drop_last());
        match actions.last() {
            ListenAction::SendResponse { id, result, error } => before.push(
                JsonRpcResponse { id, result, error, jsonrpc: JsonRpcVersion },
            ),
            _ => before,
        }
    }
}

/// A loop answers what it is asked. The responses that it sends are those that the
/// handler gave, each once and in their order. The handler gets the requests that
/// came, each once and in their order: whenever the loop polls, or has ended, all
/// of them are answered.
pub proof fn requests_are_answered_in_order<E>(
    client: bool,
    actions: Seq<ListenAction<E>>,
    events: Seq<ListenEvent<E>>,
)
    requires
        loop_run(client, actions, events),
    ensures
        responses_of(actions) == exchanges_of(actions, events).map_values(
            |exchange: (JsonRpcRequest, JsonRpcResponse)| exchange.1,
        ),
        exchanges_of(actions, events).map_values(
            |exchange: (JsonRpcRequest, JsonRpcResponse)| exchange.0,
        ) + (match actions.last() {
            ListenAction::HandleRequest(request) => seq![request],
            _ => Seq::empty(),
        }) == requests_of(events),
        actions.last() is Poll || ends(actions.last()) ==> responses_of(actions).len()
            == requests_of(events).len(),
    decreases events.len(),
{
    let first = |exchange: (JsonRpcRequest, JsonRpcResponse)| exchange.0;
    let second = |exchange: (JsonRpcRequest, JsonRpcResponse)| exchange.1;
    let n = events.len() as int;
    let exchanges = exchanges_of(actions, events);
    let waiting = match actions.last() {
        ListenAction::HandleRequest(request) => seq![request],
        _ => Seq::empty(),
    };
    if n == 0 {
        assert(responses_of(actions.drop_last()) =~= Seq::empty());
        assert(responses_of(actions) =~= exchanges.map_values(second));
        assert(exchanges.map_values(first) + waiting =~= requests_of(events));
    } else {
        let earlier = actions.drop_last();
        let past = events.drop_last();
        assert forall|i: int|
            #![trigger past[i]]
            0 <= i < past.len() implies {
            &&& comes_of(earlier[i], past[i])
            &&& earlier[i + 1] == loop_next(client, past[i])
        } by {
            assert(past[i] == events[i]);
        }
        requests_are_answered_in_order(client, earlier, past);
        assert(comes_of(actions[n - 1], events[n - 1]));
        assert(actions[n] == loop_next(client, events[n - 1]));
        assert(earlier.last() == actions[n - 1]);
        assert(responses_of(actions) =~= exchanges.map_values(second));
        assert(exchanges.map_values(first) + waiting =~= requests_of(events));
    }
}

/// A loop answers a request before it polls again: a request that came is handled
/// next, the handler's response is sent after that, and a poll follows, or the end
/// of the server's loop where the response could not be sent. And it sends nothing
/// unasked: what is sent is the response to a request that had just come.
pub proof fn requests_are_answered_at_once<E>(
    client: bool,
    actions: Seq<ListenAction<E>>,
    events: Seq<ListenEvent<E>>,
    i: int,
)
    requires
        loop_run(client, actions, events),
        0 <= i < actions.len(),
    ensures
        i < events.len() ==> (events[i] matches ListenEvent::Received(Message::Request(request))
            ==> actions[i + 1] == ListenAction::<E>::HandleRequest(request)),
        i < events.len() && actions[i] is HandleRequest ==> {
            &&& events[i] matches ListenEvent::Answered(response)
            &&& actions[i + 1] == answer::<E>(response)
        },
        i < events.len() && actions[i] is SendResponse ==> actions[i + 1] == (match events[i] {
            ListenEvent::SendFailed(error) if !client => ListenAction::Abort(error),
            _ => ListenAction::Poll,
        }),
        actions[i] matches ListenAction::HandleRequest(request) ==> {
            &&& 1 <= i
            &&& actions[i - 1] is Poll
            &&& events[i - 1] == ListenEvent::<E>::Received(Message::Request(request))
        },
        actions[i] is SendResponse ==> 2 <= i && actions[i - 1] is HandleRequest
            && actions[i - 2] is Poll,
{
    if i < events.len() {
        assert(comes_of(actions[i], events[i]));
    }
    if 1 <= i {
        assert(comes_of(actions[i - 1], events[i - 1]));
        assert(actions[i] == loop_next(client, events[i - 1]));
    }
    if 2 <= i {
        assert(comes_of(actions[i - 2], events[i - 2]));
        assert(actions[i - 1] == loop_next(client, events[i - 2]));
    }
}

/// How the server's loop ends: where the input is over, or with the error of the
/// response that could not be sent. All responses before that were sent, and no poll
/// before that found the input over.
pub proof fn server_ends_with_its_error<E>(
    actions: Seq<ListenAction<E>>,
    events: Seq<ListenEvent<E>>,
)
    requires
        loop_run(false, actions, events),
        ends(actions.last()),
    ensures
        events.len() > 0,
        match actions.last() {
            ListenAction::Abort(error) => events.last() == ListenEvent::<E>::SendFailed(error),
            _ => events.last() is Nothing,
        },
        forall|i: int|
            0 <= i < events.len() - 1 ==> !((#[trigger] events[i]) is SendFailed)
                && !(events[i] is Nothing),
{
    let n = events.len() as int;
    assert(n > 0);
    assert(actions[n] == loop_next(false, events[n - 1]));
    assert forall|i: int| 0 <= i < n - 1 implies !((#[trigger] events[i]) is SendFailed) && !(
    events[i] is Nothing) by {
        assert(actions[i + 1] == loop_next(false, events[i]));
        assert(comes_of(actions[i + 1], events[i + 1]));
    }
}

/// How often a transport that is being opened looks for its session.
pub const OPEN_ATTEMPTS: u32 = 100;

/// How long it waits between two looks, in milliseconds.
pub const OPEN_PAUSE_MILLIS: u64 = 100;

/// The wait of a transport that is being opened.
#[derive(Debug)]
pub struct OpenWait {
    attempts: u32,
}

/// What to do after a look for the session.
#[derive(Debug)]
pub enum OpenStep {
    /// Nothing: the transport is open.
    Ready,
    /// Wait for so many milliseconds, and look again.
    Wait(u64),
    /// Nothing: the transport cannot be opened.
    Fail(TransportError),
}

impl OpenWait {
    /// How many looks were in vain.
    pub closed spec fn attempts_spec(self) -> int {
        self.attempts as int
    }

    /// A wait that has just begun.
    pub fn new() -> (wait: OpenWait)
        ensures
            wait.attempts_spec() == 0,
    {
        OpenWait { attempts: 0 }
    }

    /// Takes in whether there is a session now. After the last look in vain there
    /// is no other.
    pub fn step(&mut self, has_session: bool) -> (step: OpenStep)
        ensures
            step == open_step(old(self).attempts_spec(), has_session),
            final(self).attempts_spec() == if step is Wait {
                old(self).attempts_spec() + 1
            } else {
                old(self).attempts_spec()
            },
            step is Fail <==> old(self).attempts_spec() >= 100,
            step is Ready <==> old(self).attempts_spec() < 100 && has_session,
            step matches OpenStep::Wait(millis) ==> millis == 100,
    {
        if self.attempts < OPEN_ATTEMPTS {
            if has_session {
                OpenStep::Ready
            } else {
                self.attempts = self.attempts + 1;
                OpenStep::Wait(OPEN_PAUSE_MILLIS)
            }
        } else {
            OpenStep::Fail(TransportError::OpenTimeout)
        }
    }
}

/// What to do after `attempts` looks in vain.
pub open spec fn open_step(attempts: int, has_session: bool) -> OpenStep {
    if attempts >= OPEN_ATTEMPTS {
        OpenStep::Fail(TransportError::OpenTimeout)
    } else if has_session {
        OpenStep::Ready
    } else {
        OpenStep::Wait(OPEN_PAUSE_MILLIS)
    }
}

/// Whether a transport is opened, where look number `i` finds a session exactly if
/// `looks(i)`: the steps taken one after the other.
pub open spec fn opens(attempts: int, looks: spec_fn(int) -> bool) -> bool
    decreases OPEN_ATTEMPTS - attempts,
{
    match open_step(attempts, looks(attempts)) {
        OpenStep::Ready => true,
        OpenStep::Wait(_) => opens(attempts + 1, looks),
        OpenStep::Fail(_) => false,
    }
}

/// How long the wait takes in all, in milliseconds.
pub open spec fn waited(attempts: int, looks: spec_fn(int) -> bool) -> int
    decreases OPEN_ATTEMPTS - attempts,
{
    match open_step(attempts, looks(attempts)) {
        OpenStep::Wait(millis) => millis + waited(attempts + 1, looks),
        _ => 0,
    }
}

/// Opening succeeds exactly if one of the looks that are left finds a session.
pub proof fn opens_within_attempts(attempts: int, looks: spec_fn(int) -> bool)
    requires
        0 <= attempts,
    ensures
        opens(attempts, looks) <==> exists|i: int| attempts <= i < OPEN_ATTEMPTS && #[trigger] looks(
            i,
        ),
    decreases OPEN_ATTEMPTS - attempts,
{
    if attempts < OPEN_ATTEMPTS {
        if looks(attempts) {
        } else {
            opens_within_attempts(attempts + 1, looks);
            if exists|i: int| attempts <= i < OPEN_ATTEMPTS && #[trigger] looks(i) {
                let i = choose|i: int| attempts <= i < OPEN_ATTEMPTS && #[trigger] looks(i);
                assert(attempts + 1 <= i && looks(i));
            }
        }
    }
}

/// Opening takes ten seconds at the most, and just that where it fails.
pub proof fn opening_is_bounded(attempts: int, looks: spec_fn(int) -> bool)
    requires
        0 <= attempts <= OPEN_ATTEMPTS,
    ensures
        0 <= waited(attempts, looks) <= (OPEN_ATTEMPTS - attempts) * OPEN_PAUSE_MILLIS,
        !opens(attempts, looks) ==> waited(attempts, looks) == (OPEN_ATTEMPTS - attempts)
            * OPEN_PAUSE_MILLIS,
    decreases OPEN_ATTEMPTS - attempts,
{
    if attempts < OPEN_ATTEMPTS && !looks(attempts) {
        opening_is_bounded(attempts + 1, looks);
    }
}

} // verus!
