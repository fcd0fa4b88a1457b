//! How the loops go: what becomes of each message that comes in, and how long the
//! wait for a session takes.
use vstd::prelude::*;

use crate::error::TransportError;
use crate::jsonrpc::{JsonRpcError, Message, RequestId};
#[allow(unused_imports)]
use crate::listen::{opens, waited};
use crate::listen::{
    next_for_client, next_for_server, ListenAction, ListenEvent, OpenStep, OpenWait,
};

verus! {

/// Whether a loop does `action` after `event`.
pub open spec fn does_next<E>(
    client: bool,
    event: ListenEvent<E>,
    action: ListenAction<E>,
) -> bool {
    if client {
        call_ensures(next_for_client::<E>, (event,), action)
    } else {
        call_ensures(next_for_server::<E>, (event,), action)
    }
}

/// A loop from its beginning on: what it did, and what came of all of it but the
/// last.
pub open spec fn goes<E>(
    client: bool,
    actions: Seq<ListenAction<E>>,
    events: Seq<ListenEvent<E>>,
) -> bool {
    &&& actions.len() == events.len() + 1
    &&& actions[0] is Poll
    &&& forall|i: int|
        #![trigger events[i]]
        0 <= i < events.len() ==> does_next(client, events[i], actions[i + 1])
}

/// The messages that came, in their order.
pub open spec fn received<E>(events: Seq<ListenEvent<E>>) -> Seq<Message>
    decreases events.len(),
{
    if events.len() == 0 {
        Seq::empty()
    } else {
        let before = received(events.drop_last());
        match events.last() {
            ListenEvent::Received(message) => before.push(message),
            _ => before,
        }
    }
}

/// The messages that were given to their handlers, in their order.
pub open spec fn handled<E>(actions: Seq<ListenAction<E>>) -> Seq<Message>
    decreases actions.len(),
{
    if actions.len() == 0 {
        Seq::empty()
    } else {
        let before = handled(actions.drop_last());
        match actions.last() {
            ListenAction::HandleRequest(request) => before.push(Message::Request(request)),
            ListenAction::HandleNotification(notification) => before.push(
                Message::Notification(notification),
            ),
            ListenAction::HandleResponse(response) => before.push(Message::Response(response)),
            _ => before,
        }
    }
}

/// The parts of a response.
pub type Parts = (RequestId, Option<serde_json::Value>, Option<JsonRpcError>);

/// The parts of the responses that handlers gave, in their order.
pub open spec fn answered<E>(events: Seq<ListenEvent<E>>) -> Seq<Parts>
    decreases events.len(),
{
    if events.len() == 0 {
        Seq::empty()
    } else {
        let before = answered(events.drop_last());
        match events.last() {
            ListenEvent::Answered(response) => before.push(
                (response.id, response.result, response.error),
            ),
            _ => before,
        }
    }
}

/// The parts of the responses that were given out to be sent, in their order.
pub open spec fn sent<E>(actions: Seq<ListenAction<E>>) -> Seq<Parts>
    decreases actions.len(),
{
    if actions.len() == 0 {
        Seq::empty()
    } else {
        let before = sent(actions.drop_last());
        match actions.last() {
            ListenAction::SendResponse { id, result, error } => before.push((id, result, error)),
            _ => before,
        }
    }
}

/// Every message that comes is given to the handler of its kind, once, as it is, and
/// in the order in which they came; and every response that a handler gives is sent,
/// once, as it is, and in that order. Nothing else is handled or sent.
pub proof fn messages_are_handled_in_order<E>(
    client: bool,
    actions: Seq<ListenAction<E>>,
    events: Seq<ListenEvent<E>>,
)
    requires
        goes(client, actions, events),
    ensures
        handled(actions) == received(events),
        sent(actions) == answered(events),
    decreases events.len(),
{
    let n = events.len() as int;
    if n == 0 {
        assert(actions.drop_last() =~= Seq::empty());
        assert(handled(actions.drop_last()) =~= Seq::empty());
        assert(sent(actions.drop_last()) =~= Seq::empty());
    } else {
        let earlier = actions.drop_last();
        let past = events.drop_last();
        assert forall|i: int|
            #![trigger past[i]]
            0 <= i < past.len() implies does_next(client, past[i], earlier[i + 1]) by {
            assert(past[i] == events[i]);
        }
        messages_are_handled_in_order(client, earlier, past);
        assert(does_next(client, events[n - 1], actions[n]));
    }
}

/// What a loop does follows at once from what came last: a message goes to the
/// handler of its kind, a handler's response is sent, and after each of these the
/// loop polls. The client polls on whatever happens, a second later where a poll
/// failed. The server ends where the input does, and with the error of a response
/// that cannot be sent.
pub proof fn loops_follow_what_came<E>(
    client: bool,
    actions: Seq<ListenAction<E>>,
    events: Seq<ListenEvent<E>>,
    i: int,
)
    requires
        goes(client, actions, events),
        0 <= i < events.len(),
    ensures
        actions[i + 1] is HandleRequest || actions[i + 1] is HandleNotification || actions[i
            + 1] is HandleResponse <==> events[i] is Received,
        events[i] matches ListenEvent::Received(message) ==> match message {
            Message::Request(request) => actions[i + 1] == ListenAction::<E>::HandleRequest(
                request,
            ),
            Message::Notification(notification) => actions[i + 1]
                == ListenAction::<E>::HandleNotification(notification),
            Message::Response(response) => actions[i + 1] == ListenAction::<E>::HandleResponse(
                response,
            ),
        },
        actions[i + 1] is SendResponse <==> events[i] is Answered,
        events[i] matches ListenEvent::Answered(response) ==> actions[i + 1] == (ListenAction::<
            E,
        >::SendResponse { id: response.id, result: response.result, error: response.error }),
        actions[i + 1] is Rest <==> client && events[i] is PollFailed,
        actions[i + 1] matches ListenAction::Rest(millis) ==> millis == 1000,
        actions[i + 1] is Finish <==> !client && events[i] is Nothing,
        actions[i + 1] is Abort <==> !client && events[i] is SendFailed,
        actions[i + 1] matches ListenAction::Abort(error) ==> events[i] == ListenEvent::<
            E,
        >::SendFailed(error),
{
    assert(does_next(client, events[i], actions[i + 1]));
}

/// What is done after so many looks for a session in vain: up to the hundredth look
/// the transport is open if there is a session, and else waits for a tenth of a
/// second. After that opening has failed. A new wait has had no look.
pub proof fn looks_are_taken_one_by_one(
    new: OpenWait,
    wait: &mut OpenWait,
    has_session: bool,
    step: OpenStep,
)
    requires
        call_ensures(OpenWait::new, (), new),
        call_ensures(OpenWait::step, (wait, has_session), step),
    ensures
        new.attempts_spec() == 0,
        old(wait).attempts_spec() >= 100 ==> step == OpenStep::Fail(TransportError::OpenTimeout),
        old(wait).attempts_spec() < 100 && has_session ==> step == OpenStep::Ready,
        old(wait).attempts_spec() < 100 && !has_session ==> step == OpenStep::Wait(100)
            && final(wait).attempts_spec() == old(wait).attempts_spec() + 1,
{
}

/// Opening succeeds at the first of a hundred looks that finds a session, and takes a
/// tenth of a second for each look before that. Where no look finds one it fails,
/// after ten seconds.
pub proof fn opening_takes_ten_seconds(looks: spec_fn(int) -> bool, first: int)
    requires
        0 <= first <= 100,
        forall|i: int| 0 <= i < first ==> !(#[trigger] looks(i)),
        first < 100 ==> looks(first),
    ensures
        opens(0, looks) <==> first < 100,
        waited(0, looks) == 100 * first,
{
    lemma_opening(looks, 0, first);
}

proof fn lemma_opening(looks: spec_fn(int) -> bool, attempts: int, first: int)
    requires
        0 <= attempts <= first <= 100,
        forall|i: int| 0 <= i < first ==> !(#[trigger] looks(i)),
        first < 100 ==> looks(first),
    ensures
        opens(attempts, looks) <==> first < 100,
        waited(attempts, looks) == 100 * (first - attempts),
    decreases first - attempts,
{
    if attempts < first {
        assert(!looks(attempts));
        lemma_opening(looks, attempts + 1, first);
    }
}

} // verus!
