//! What is sent and what is awaited, step by step: each step takes the outcome of
//! the last piece of outside work and names the next.
use vstd::prelude::*;

use crate::error::{HttpStatus, Operation, TransportError};
#[allow(unused_imports)]
use crate::jsonrpc::{reports_timeout, JsonRpcVersion};
use crate::jsonrpc::{request_message, timeout_response, JsonRpcRequest, JsonRpcResponse, RequestId};

verus! {

/// What came of waiting for a response.
#[derive(Debug)]
pub enum WaitOutcome {
    /// The response came.
    Answered(JsonRpcResponse),
    /// The response cannot come any more.
    Dropped,
    /// The response did not come in time.
    TimedOut,
}

/// What the caller of a request gets, and whether the request is to be cancelled
/// first.
#[derive(Debug)]
pub struct Settlement {
    pub response: JsonRpcResponse,
    pub cancel: bool,
}

/// The words for a request whose response cannot come.
pub open spec fn cancelled_text() -> Seq<char> {
    "Request cancelled"@
}

/// The words for a request whose response did not come in time. On standard
/// output both cases read the same.
pub open spec fn timed_out_text(over_http: bool) -> Seq<char> {
    if over_http {
        "Request timed out"@
    } else {
        "Request cancelled"@
    }
}

/// How a wait for the response to request `id` is settled, where `timeout_code` is the
/// number that says that no response came.
pub open spec fn settles(
    id: RequestId,
    outcome: WaitOutcome,
    over_http: bool,
    timeout_code: i32,
    settlement: Settlement,
) -> bool {
    match outcome {
        WaitOutcome::Answered(response) => {
            &&& settlement.response == response
            &&& !settlement.cancel
        },
        WaitOutcome::Dropped => {
            &&& reports_timeout(settlement.response, id, timeout_code, cancelled_text())
            &&& settlement.cancel
        },
        WaitOutcome::TimedOut => {
            &&& reports_timeout(settlement.response, id, timeout_code, timed_out_text(over_http))
            &&& settlement.cancel
        },
    }
}

/// Settles the wait for the response to request `id`.
pub fn settle(
    id: RequestId,
    outcome: WaitOutcome,
    over_http: bool,
    timeout_code: i32,
) -> (settlement: Settlement)
    ensures
        settles(id, outcome, over_http, timeout_code, settlement),
{
    match outcome {
        WaitOutcome::Answered(response) => Settlement { response, cancel: false },
        WaitOutcome::Dropped => Settlement {
            response: timeout_response(id, timeout_code, "Request cancelled"),
            cancel: true,
        },
        WaitOutcome::TimedOut => {
            let response = if over_http {
                timeout_response(id, timeout_code, "Request timed out")
            } else {
                timeout_response(id, timeout_code, "Request cancelled")
            };
            Settlement { response, cancel: true }
        },
    }
}

/// Where the delivery of a message by HTTP stands.
#[derive(Debug)]
pub enum Delivery {
    /// The message is being posted.
    Posting(Operation),
    /// The server refused it; the text of its reply is being read.
    Reading(Operation, HttpStatus),
    /// It is over.
    Over,
}

/// What came of a step of a delivery.
#[derive(Debug)]
pub enum DeliveryEvent {
    /// There was nowhere to post to.
    Withheld(TransportError),
    /// The message could not be sent; the text is the connection's error.
    Unsent(String),
    /// The server replied with this status.
    Replied(HttpStatus),
    /// The text of the reply is read.
    Read(String),
    /// The text of the reply could not be read; the text here is the connection's
    /// error.
    Unread(String),
}

/// What a delivery needs next.
#[derive(Debug)]
pub enum DeliveryAction {
    /// Read the text of the reply.
    Read,
    /// Nothing: the message is delivered.
    Delivered,
    /// Nothing: the delivery failed.
    Failed(TransportError),
}

/// A step of a delivery. An event that does not belong to the state changes
/// nothing and calls for nothing.
pub open spec fn delivery_step(state: Delivery, event: DeliveryEvent) -> (
    Delivery,
    Option<DeliveryAction>,
) {
    match (state, event) {
        (Delivery::Posting(_), DeliveryEvent::Withheld(error)) => (
            Delivery::Over,
            Some(DeliveryAction::Failed(error)),
        ),
        (Delivery::Posting(_), DeliveryEvent::Unsent(text)) => (
            Delivery::Over,
            Some(DeliveryAction::Failed(TransportError::Connection(text))),
        ),
        (Delivery::Posting(operation), DeliveryEvent::Replied(status)) => if 200
            <= status.code_spec() < 300 {
            (Delivery::Over, Some(DeliveryAction::Delivered))
        } else {
            (Delivery::Reading(operation, status), Some(DeliveryAction::Read))
        },
        (Delivery::Reading(operation, status), DeliveryEvent::Read(body)) => (
            Delivery::Over,
            Some(
                DeliveryAction::Failed(TransportError::Rejected { operation, status, body }),
            ),
        ),
        (Delivery::Reading(_, _), DeliveryEvent::Unread(text)) => (
            Delivery::Over,
            Some(DeliveryAction::Failed(TransportError::Connection(text))),
        ),
        (state, _) => (state, None),
    }
}

impl Delivery {
    /// A delivery that has just begun.
    pub fn new(operation: Operation) -> (delivery: Delivery)
        ensures
            delivery == Delivery::Posting(operation),
    {
        Delivery::Posting(operation)
    }

    /// Takes a step.
    pub fn step(self, event: DeliveryEvent) -> (next: (Delivery, Option<DeliveryAction>))
        ensures
            next == delivery_step(self, event),
    {
        match (self, event) {
            (Delivery::Posting(_), DeliveryEvent::Withheld(error)) => (
                Delivery::Over,
                Some(DeliveryAction::Failed(error)),
            ),
            (Delivery::Posting(_), DeliveryEvent::Unsent(text)) => (
                Delivery::Over,
                Some(DeliveryAction::Failed(TransportError::Connection(text))),
            ),
            (Delivery::Posting(operation), DeliveryEvent::Replied(status)) => {
                if status.is_success() {
                    (Delivery::Over, Some(DeliveryAction::Delivered))
                } else {
                    (Delivery::Reading(operation, status), Some(DeliveryAction::Read))
                }
            },
            (Delivery::Reading(operation, status), DeliveryEvent::Read(body)) => (
                Delivery::Over,
                Some(
                    DeliveryAction::Failed(
                        TransportError::Rejected { operation, status, body },
                    ),
                ),
            ),
            (Delivery::Reading(_, _), DeliveryEvent::Unread(text)) => (
                Delivery::Over,
                Some(DeliveryAction::Failed(TransportError::Connection(text))),
            ),
            (state, _) => (state, None),
        }
    }
}

/// Whether an event says that a message did not get through: there was nowhere to
/// post to, it could not be sent, or the server's status is no success.
pub open spec fn delivery_refused(event: DeliveryEvent) -> bool {
    match event {
        DeliveryEvent::Withheld(_) => true,
        DeliveryEvent::Unsent(_) => true,
        DeliveryEvent::Replied(status) => !(200 <= status.code_spec() < 300),
        _ => false,
    }
}

/// A message is delivered exactly if the server replies with a success. Else the
/// delivery fails: at once, or once the text of the reply is read or cannot be
/// read.
pub proof fn deliveries_end(operation: Operation, event: DeliveryEvent, then: DeliveryEvent)
    requires
        event is Withheld || event is Unsent || event is Replied,
        then is Read || then is Unread,
    ensures
        ({
            let (state, action) = delivery_step(Delivery::Posting(operation), event);
            let (last, outcome) = delivery_step(state, then);
            &&& action == Some(DeliveryAction::Delivered) <==> !delivery_refused(event)
            &&& delivery_refused(event) ==> ((action matches Some(DeliveryAction::Failed(_))) || (
            action == Some(DeliveryAction::Read) && (outcome matches Some(
                DeliveryAction::Failed(_),
            ))))
            &&& last == Delivery::Over
        }),
{
}

/// Where a request stands.
#[derive(Debug)]
pub enum CallState {
    /// The id of the request is being drawn, and its response registered for.
    Creating { method: String, params: Option<serde_json::Value> },
    /// The request is being posted.
    Posting { id: RequestId, delivery: Delivery },
    /// The request is being written out.
    Writing { id: RequestId },
    /// The response is being waited for.
    Waiting { id: RequestId },
    /// The registration is being taken back; the response stands in for the one
    /// that did not come.
    Cancelling { id: RequestId, response: JsonRpcResponse },
    /// It is over.
    Over,
}

/// A request and its way, over HTTP or over standard output, and the number under
/// which its caller is told that no response came.
#[derive(Debug)]
pub struct RequestCall {
    pub over_http: bool,
    pub timeout_code: i32,
    pub state: CallState,
}

/// What came of a step of a request.
#[derive(Debug)]
pub enum CallEvent {
    /// The request has this id.
    Created(RequestId),
    /// A step of the delivery by HTTP.
    Delivery(DeliveryEvent),
    /// The request is written out.
    Written,
    /// The request could not be written out; the text is the stream's error.
    Unwritten(String),
    /// The wait is over.
    Waited(WaitOutcome),
    /// The registration is taken back.
    Cancelled,
}

/// What a request needs next.
#[derive(Debug)]
pub enum CallAction {
    /// Post the request to the session's endpoint.
    Post(JsonRpcRequest),
    /// Write the request to standard output.
    Write(JsonRpcRequest),
    /// Read the text of the server's reply.
    Read,
    /// Wait for the response with this id.
    Await(RequestId),
    /// Take back the registration for the response with this id.
    Cancel(RequestId),
    /// Nothing: this is what the caller gets.
    Return(Result<JsonRpcResponse, TransportError>),
}

/// Where a request stands after a step of its delivery.
pub open spec fn posted(id: RequestId, delivery: Delivery, event: DeliveryEvent) -> (
    CallState,
    Option<CallAction>,
) {
    let (after, action) = delivery_step(delivery, event);
    match action {
        None => (CallState::Posting { id, delivery: after }, None),
        Some(DeliveryAction::Read) => (
            CallState::Posting { id, delivery: after },
            Some(CallAction::Read),
        ),
        Some(DeliveryAction::Delivered) => (CallState::Waiting { id }, Some(CallAction::Await(id))),
        Some(DeliveryAction::Failed(error)) => (
            CallState::Over,
            Some(CallAction::Return(Err(error))),
        ),
    }
}

/// A step of a request, from the state before and an event to the state after and
/// an action. An event that does not belong to the state changes nothing and calls
/// for nothing.
pub open spec fn call_step(
    before: RequestCall,
    event: CallEvent,
    after: RequestCall,
    action: Option<CallAction>,
) -> bool {
    &&& after.over_http == before.over_http
    &&& after.timeout_code == before.timeout_code
    &&& match (before.state, event) {
        (CallState::Creating { method, params }, CallEvent::Created(id)) => {
            let request = JsonRpcRequest { id, method, jsonrpc: JsonRpcVersion, params };
            if before.over_http {
                &&& after.state == (CallState::Posting {
                    id,
                    delivery: Delivery::Posting(Operation::Request),
                })
                &&& action == Some(CallAction::Post(request))
            } else {
                &&& after.state == (CallState::Writing { id })
                &&& action == Some(CallAction::Write(request))
            }
        },
        (CallState::Posting { id, delivery }, CallEvent::Delivery(event)) => (after.state, action)
            == posted(id, delivery, event),
        (CallState::Writing { id }, CallEvent::Written) => {
            &&& after.state == (CallState::Waiting { id })
            &&& action == Some(CallAction::Await(id))
        },
        (CallState::Writing { id }, CallEvent::Unwritten(text)) => {
            &&& after.state == CallState::Over
            &&& action == Some(CallAction::Return(Err(TransportError::Output(text))))
        },
        (CallState::Waiting { id }, CallEvent::Waited(outcome)) => match outcome {
            WaitOutcome::Answered(response) => {
                &&& after.state == CallState::Over
                &&& action == Some(CallAction::Return(Ok(response)))
            },
            WaitOutcome::Dropped => {
                &&& after.state matches CallState::Cancelling { id: same, response }
                &&& same == id
                &&& reports_timeout(response, id, before.timeout_code, cancelled_text())
                &&& action == Some(CallAction::Cancel(id))
            },
            WaitOutcome::TimedOut => {
                &&& after.state matches CallState::Cancelling { id: same, response }
                &&& same == id
                &&& reports_timeout(
                    response,
                    id,
                    before.timeout_code,
                    timed_out_text(before.over_http),
                )
                &&& action == Some(CallAction::Cancel(id))
            },
        },
        (CallState::Cancelling { id, response }, CallEvent::Cancelled) => {
            &&& after.state == CallState::Over
            &&& action == Some(CallAction::Return(Ok(response)))
        },
        (state, _) => {
            &&& after.state == state
            &&& action is None
        },
    }
}

impl RequestCall {
    /// A request to a server, over HTTP.
    pub fn over_http(
        method: String,
        params: Option<serde_json::Value>,
        timeout_code: i32,
    ) -> (call: RequestCall)
        ensures
            call == (RequestCall {
                over_http: true,
                timeout_code,
                state: CallState::Creating { method, params },
            }),
    {
        RequestCall { over_http: true, timeout_code, state: CallState::Creating { method, params } }
    }

    /// A request to a client, over standard output.
    pub fn over_stdio(
        method: String,
        params: Option<serde_json::Value>,
        timeout_code: i32,
    ) -> (call: RequestCall)
        ensures
            call == (RequestCall {
                over_http: false,
                timeout_code,
                state: CallState::Creating { method, params },
            }),
    {
        RequestCall { over_http: false, timeout_code, state: CallState::Creating { method, params } }
    }

    /// Takes a step.
    pub fn step(self, event: CallEvent) -> (next: (RequestCall, Option<CallAction>))
        ensures
            call_step(self, event, next.0, next.1),
    {
        let over_http = self.over_http;
        let timeout_code: i32 = self.timeout_code;
        let (state, action) = match (self.state, event) {
            (CallState::Creating { method, params }, CallEvent::Created(id)) => {
                let request = request_message(id, method, params);
                if over_http {
                    let delivery = Delivery::new(Operation::Request);
                    (CallState::Posting { id, delivery }, Some(CallAction::Post(request)))
                } else {
                    (CallState::Writing { id }, Some(CallAction::Write(request)))
                }
            },
            (CallState::Posting { id, delivery }, CallEvent::Delivery(event)) => {
                let (delivery, action) = delivery.step(event);
                match action {
                    None => (CallState::Posting { id, delivery }, None),
                    Some(DeliveryAction::Read) => (
                        CallState::Posting { id, delivery },
                        Some(CallAction::Read),
                    ),
                    Some(DeliveryAction::Delivered) => (
                        CallState::Waiting { id },
                        Some(CallAction::Await(id)),
                    ),
                    Some(DeliveryAction::Failed(error)) => (
                        CallState::Over,
                        Some(CallAction::Return(Err(error))),
                    ),
                }
            },
            (CallState::Writing { id }, CallEvent::Written) => (
                CallState::Waiting { id },
                Some(CallAction::Await(id)),
            ),
            (CallState::Writing { id: _ }, CallEvent::Unwritten(text)) => (
                CallState::Over,
                Some(CallAction::Return(Err(TransportError::Output(text)))),
            ),
            (CallState::Waiting { id }, CallEvent::Waited(outcome)) => {
                let settlement = settle(id, outcome, over_http, timeout_code);
                if settlement.cancel {
                    (
                        CallState::Cancelling { id, response: settlement.response },
                        Some(CallAction::Cancel(id)),
                    )
                } else {
                    (CallState::Over, Some(CallAction::Return(Ok(settlement.response))))
                }
            },
            (CallState::Cancelling { id: _, response }, CallEvent::Cancelled) => (
                CallState::Over,
                Some(CallAction::Return(Ok(response))),
            ),
            (state, _) => (state, None),
        };
        (RequestCall { over_http, timeout_code, state }, action)
    }
}

/// How many steps a request can still take.
pub open spec fn steps_left(state: CallState) -> nat {
    match state {
        CallState::Creating { .. } => 4,
        CallState::Posting { delivery, .. } => match delivery {
            Delivery::Posting(_) => 3,
            Delivery::Reading(_, _) => 1,
            Delivery::Over => 0,
        },
        CallState::Writing { .. } => 3,
        CallState::Waiting { .. } => 2,
        CallState::Cancelling { .. } => 1,
        CallState::Over => 0,
    }
}

/// The id of a request, once it has one.
pub open spec fn id_of(state: CallState) -> Option<RequestId> {
    match state {
        CallState::Posting { id, .. } => Some(id),
        CallState::Writing { id } => Some(id),
        CallState::Waiting { id } => Some(id),
        CallState::Cancelling { id, .. } => Some(id),
        _ => None,
    }
}

/// Every step brings a request closer to its end: it is over after four steps at
/// the most, and what the caller gets is the last thing that it calls for.
pub proof fn calls_end(
    before: RequestCall,
    event: CallEvent,
    after: RequestCall,
    action: Option<CallAction>,
)
    requires
        call_step(before, event, after, action),
    ensures
        steps_left(before.state) <= 4,
        action is Some ==> steps_left(after.state) < steps_left(before.state),
        action is None ==> after == before,
        (action matches Some(CallAction::Return(_))) <==> action is Some && after.state
            == CallState::Over,
{
}

/// A request keeps its id: the request that is sent, the response that is waited
/// for and the registration that is taken back all carry it.
pub proof fn calls_keep_their_id(
    before: RequestCall,
    event: CallEvent,
    after: RequestCall,
    action: Option<CallAction>,
)
    requires
        call_step(before, event, after, action),
    ensures
        id_of(before.state) is Some && id_of(after.state) is Some ==> id_of(after.state) == id_of(
            before.state,
        ),
        action matches Some(CallAction::Post(request)) ==> id_of(after.state) == Some(request.id),
        action matches Some(CallAction::Write(request)) ==> id_of(after.state) == Some(request.id),
        action matches Some(CallAction::Await(id)) ==> id_of(before.state) == Some(id),
        action matches Some(CallAction::Cancel(id)) ==> id_of(before.state) == Some(id),
{
}

/// The caller always hears of a request whose response fails to come: the request
/// is taken back, and what the caller then gets names that request, holds no result
/// and reports a timeout.
pub proof fn missing_response_is_reported(
    waiting: RequestCall,
    outcome: WaitOutcome,
    cancelling: RequestCall,
    cancel: Option<CallAction>,
    over: RequestCall,
    last: Option<CallAction>,
)
    requires
        waiting.state is Waiting,
        !(outcome is Answered),
        call_step(waiting, CallEvent::Waited(outcome), cancelling, cancel),
        call_step(cancelling, CallEvent::Cancelled, over, last),
    ensures
        ({
            let id = waiting.state->Waiting_id;
            let text = if outcome is TimedOut {
                timed_out_text(waiting.over_http)
            } else {
                cancelled_text()
            };
            &&& cancel == Some(CallAction::Cancel(id))
            &&& last matches Some(CallAction::Return(Ok(response)))
            &&& reports_timeout(response, id, waiting.timeout_code, text)
            &&& over.state == CallState::Over
        }),
{
}

/// A request that is not delivered is not waited for: the caller gets the error.
pub proof fn refused_request_is_not_awaited(
    posting: RequestCall,
    id: RequestId,
    status: HttpStatus,
    reading: RequestCall,
    read: Option<CallAction>,
    body: String,
    over: RequestCall,
    last: Option<CallAction>,
)
    requires
        posting.state == (CallState::Posting {
            id,
            delivery: Delivery::Posting(Operation::Request),
        }),
        !(200 <= status.code_spec() < 300),
        call_step(posting, CallEvent::Delivery(DeliveryEvent::Replied(status)), reading, read),
        call_step(reading, CallEvent::Delivery(DeliveryEvent::Read(body)), over, last),
    ensures
        read == Some(CallAction::Read),
        last == Some(
            CallAction::Return(
                Err(
                    TransportError::Rejected {
                        operation: Operation::Request,
                        status,
                        body,
                    },
                ),
            ),
        ),
        over.state == CallState::Over,
{
}

/// A request from its beginning on: the events in their order, where it stood
/// before and after each, and what each called for.
pub open spec fn call_run(
    events: Seq<CallEvent>,
    calls: Seq<RequestCall>,
    actions: Seq<Option<CallAction>>,
) -> bool {
    &&& calls.len() == events.len() + 1
    &&& actions.len() == events.len()
    &&& calls[0].state is Creating
    &&& forall|i: int|
        #![trigger events[i]]
        0 <= i < events.len() ==> call_step(calls[i], events[i], calls[i + 1], actions[i])
}

/// Whether an event says that a request did not get through.
pub open spec fn call_refused(event: CallEvent) -> bool {
    match event {
        CallEvent::Delivery(event) => delivery_refused(event),
        CallEvent::Unwritten(_) => true,
        _ => false,
    }
}

/// Whether the request was found not to have got through by the event at `i`. An
/// event out of place calls for nothing and tells nothing.
pub open spec fn refused_at(
    events: Seq<CallEvent>,
    actions: Seq<Option<CallAction>>,
    i: int,
) -> bool {
    actions[i] is Some && call_refused(events[i])
}

/// The id that an action carries.
pub open spec fn action_id(action: Option<CallAction>) -> Option<RequestId> {
    match action {
        Some(CallAction::Post(request)) => Some(request.id),
        Some(CallAction::Write(request)) => Some(request.id),
        Some(CallAction::Await(id)) => Some(id),
        Some(CallAction::Cancel(id)) => Some(id),
        _ => None,
    }
}

/// Whether the text of a refusal is being read.
pub open spec fn is_reading(state: CallState) -> bool {
    state matches CallState::Posting { delivery, .. } && delivery is Reading
}

/// What a request that is not over knows of its past.
spec fn knows_past(
    events: Seq<CallEvent>,
    calls: Seq<RequestCall>,
    actions: Seq<Option<CallAction>>,
    n: int,
) -> bool {
    let state = calls[n].state;
    &&& calls[n].over_http == calls[0].over_http
    &&& calls[n].timeout_code == calls[0].timeout_code
    &&& state matches CallState::Posting { delivery, .. } ==> !(delivery is Over)
        && calls[0].over_http
    &&& state is Writing ==> !calls[0].over_http
    &&& is_reading(state) <==> exists|i: int| 0 <= i < n && #[trigger] refused_at(events, actions, i)
    &&& forall|i: int|
        #![trigger actions[i]]
        0 <= i < n ==> {
            &&& actions[i] is Some && actions[i].unwrap() is Await ==> state is Waiting
                || state is Cancelling
            &&& actions[i] is Some && actions[i].unwrap() is Cancel ==> state is Cancelling
            &&& !(actions[i] is Some && actions[i].unwrap() is Return)
            &&& action_id(actions[i]) is Some ==> action_id(actions[i]) == id_of(state)
        }
    &&& state matches CallState::Cancelling { id, response } ==> (reports_timeout(
        response,
        id,
        calls[0].timeout_code,
        cancelled_text(),
    ) || reports_timeout(
        response,
        id,
        calls[0].timeout_code,
        timed_out_text(calls[0].over_http),
    ))
}

proof fn lemma_knows_past(
    events: Seq<CallEvent>,
    calls: Seq<RequestCall>,
    actions: Seq<Option<CallAction>>,
    n: int,
)
    requires
        call_run(events, calls, actions),
        0 <= n <= events.len(),
        calls[n].state != CallState::Over,
    ensures
        knows_past(events, calls, actions, n),
    decreases n,
{
    if n > 0 {
        let event = events[n - 1];
        let before = calls[n - 1];
        let after = calls[n];
        assert(call_step(before, event, after, actions[n - 1]));
        lemma_knows_past(events, calls, actions, n - 1);
        if refused_at(events, actions, n - 1) {
            assert(is_reading(after.state));
        }
        if is_reading(after.state) && !is_reading(before.state) {
            assert(refused_at(events, actions, n - 1));
        }
        if is_reading(before.state) {
            let i = choose|i: int| 0 <= i < n - 1 && #[trigger] refused_at(events, actions, i);
            assert(refused_at(events, actions, i));
        }
    }
}

/// What the caller of a request gets. It is an error exactly if the request did not
/// get through: there was no session, it could not be sent or written out, or the
/// server's status was no success. Then no response was waited for and no
/// registration taken back. Else it is the response that came, unchanged, and no
/// registration was taken back; or, where none came, a report of that under the
/// id of the request. Sessions and statuses matter over HTTP, writing out over
/// standard output.
pub proof fn calls_fail_if_refused(
    events: Seq<CallEvent>,
    calls: Seq<RequestCall>,
    actions: Seq<Option<CallAction>>,
    result: Result<JsonRpcResponse, TransportError>,
)
    requires
        call_run(events, calls, actions),
        events.len() > 0,
        actions.last() == Some(CallAction::Return(result)),
    ensures
        result is Err <==> exists|i: int|
            0 <= i < events.len() && #[trigger] refused_at(events, actions, i),
        result is Err ==> forall|i: int|
            0 <= i < actions.len() ==> !((#[trigger] actions[i]) matches Some(CallAction::Await(_)))
                && !(actions[i] matches Some(CallAction::Cancel(_))),
        events.last() matches CallEvent::Waited(WaitOutcome::Answered(response)) ==> {
            &&& result == Ok::<JsonRpcResponse, TransportError>(response)
            &&& forall|i: int|
                0 <= i < actions.len() ==> !((#[trigger] actions[i]) matches Some(
                    CallAction::Cancel(_),
                ))
        },
        result matches Ok(response) ==> events.last() == CallEvent::Waited(
            WaitOutcome::Answered(response),
        ) || {
            &&& reports_timeout(
                response,
                response.id,
                calls[0].timeout_code,
                cancelled_text(),
            ) || reports_timeout(
                response,
                response.id,
                calls[0].timeout_code,
                timed_out_text(calls[0].over_http),
            )
            &&& forall|i: int|
                0 <= i < actions.len() && action_id(#[trigger] actions[i]) is Some ==> action_id(
                    actions[i],
                ) == Some(response.id)
        },
        forall|i: int|
            0 <= i < events.len() && #[trigger] refused_at(events, actions, i) ==> (
            calls[0].over_http <==> events[i] is Delivery),
{
    let n = events.len() - 1;
    let before = calls[n];
    assert(call_step(before, events[n], calls[n + 1], actions[n]));
    lemma_knows_past(events, calls, actions, n);
    if result is Err {
        if is_reading(before.state) {
            let i = choose|i: int| 0 <= i < n && #[trigger] refused_at(events, actions, i);
            assert(refused_at(events, actions, i));
        } else {
            assert(refused_at(events, actions, n));
        }
    }
    assert forall|i: int|
        0 <= i < events.len() && #[trigger] refused_at(events, actions, i) implies (
    calls[0].over_http <==> events[i] is Delivery) by {
        assert(call_step(calls[i], events[i], calls[i + 1], actions[i]));
        lemma_knows_past(events, calls, actions, i);
    }
}

/// What is sent, awaited and taken back in the course of a request carries one id.
pub proof fn calls_have_one_id(
    events: Seq<CallEvent>,
    calls: Seq<RequestCall>,
    actions: Seq<Option<CallAction>>,
    i: int,
    j: int,
)
    requires
        call_run(events, calls, actions),
        0 <= i <= j < actions.len(),
        action_id(actions[i]) is Some,
        action_id(actions[j]) is Some,
    ensures
        action_id(actions[i]) == action_id(actions[j]),
{
    assert(call_step(calls[j], events[j], calls[j + 1], actions[j]));
    lemma_knows_past(events, calls, actions, j);
    if i < j {
        assert(action_id(actions[i]) == id_of(calls[j].state));
        calls_keep_their_id(calls[j], events[j], calls[j + 1], actions[j]);
    }
}

} // verus!
