//! How requests and deliveries go, from their beginning to what the caller gets.
use vstd::prelude::*;

#[allow(unused_imports)]
use crate::call::{call_step, delivery_step, CallState};
use crate::call::{
    settle, CallAction, CallEvent, Delivery, DeliveryAction, DeliveryEvent, RequestCall,
    Settlement, WaitOutcome,
};
use crate::error::{HttpStatus, Operation, TransportError};
use crate::jsonrpc::{JsonRpcResponse, RequestId};
use crate::sse::ClientSseTransport;
use crate::stdio::ServerStdioTransport;

verus! {

/// Whether a request takes this step.
pub open spec fn takes(
    before: RequestCall,
    event: CallEvent,
    after: RequestCall,
    action: Option<CallAction>,
) -> bool {
    call_ensures(RequestCall::step, (before, event), (after, action))
}

/// Whether a delivery takes this step.
pub open spec fn delivers(
    before: Delivery,
    event: DeliveryEvent,
    after: Delivery,
    action: Option<DeliveryAction>,
) -> bool {
    call_ensures(Delivery::step, (before, event), (after, action))
}

/// A request and the steps that it takes, one after the other.
pub open spec fn takes_all(
    calls: Seq<RequestCall>,
    events: Seq<CallEvent>,
    actions: Seq<Option<CallAction>>,
) -> bool {
    &&& calls.len() == events.len() + 1
    &&& actions.len() == events.len()
    &&& forall|i: int|
        #![trigger events[i]]
        0 <= i < events.len() ==> takes(calls[i], events[i], calls[i + 1], actions[i])
}

/// Whether an event is the first that gives a request its id.
pub open spec fn is_first_id(events: Seq<CallEvent>, i: int) -> bool {
    &&& 0 <= i < events.len()
    &&& events[i] is Created
    &&& forall|j: int| 0 <= j < i ==> !((#[trigger] events[j]) is Created)
}

proof fn lemma_creating(
    calls: Seq<RequestCall>,
    events: Seq<CallEvent>,
    actions: Seq<Option<CallAction>>,
    n: int,
)
    requires
        takes_all(calls, events, actions),
        calls[0].state is Creating,
        0 <= n <= events.len(),
    ensures
        calls[n].over_http == calls[0].over_http,
        calls[n].timeout_code == calls[0].timeout_code,
        calls[n].state is Creating <==> forall|j: int|
            0 <= j < n ==> !((#[trigger] events[j]) is Created),
        calls[n].state is Creating ==> calls[n].state == calls[0].state,
    decreases n,
{
    if n > 0 {
        lemma_creating(calls, events, actions, n - 1);
        assert(takes(calls[n - 1], events[n - 1], calls[n], actions[n - 1]));
        assert(call_step(calls[n - 1], events[n - 1], calls[n], actions[n - 1]));
        if calls[n].state is Creating {
            assert forall|j: int| 0 <= j < n implies !((#[trigger] events[j]) is Created) by {
                assert(calls[n - 1].state is Creating);
            }
        }
    }
}

/// A request goes out as it was made, whichever steps it takes: once it has an id it
/// is sent, over HTTP or written out, with that id, its method and its parameters;
/// and nothing else is ever sent for it.
pub proof fn requests_go_out_as_made(
    calls: Seq<RequestCall>,
    events: Seq<CallEvent>,
    actions: Seq<Option<CallAction>>,
    method: String,
    params: Option<serde_json::Value>,
    i: int,
)
    requires
        takes_all(calls, events, actions),
        calls[0].state == (CallState::Creating { method, params }),
        0 <= i < events.len(),
    ensures
        actions[i] matches Some(CallAction::Post(request)) ==> {
            &&& calls[0].over_http
            &&& is_first_id(events, i)
            &&& events[i] == CallEvent::Created(request.id)
            &&& request.method == method
            &&& request.params == params
        },
        actions[i] matches Some(CallAction::Write(request)) ==> {
            &&& !calls[0].over_http
            &&& is_first_id(events, i)
            &&& events[i] == CallEvent::Created(request.id)
            &&& request.method == method
            &&& request.params == params
        },
        is_first_id(events, i) ==> actions[i] is Some && (if calls[0].over_http {
            actions[i].unwrap() is Post
        } else {
            actions[i].unwrap() is Write
        }),
{
    lemma_creating(calls, events, actions, i);
    assert(takes(calls[i], events[i], calls[i + 1], actions[i]));
    assert(call_step(calls[i], events[i], calls[i + 1], actions[i]));
}

/// What the client is asked to request is what it posts.
pub proof fn client_posts_what_is_asked<P>(
    transport: &ClientSseTransport<P>,
    method: &str,
    params: Option<serde_json::Value>,
    timeout_code: i32,
    call: RequestCall,
    id: RequestId,
    next: RequestCall,
    action: Option<CallAction>,
)
    requires
        call_ensures(
            ClientSseTransport::<P>::request,
            (transport, method, params, timeout_code),
            call,
        ),
        takes(call, CallEvent::Created(id), next, action),
    ensures
        call.over_http,
        call.timeout_code == timeout_code,
        action matches Some(CallAction::Post(request)) && {
            &&& request.id == id
            &&& request.method@ == method@
            &&& request.params == params
        },
{
    assert(call_step(call, CallEvent::Created(id), next, action));
}

/// What the server is asked to request is what it writes out.
pub proof fn server_writes_what_is_asked<P>(
    transport: &ServerStdioTransport<P>,
    method: &str,
    params: Option<serde_json::Value>,
    timeout_code: i32,
    call: RequestCall,
    id: RequestId,
    next: RequestCall,
    action: Option<CallAction>,
)
    requires
        call_ensures(
            ServerStdioTransport::<P>::request,
            (transport, method, params, timeout_code),
            call,
        ),
        takes(call, CallEvent::Created(id), next, action),
    ensures
        !call.over_http,
        call.timeout_code == timeout_code,
        action matches Some(CallAction::Write(request)) && {
            &&& request.id == id
            &&& request.method@ == method@
            &&& request.params == params
        },
{
    assert(call_step(call, CallEvent::Created(id), next, action));
}

/// Both ways of beginning a request keep what it is made of.
pub proof fn calls_begin_with_their_parts(
    method: String,
    params: Option<serde_json::Value>,
    timeout_code: i32,
    over_http: RequestCall,
    over_stdio: RequestCall,
)
    requires
        call_ensures(RequestCall::over_http, (method, params, timeout_code), over_http),
        call_ensures(RequestCall::over_stdio, (method, params, timeout_code), over_stdio),
    ensures
        over_http.over_http,
        over_http.timeout_code == timeout_code,
        over_http.state == (CallState::Creating { method, params }),
        !over_stdio.over_http,
        over_stdio.timeout_code == timeout_code,
        over_stdio.state == (CallState::Creating { method, params }),
{
}

/// Whether an event says that the request got through.
pub open spec fn gets_through(over_http: bool, event: CallEvent) -> bool {
    if over_http {
        event matches CallEvent::Delivery(DeliveryEvent::Replied(status)) && 200
            <= status.code_spec() <= 299
    } else {
        event == CallEvent::Written
    }
}

/// Whether a response tells the caller of request `id` that none came.
pub open spec fn stands_in(
    response: JsonRpcResponse,
    id: RequestId,
    code: i32,
    text: Seq<char>,
) -> bool {
    &&& response.id == id
    &&& response.result is None
    &&& response.error matches Some(error) && {
        &&& error.code == code
        &&& error.message@ == text
        &&& error.data is None
    }
}

/// A request that gets through is waited for, under its id. The response that comes
/// is what the caller gets, as it is. Where none comes, the request is taken back,
/// and the caller gets an error with the number for that.
pub proof fn request_that_gets_through(
    created: RequestCall,
    id: RequestId,
    sending: RequestCall,
    send: Option<CallAction>,
    event: CallEvent,
    waiting: RequestCall,
    wait: Option<CallAction>,
    outcome: WaitOutcome,
    waited: RequestCall,
    then: Option<CallAction>,
    over: RequestCall,
    last: Option<CallAction>,
)
    requires
        created.state is Creating,
        takes(created, CallEvent::Created(id), sending, send),
        gets_through(created.over_http, event),
        takes(sending, event, waiting, wait),
        takes(waiting, CallEvent::Waited(outcome), waited, then),
        takes(waited, CallEvent::Cancelled, over, last),
    ensures
        wait == Some(CallAction::Await(id)),
        match outcome {
            WaitOutcome::Answered(response) => then == Some(
                CallAction::Return(Ok::<JsonRpcResponse, TransportError>(response)),
            ) && last is None,
            WaitOutcome::Dropped => then == Some(CallAction::Cancel(id)) && (last matches Some(
                CallAction::Return(Ok(response)),
            ) && stands_in(response, id, created.timeout_code, "Request cancelled"@)),
            WaitOutcome::TimedOut => then == Some(CallAction::Cancel(id)) && (last matches Some(
                CallAction::Return(Ok(response)),
            ) && stands_in(
                response,
                id,
                created.timeout_code,
                if created.over_http {
                    "Request timed out"@
                } else {
                    "Request cancelled"@
                },
            )),
        },
{
    assert(call_step(created, CallEvent::Created(id), sending, send));
    assert(call_step(sending, event, waiting, wait));
    assert(call_step(waiting, CallEvent::Waited(outcome), waited, then));
    assert(call_step(waited, CallEvent::Cancelled, over, last));
}

/// A request that does not get through is not waited for: the caller gets the error
/// that was met, or the status and the whole text with which the server refused.
pub proof fn request_that_does_not_get_through(
    created: RequestCall,
    id: RequestId,
    sending: RequestCall,
    send: Option<CallAction>,
    event: CallEvent,
    next: RequestCall,
    action: Option<CallAction>,
    then: CallEvent,
    over: RequestCall,
    last: Option<CallAction>,
)
    requires
        created.state is Creating,
        takes(created, CallEvent::Created(id), sending, send),
        takes(sending, event, next, action),
        takes(next, then, over, last),
    ensures
        created.over_http ==> match event {
            CallEvent::Delivery(DeliveryEvent::Withheld(error)) => action == Some(
                CallAction::Return(Err::<JsonRpcResponse, TransportError>(error)),
            ),
            CallEvent::Delivery(DeliveryEvent::Unsent(text)) => action == Some(
                CallAction::Return(
                    Err::<JsonRpcResponse, TransportError>(TransportError::Connection(text)),
                ),
            ),
            CallEvent::Delivery(DeliveryEvent::Replied(status)) => 200 <= status.code_spec()
                <= 299 || action == Some(CallAction::Read) && match then {
                CallEvent::Delivery(DeliveryEvent::Read(body)) => last == Some(
                    CallAction::Return(
                        Err::<JsonRpcResponse, TransportError>(
                            TransportError::Rejected {
                                operation: Operation::Request,
                                status,
                                body,
                            },
                        ),
                    ),
                ),
                CallEvent::Delivery(DeliveryEvent::Unread(text)) => last == Some(
                    CallAction::Return(
                        Err::<JsonRpcResponse, TransportError>(TransportError::Connection(text)),
                    ),
                ),
                _ => last is None,
            },
            _ => action is None,
        },
        !created.over_http ==> match event {
            CallEvent::Unwritten(text) => action == Some(
                CallAction::Return(
                    Err::<JsonRpcResponse, TransportError>(TransportError::Output(text)),
                ),
            ),
            CallEvent::Written => action == Some(CallAction::Await(id)),
            _ => action is None,
        },
{
    assert(call_step(created, CallEvent::Created(id), sending, send));
    assert(call_step(sending, event, next, action));
    assert(call_step(next, then, over, last));
}

/// A message is delivered exactly if the server replies with a success. Else the
/// error is the one that was met, or names the operation, the status and the whole
/// text with which the server refused.
pub proof fn deliveries_report_what_came(
    operation: Operation,
    begun: Delivery,
    event: DeliveryEvent,
    next: Delivery,
    action: Option<DeliveryAction>,
    then: DeliveryEvent,
    over: Delivery,
    last: Option<DeliveryAction>,
)
    requires
        call_ensures(Delivery::new, (operation,), begun),
        delivers(begun, event, next, action),
        delivers(next, then, over, last),
    ensures
        match event {
            DeliveryEvent::Withheld(error) => action == Some(DeliveryAction::Failed(error)),
            DeliveryEvent::Unsent(text) => action == Some(
                DeliveryAction::Failed(TransportError::Connection(text)),
            ),
            DeliveryEvent::Replied(status) => if 200 <= status.code_spec() <= 299 {
                action == Some(DeliveryAction::Delivered)
            } else {
                &&& action == Some(DeliveryAction::Read)
                &&& match then {
                    DeliveryEvent::Read(body) => last == Some(
                        DeliveryAction::Failed(
                            TransportError::Rejected { operation, status, body },
                        ),
                    ),
                    DeliveryEvent::Unread(text) => last == Some(
                        DeliveryAction::Failed(TransportError::Connection(text)),
                    ),
                    _ => last is None,
                }
            },
            _ => action is None,
        },
{
}

/// Statuses are three-digit numbers, and those that begin with a two report success.
pub proof fn success_is_two_hundred(
    code: u16,
    made: Option<HttpStatus>,
    status: HttpStatus,
    number: u16,
    success: bool,
)
    requires
        call_ensures(HttpStatus::new, (code,), made),
        call_ensures(HttpStatus::code, (&status,), number),
        call_ensures(HttpStatus::is_success, (&status,), success),
    ensures
        made is Some <==> 100 <= code <= 999,
        made == Some(status) ==> number == code,
        number == status.code_spec(),
        success <==> number / 100 == 2,
{
}

/// A wait is settled with the response that came, as it is, or else with an error
/// that names the request; only then is the request to be taken back.
pub proof fn waits_are_settled(
    id: RequestId,
    outcome: WaitOutcome,
    over_http: bool,
    timeout_code: i32,
    settlement: Settlement,
)
    requires
        call_ensures(settle, (id, outcome, over_http, timeout_code), settlement),
    ensures
        settlement.cancel <==> !(outcome is Answered),
        match outcome {
            WaitOutcome::Answered(response) => settlement.response == response,
            WaitOutcome::Dropped => stands_in(
                settlement.response,
                id,
                timeout_code,
                "Request cancelled"@,
            ),
            WaitOutcome::TimedOut => stands_in(
                settlement.response,
                id,
                timeout_code,
                if over_http {
                    "Request timed out"@
                } else {
                    "Request cancelled"@
                },
            ),
        },
{
}

} // verus!
