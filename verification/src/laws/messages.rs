//! What messages are made of, how they are framed and taken in, and how errors are
//! worded.
use vstd::prelude::*;

use crate::call::Delivery;
use crate::endpoint::session_endpoint;
use crate::error::{rejection, Operation, TransportError};
#[allow(unused_imports)]
use crate::error::status_text;
use crate::jsonrpc::{
    notification_message, request_message, response_message, timeout_response, JsonRpcError,
    JsonRpcNotification, JsonRpcRequest, JsonRpcResponse, Message, RequestId,
};
use crate::listen::{reply, route, ListenAction};
use crate::sse::{ClientSseTransport, PollStep, StreamEvent};
#[allow(unused_imports)]
use crate::sse::session_after;
use crate::stdio::{frame, LineStep, ServerStdioTransport};

verus! {

/// Messages hold the parts that they are made of.
pub proof fn messages_hold_their_parts(
    id: RequestId,
    method: String,
    name: &str,
    params: Option<serde_json::Value>,
    result: Option<serde_json::Value>,
    error: Option<JsonRpcError>,
    request: JsonRpcRequest,
    notification: JsonRpcNotification,
    response: JsonRpcResponse,
)
    requires
        call_ensures(request_message, (id, method, params), request),
        call_ensures(notification_message, (name, params), notification),
        call_ensures(response_message, (id, result, error), response),
    ensures
        request.id == id,
        request.method == method,
        request.params == params,
        notification.method@ == name@,
        notification.params == params,
        response.id == id,
        response.result == result,
        response.error == error,
{
}

/// A response that stands in for one that did not come names the request and holds
/// the number and the whole text, and no result.
pub proof fn timeout_is_worded(
    id: RequestId,
    code: i32,
    text: &str,
    response: JsonRpcResponse,
)
    requires
        call_ensures(timeout_response, (id, code, text), response),
    ensures
        response.id == id,
        response.result is None,
        response.error matches Some(error) && {
            &&& error.code == code
            &&& error.message@ == text@
            &&& error.data is None
        },
{
}

/// What the client sends holds the parts that it was given, and is reported under
/// its own name where it is refused.
pub proof fn client_sends_what_it_is_given<P>(
    transport: &ClientSseTransport<P>,
    id: RequestId,
    result: Option<serde_json::Value>,
    error: Option<JsonRpcError>,
    response: (JsonRpcResponse, Delivery),
    method: &str,
    params: Option<serde_json::Value>,
    notification: (JsonRpcNotification, Delivery),
)
    requires
        call_ensures(
            ClientSseTransport::<P>::send_response,
            (transport, id, result, error),
            response,
        ),
        call_ensures(
            ClientSseTransport::<P>::send_notification,
            (transport, method, params),
            notification,
        ),
    ensures
        response.0.id == id,
        response.0.result == result,
        response.0.error == error,
        response.1 == Delivery::Posting(Operation::Response),
        notification.0.method@ == method@,
        notification.0.params == params,
        notification.1 == Delivery::Posting(Operation::Notification),
{
}

/// What the server sends holds the parts that it was given.
pub proof fn server_sends_what_it_is_given<P>(
    protocol: P,
    transport: ServerStdioTransport<P>,
    held: &P,
    id: RequestId,
    result: Option<serde_json::Value>,
    error: Option<JsonRpcError>,
    response: JsonRpcResponse,
    method: &str,
    params: Option<serde_json::Value>,
    notification: JsonRpcNotification,
)
    requires
        call_ensures(ServerStdioTransport::<P>::new, (protocol,), transport),
        call_ensures(ServerStdioTransport::<P>::protocol, (&transport,), held),
        call_ensures(
            ServerStdioTransport::<P>::send_response,
            (&transport, id, result, error),
            response,
        ),
        call_ensures(
            ServerStdioTransport::<P>::send_notification,
            (&transport, method, params),
            notification,
        ),
    ensures
        *held == protocol,
        response.id == id,
        response.result == result,
        response.error == error,
        notification.method@ == method@,
        notification.params == params,
{
}

/// Every message goes to the handler of its kind as it is, and every response goes
/// out with its parts.
pub proof fn messages_are_routed_whole<E>(
    message: Message,
    routed: ListenAction<E>,
    response: JsonRpcResponse,
    replied: ListenAction<E>,
)
    requires
        call_ensures(route::<E>, (message,), routed),
        call_ensures(reply::<E>, (response,), replied),
    ensures
        message matches Message::Request(m) ==> routed == ListenAction::<E>::HandleRequest(m),
        message matches Message::Notification(m) ==> routed == ListenAction::<
            E,
        >::HandleNotification(m),
        message matches Message::Response(m) ==> routed == ListenAction::<E>::HandleResponse(m),
        replied matches ListenAction::SendResponse { id, result, error } && id == response.id
            && result == response.result && error == response.error,
{
}

/// A message is written as its whole text and the end of the line; one without a text
/// as the end of the line alone.
pub proof fn line_is_text_and_end(serialized: Result<String, serde_json::Error>, line: String)
    requires
        call_ensures(frame, (serialized,), line),
    ensures
        line@.len() > 0,
        line@.last() == '\n',
        line@.drop_last() == match serialized {
            Ok(text) => text@,
            Err(_) => Seq::empty(),
        },
{
    reveal_strlit("\n");
    match serialized {
        Ok(text) => {
            assert(line@.drop_last() =~= text@);
        },
        Err(_) => {
            assert(line@.drop_last() =~= Seq::empty());
        },
    }
}

/// A line is handed on as it was read; nothing at all is the end of the input.
pub proof fn lines_are_handed_on<P>(
    transport: &ServerStdioTransport<P>,
    line: String,
    step: LineStep,
)
    requires
        call_ensures(ServerStdioTransport::<P>::poll_message, (transport, line), step),
    ensures
        line@.len() > 0 ==> step == LineStep::Decode(line),
        line@.len() == 0 ==> step == LineStep::EndOfInput,
{
}

/// The data of every message of the stream that is no announcement is handed on as
/// it came. A poll brings nothing only for an announcement and for a stream that was
/// opened or is over, and fails only where there is no stream or the stream did.
pub proof fn stream_messages_are_handed_on<P>(
    transport: &mut ClientSseTransport<P>,
    event: StreamEvent,
    step: PollStep,
)
    requires
        call_ensures(ClientSseTransport::<P>::poll_message, (transport, event), step),
    ensures
        match event {
            StreamEvent::Message { event: name, data } => if name@ == "endpoint"@ {
                step is Nothing
            } else {
                step == PollStep::Decode(data)
            },
            StreamEvent::Opened => step is Nothing,
            StreamEvent::Ended => step is Nothing,
            StreamEvent::Missing => step == PollStep::Fail(TransportError::NotOpened),
            StreamEvent::Failed(detail) => step == PollStep::Fail(TransportError::Stream(detail)),
        },
{
}

/// An announcement gives the session the endpoint that it names. No other event
/// touches the session, and none touches the settings or the protocol.
pub proof fn announcements_set_the_session<P>(
    transport: &mut ClientSseTransport<P>,
    event: StreamEvent,
    step: PollStep,
    data: String,
    endpoint: String,
)
    requires
        call_ensures(ClientSseTransport::<P>::poll_message, (transport, event), step),
        call_ensures(session_endpoint, (data,), endpoint),
    ensures
        announces(event) && event->data == data ==> final(transport)@.session == Some(endpoint@),
        !announces(event) ==> final(transport)@.session == old(transport)@.session,
        final(transport)@.config == old(transport)@.config,
        final(transport)@.protocol == old(transport)@.protocol,
{
}

/// Closing ends the session and leaves all else as it was.
pub proof fn closing_ends_the_session<P>(transport: &mut ClientSseTransport<P>)
    requires
        call_ensures(ClientSseTransport::<P>::close, (transport,), ()),
    ensures
        final(transport)@.session is None,
        final(transport)@.config == old(transport)@.config,
        final(transport)@.protocol == old(transport)@.protocol,
{
}

/// Whether an event of the stream announces an endpoint.
pub open spec fn announces(event: StreamEvent) -> bool {
    event matches StreamEvent::Message { event: name, .. } && name@ == "endpoint"@
}

/// The sessions of a transport that takes in events, one after the other.
pub open spec fn takes_in(sessions: Seq<Option<Seq<char>>>, events: Seq<StreamEvent>) -> bool {
    &&& sessions.len() == events.len() + 1
    &&& forall|i: int|
        #![trigger events[i]]
        0 <= i < events.len() ==> sessions[i + 1] == session_after(sessions[i], events[i])
}

/// The session is the endpoint that was announced last, whatever came before it and
/// whatever but announcements came after it.
pub proof fn session_is_announced_last(
    sessions: Seq<Option<Seq<char>>>,
    events: Seq<StreamEvent>,
    at: int,
    name: String,
    data: String,
    endpoint: String,
)
    requires
        takes_in(sessions, events),
        0 <= at < events.len(),
        events[at] == (StreamEvent::Message { event: name, data }),
        name@ == "endpoint"@,
        call_ensures(session_endpoint, (data,), endpoint),
        forall|i: int| at < i < events.len() ==> !announces(#[trigger] events[i]),
    ensures
        sessions.last() == Some(endpoint@),
    decreases events.len(),
{
    let n = events.len() as int;
    assert(sessions[n] == session_after(sessions[n - 1], events[n - 1]));
    if at < n - 1 {
        let past = events.drop_last();
        let earlier = sessions.drop_last();
        assert forall|i: int|
            #![trigger past[i]]
            0 <= i < past.len() implies earlier[i + 1] == session_after(earlier[i], past[i]) by {
            assert(past[i] == events[i]);
        }
        assert forall|i: int| at < i < past.len() implies !announces(#[trigger] past[i]) by {
            assert(past[i] == events[i]);
        }
        session_is_announced_last(earlier, past, at, name, data, endpoint);
        assert(!announces(events[n - 1]));
    }
}

/// Where nothing is announced the session stays as it was.
pub proof fn session_stays_without_announcement(
    sessions: Seq<Option<Seq<char>>>,
    events: Seq<StreamEvent>,
)
    requires
        takes_in(sessions, events),
        forall|i: int| 0 <= i < events.len() ==> !announces(#[trigger] events[i]),
    ensures
        sessions.last() == sessions[0],
    decreases events.len(),
{
    let n = events.len() as int;
    if n > 0 {
        assert(sessions[n] == session_after(sessions[n - 1], events[n - 1]));
        assert(!announces(events[n - 1]));
        let past = events.drop_last();
        let earlier = sessions.drop_last();
        assert forall|i: int|
            #![trigger past[i]]
            0 <= i < past.len() implies earlier[i + 1] == session_after(earlier[i], past[i]) by {
            assert(past[i] == events[i]);
        }
        assert forall|i: int| 0 <= i < past.len() implies !announces(#[trigger] past[i]) by {
            assert(past[i] == events[i]);
        }
        session_stays_without_announcement(earlier, past);
    }
}

/// What is sent is called by its name.
pub open spec fn word(operation: Operation) -> Seq<char> {
    match operation {
        Operation::Request => "request"@,
        Operation::Response => "response"@,
        Operation::Notification => "notification"@,
    }
}

/// Errors are worded with all that they hold: a refusal names what was sent, the
/// status and the whole text of the reply; an error of the stream follows its words
/// whole; an error of the connection or of the output is its own wording.
pub proof fn errors_are_worded_whole(error: &TransportError, text: String)
    requires
        call_ensures(TransportError::message, (error,), text),
    ensures
        match *error {
            TransportError::NotOpened => text@ == "Transport not opened"@,
            TransportError::NoRequest => text@ == "expected a cloneable request"@,
            TransportError::NoSession => text@ == "No session URL available"@,
            TransportError::OpenTimeout => text@ == "Timeout waiting for initial SSE message"@,
            TransportError::Stream(detail) => text@ == "Failed to parse SSE message: "@ + detail@,
            TransportError::Connection(detail) => text@ == detail@,
            TransportError::Output(detail) => text@ == detail@,
            TransportError::Rejected { operation, status, body } => text@ == "Failed to send "@
                + word(operation) + ", status: "@ + status_text(status.code_spec())
                + ", body: "@ + body@,
        },
{
}

/// A refusal is worded with what was sent, the status and the whole text of the
/// reply.
pub proof fn refusals_are_worded_whole(
    operation: Operation,
    name: &'static str,
    status: &str,
    body: &str,
    text: String,
)
    requires
        call_ensures(Operation::name, (operation,), name),
        call_ensures(rejection, (operation, status, body), text),
    ensures
        name@ == word(operation),
        text@ == "Failed to send "@ + word(operation) + ", status: "@ + status@ + ", body: "@
            + body@,
{
}

} // verus!
