use mcp_core::call::{
    settle, CallAction, CallEvent, CallState, Delivery, DeliveryAction, DeliveryEvent, RequestCall,
    WaitOutcome,
};
use mcp_core::error::{rejection, HttpStatus, Operation, TransportError};
use mcp_core::jsonrpc::{
    notification_message, request_message, response_message, timeout_response, JsonRpcResponse,
    JsonRpcVersion, Message,
};
use mcp_core::listen::{
    next_for_client, next_for_server, ListenAction, ListenEvent, OpenStep, OpenWait,
};
use mcp_core::sse::ClientSseTransportBuilder;
use mcp_core::stdio::{frame, LineStep, ServerStdioTransport};

fn status(code: u16) -> HttpStatus {
    HttpStatus::new(code).unwrap()
}

fn value(n: u64) -> serde_json::Value {
    serde_json::Value::from(n)
}

fn response(id: u64) -> JsonRpcResponse {
    response_message(id, Some(value(id)), None)
}

/// The number under which a timeout is reported here.
const TIMEOUT: i32 = -7;

fn assert_timeout(response: &JsonRpcResponse, id: u64, text: &str) {
    assert_eq!(response.id, id);
    assert!(response.result.is_none());
    let error = response.error.as_ref().unwrap();
    assert_eq!(error.code, TIMEOUT);
    assert_eq!(error.message, text);
    assert!(error.data.is_none());
}

#[test]
fn statuses() {
    assert!(HttpStatus::new(99).is_none());
    assert!(HttpStatus::new(1000).is_none());
    assert_eq!(status(100).code(), 100);
    assert_eq!(status(999).code(), 999);
    assert!(!status(199).is_success());
    assert!(status(200).is_success());
    assert!(status(299).is_success());
    assert!(!status(300).is_success());
    for code in 100..1000 {
        let theirs = reqwest::StatusCode::from_u16(code).unwrap();
        assert_eq!(status(code).is_success(), theirs.is_success());
    }
}

#[test]
fn wording_of_errors() {
    assert_eq!(TransportError::NotOpened.message(), "Transport not opened");
    assert_eq!(TransportError::NoSession.message(), "No session URL available");
    assert_eq!(
        TransportError::OpenTimeout.message(),
        "Timeout waiting for initial SSE message"
    );
    let rejected = |operation, code| {
        TransportError::Rejected { operation, status: status(code), body: "no".to_string() }.message()
    };
    assert_eq!(
        rejected(Operation::Request, 404),
        "Failed to send request, status: 404 Not Found, body: no"
    );
    assert_eq!(
        rejected(Operation::Response, 500),
        "Failed to send response, status: 500 Internal Server Error, body: no"
    );
    assert_eq!(
        rejected(Operation::Notification, 599),
        "Failed to send notification, status: 599 <unknown status code>, body: no"
    );
    assert_eq!(TransportError::Connection("reset".to_string()).message(), "reset");
    assert_eq!(TransportError::Output("broken pipe".to_string()).message(), "broken pipe");
    assert_eq!(TransportError::NoRequest.message(), "expected a cloneable request");
    assert_eq!(
        rejection(Operation::Request, "S", "B"),
        "Failed to send request, status: S, body: B"
    );
}

#[test]
fn messages() {
    let request = request_message(7, "m".to_string(), Some(value(1)));
    assert_eq!((request.id, request.method.as_str(), request.params), (7, "m", Some(value(1))));
    assert_eq!(request.jsonrpc, JsonRpcVersion);
    let notification = notification_message("n", None);
    assert_eq!(notification.method, "n");
    assert!(notification.params.is_none());
    let answer = response_message(3, None, None);
    assert_eq!(answer.id, 3);
    assert!(answer.result.is_none() && answer.error.is_none());
    assert_timeout(&timeout_response(4, TIMEOUT, "t"), 4, "t");
}

#[test]
fn settlements() {
    let settled = settle(1, WaitOutcome::Answered(response(9)), true, TIMEOUT);
    assert_eq!(settled.response.id, 9);
    assert!(!settled.cancel);
    let settled = settle(1, WaitOutcome::Dropped, true, TIMEOUT);
    assert_timeout(&settled.response, 1, "Request cancelled");
    assert!(settled.cancel);
    let settled = settle(1, WaitOutcome::TimedOut, true, TIMEOUT);
    assert_timeout(&settled.response, 1, "Request timed out");
    let settled = settle(1, WaitOutcome::TimedOut, false, TIMEOUT);
    assert_timeout(&settled.response, 1, "Request cancelled");
    assert!(settled.cancel);
}

#[test]
fn delivered_message() {
    let (state, action) =
        Delivery::new(Operation::Response).step(DeliveryEvent::Replied(status(202)));
    assert!(matches!(action, Some(DeliveryAction::Delivered)));
    let (state, action) = state.step(DeliveryEvent::Replied(status(500)));
    assert!(matches!((state, action), (Delivery::Over, None)));
}

#[test]
fn refused_message() {
    let (state, action) =
        Delivery::new(Operation::Notification).step(DeliveryEvent::Replied(status(404)));
    assert!(matches!(action, Some(DeliveryAction::Read)));
    let (_, action) = state.step(DeliveryEvent::Read("gone".to_string()));
    match action {
        Some(DeliveryAction::Failed(error)) => assert_eq!(
            error.message(),
            "Failed to send notification, status: 404 Not Found, body: gone"
        ),
        other => panic!("{:?}", other),
    }
}

#[test]
fn withheld_message() {
    let (_, action) =
        Delivery::new(Operation::Request).step(DeliveryEvent::Withheld(TransportError::NoSession));
    assert!(matches!(action, Some(DeliveryAction::Failed(TransportError::NoSession))));
}

#[test]
fn request_that_is_answered() {
    let call = RequestCall::over_http("m".to_string(), None, TIMEOUT);
    let (call, action) = call.step(CallEvent::Created(5));
    match action {
        Some(CallAction::Post(request)) => {
            assert_eq!(request.id, 5);
            assert_eq!(request.method, "m");
        }
        other => panic!("{:?}", other),
    }
    let (call, action) = call.step(CallEvent::Delivery(DeliveryEvent::Replied(status(200))));
    assert!(matches!(action, Some(CallAction::Await(5))));
    let (call, action) = call.step(CallEvent::Waited(WaitOutcome::Answered(response(5))));
    match action {
        Some(CallAction::Return(Ok(answer))) => assert_eq!(answer.result, Some(value(5))),
        other => panic!("{:?}", other),
    }
    assert!(matches!(call.state, CallState::Over));
}

#[test]
fn request_that_times_out() {
    for over_http in [true, false] {
        let call = if over_http {
            RequestCall::over_http("m".to_string(), None, TIMEOUT)
        } else {
            RequestCall::over_stdio("m".to_string(), None, TIMEOUT)
        };
        let (call, _) = call.step(CallEvent::Created(5));
        let (call, action) = if over_http {
            call.step(CallEvent::Delivery(DeliveryEvent::Replied(status(200))))
        } else {
            call.step(CallEvent::Written)
        };
        assert!(matches!(action, Some(CallAction::Await(5))));
        let (call, action) = call.step(CallEvent::Waited(WaitOutcome::TimedOut));
        assert!(matches!(action, Some(CallAction::Cancel(5))));
        let (call, action) = call.step(CallEvent::Cancelled);
        let text = if over_http { "Request timed out" } else { "Request cancelled" };
        match action {
            Some(CallAction::Return(Ok(answer))) => assert_timeout(&answer, 5, text),
            other => panic!("{:?}", other),
        }
        assert!(matches!(call.state, CallState::Over));
    }
}

#[test]
fn request_whose_response_is_dropped() {
    let (call, action) =
        RequestCall::over_stdio("m".to_string(), Some(value(2)), TIMEOUT).step(CallEvent::Created(6));
    match action {
        Some(CallAction::Write(request)) => assert_eq!(request.params, Some(value(2))),
        other => panic!("{:?}", other),
    }
    let (call, _) = call.step(CallEvent::Written);
    let (call, _) = call.step(CallEvent::Waited(WaitOutcome::Dropped));
    match call.step(CallEvent::Cancelled).1 {
        Some(CallAction::Return(Ok(answer))) => assert_timeout(&answer, 6, "Request cancelled"),
        other => panic!("{:?}", other),
    }
}

#[test]
fn request_that_is_refused() {
    let (call, _) = RequestCall::over_http("m".to_string(), None, TIMEOUT).step(CallEvent::Created(5));
    let (call, action) = call.step(CallEvent::Delivery(DeliveryEvent::Replied(status(503))));
    assert!(matches!(action, Some(CallAction::Read)));
    let (call, action) =
        call.step(CallEvent::Delivery(DeliveryEvent::Read("busy".to_string())));
    match action {
        Some(CallAction::Return(Err(error))) => assert_eq!(
            error.message(),
            "Failed to send request, status: 503 Service Unavailable, body: busy"
        ),
        other => panic!("{:?}", other),
    }
    assert!(matches!(call.state, CallState::Over));
}

#[test]
fn request_without_a_session() {
    let (call, _) = RequestCall::over_http("m".to_string(), None, TIMEOUT).step(CallEvent::Created(5));
    let withheld = DeliveryEvent::Withheld(TransportError::NoSession);
    let (_, action) = call.step(CallEvent::Delivery(withheld));
    assert!(matches!(action, Some(CallAction::Return(Err(TransportError::NoSession)))));
}

#[test]
fn message_that_cannot_be_sent() {
    let (state, action) =
        Delivery::new(Operation::Response).step(DeliveryEvent::Unsent("refused".to_string()));
    match action {
        Some(DeliveryAction::Failed(error)) => assert_eq!(error.message(), "refused"),
        other => panic!("{:?}", other),
    }
    assert!(matches!(state, Delivery::Over));
}

#[test]
fn reply_that_cannot_be_read() {
    let (state, _) = Delivery::new(Operation::Response).step(DeliveryEvent::Replied(status(400)));
    let (state, action) = state.step(DeliveryEvent::Unread("reset".to_string()));
    match action {
        Some(DeliveryAction::Failed(error)) => assert_eq!(error.message(), "reset"),
        other => panic!("{:?}", other),
    }
    assert!(matches!(state, Delivery::Over));
}

#[test]
fn request_that_cannot_be_sent() {
    let (call, _) = RequestCall::over_http("m".to_string(), None, TIMEOUT).step(CallEvent::Created(5));
    let unsent = DeliveryEvent::Unsent("refused".to_string());
    let (call, action) = call.step(CallEvent::Delivery(unsent));
    match action {
        Some(CallAction::Return(Err(TransportError::Connection(text)))) => {
            assert_eq!(text, "refused")
        }
        other => panic!("{:?}", other),
    }
    assert!(matches!(call.state, CallState::Over));
}

#[test]
fn request_that_cannot_be_written() {
    let (call, _) = RequestCall::over_stdio("m".to_string(), None, TIMEOUT).step(CallEvent::Created(5));
    let (call, action) = call.step(CallEvent::Unwritten("broken pipe".to_string()));
    match action {
        Some(CallAction::Return(Err(TransportError::Output(text)))) => {
            assert_eq!(text, "broken pipe")
        }
        other => panic!("{:?}", other),
    }
    assert!(matches!(call.state, CallState::Over));
    let (_, action) = call.step(CallEvent::Waited(WaitOutcome::TimedOut));
    assert!(action.is_none());
}

#[test]
fn run_of_the_server_answers_in_order() {
    let mut polls = vec![
        ListenEvent::Received(Message::Request(request_message(1, "a".to_string(), None))),
        ListenEvent::Received(Message::Notification(notification_message("n", None))),
        ListenEvent::PollFailed,
        ListenEvent::Received(Message::Response(response(7))),
        ListenEvent::Received(Message::Request(request_message(2, "b".to_string(), None))),
        ListenEvent::Nothing,
        ListenEvent::Received(Message::Request(request_message(3, "c".to_string(), None))),
    ]
    .into_iter();
    let mut log = Vec::new();
    let mut action = ListenAction::<String>::Poll;
    loop {
        let event = match action {
            ListenAction::Poll => {
                log.push("poll".to_string());
                polls.next().unwrap()
            }
            ListenAction::HandleRequest(request) => ListenEvent::Answered(response(request.id)),
            ListenAction::SendResponse { id, .. } => {
                log.push(format!("send {}", id));
                ListenEvent::Sent
            }
            ListenAction::Finish => break,
            _ => ListenEvent::Handled,
        };
        action = next_for_server(event);
    }
    assert_eq!(log, vec!["poll", "send 1", "poll", "poll", "poll", "poll", "send 2", "poll"]);
}

#[test]
fn events_out_of_place_change_nothing() {
    let (call, action) = RequestCall::over_http("m".to_string(), None, TIMEOUT).step(CallEvent::Written);
    assert!(action.is_none());
    assert!(matches!(call.state, CallState::Creating { .. }));
    let (call, _) = call.step(CallEvent::Created(1));
    let (call, action) = call.step(CallEvent::Cancelled);
    assert!(action.is_none());
    assert!(matches!(call.state, CallState::Posting { id: 1, .. }));
}

#[test]
fn messages_are_routed() {
    for next in [next_for_client::<String>, next_for_server::<String>] {
        let request = Message::Request(request_message(1, "r".to_string(), None));
        match next(ListenEvent::Received(request)) {
            ListenAction::HandleRequest(request) => assert_eq!(request.method, "r"),
            other => panic!("{:?}", other),
        }
        let notification = Message::Notification(notification_message("n", None));
        match next(ListenEvent::Received(notification)) {
            ListenAction::HandleNotification(notification) => assert_eq!(notification.method, "n"),
            other => panic!("{:?}", other),
        }
        match next(ListenEvent::Received(Message::Response(response(8)))) {
            ListenAction::HandleResponse(response) => assert_eq!(response.id, 8),
            other => panic!("{:?}", other),
        }
        match next(ListenEvent::Answered(response(8))) {
            ListenAction::SendResponse { id, result, error } => {
                assert_eq!((id, result), (8, Some(value(8))));
                assert!(error.is_none());
            }
            other => panic!("{:?}", other),
        }
        assert!(matches!(next(ListenEvent::Handled), ListenAction::Poll));
        assert!(matches!(next(ListenEvent::Sent), ListenAction::Poll));
    }
}

#[test]
fn ends_of_the_loops() {
    let client = next_for_client::<String>;
    assert!(matches!(client(ListenEvent::Nothing), ListenAction::Poll));
    assert!(matches!(client(ListenEvent::SendFailed("e".to_string())), ListenAction::Poll));
    assert!(matches!(client(ListenEvent::PollFailed), ListenAction::Rest(1000)));
    assert!(matches!(client(ListenEvent::Rested), ListenAction::Poll));
    let server = next_for_server::<String>;
    assert!(matches!(server(ListenEvent::Nothing), ListenAction::Finish));
    match server(ListenEvent::SendFailed("broken pipe".to_string())) {
        ListenAction::Abort(error) => assert_eq!(error, "broken pipe"),
        other => panic!("{:?}", other),
    }
    assert!(matches!(server(ListenEvent::PollFailed), ListenAction::Poll));
}

#[test]
fn opening_waits_for_the_session() {
    let mut wait = OpenWait::new();
    for _ in 0..99 {
        assert!(matches!(wait.step(false), OpenStep::Wait(100)));
    }
    assert!(matches!(wait.step(true), OpenStep::Ready));
}

#[test]
fn opening_gives_up() {
    let mut wait = OpenWait::new();
    let mut waited = 0;
    for _ in 0..100 {
        match wait.step(false) {
            OpenStep::Wait(millis) => waited += millis,
            other => panic!("{:?}", other),
        }
    }
    assert_eq!(waited, 10_000);
    // The last pause is not followed by another look.
    match wait.step(true) {
        OpenStep::Fail(error) => {
            assert_eq!(error.message(), "Timeout waiting for initial SSE message")
        }
        other => panic!("{:?}", other),
    }
}

fn poll_message(line: String) -> LineStep {
    ServerStdioTransport::new(()).poll_message(line)
}

#[test]
fn lines_of_input() {
    assert!(matches!(poll_message(String::new()), LineStep::EndOfInput));
    for line in ["\n", "{}\n", "{}"] {
        match poll_message(line.to_string()) {
            LineStep::Decode(text) => assert_eq!(text, line),
            other => panic!("{:?}", other),
        }
    }
}

#[test]
fn lines_of_output() {
    assert_eq!(frame(Ok("{\"a\":1}".to_string())), "{\"a\":1}\n");
    let error = serde_json::from_str::<serde_json::Value>("{").unwrap_err();
    assert_eq!(frame(Err(error)), "\n");
    match poll_message(frame(serde_json::to_string(&value(3)))) {
        LineStep::Decode(text) => {
            assert_eq!(serde_json::from_str::<serde_json::Value>(&text).unwrap(), value(3))
        }
        other => panic!("{:?}", other),
    }
}

#[test]
fn transports_keep_their_protocol() {
    let mut client = ClientSseTransportBuilder::new("http://h".to_string()).build("protocol");
    client.close();
    assert_eq!(*client.protocol(), "protocol");
    let transport = ServerStdioTransport::new("protocol");
    assert_eq!(*transport.protocol(), "protocol");
}

#[test]
fn sending_begins_with_the_message() {
    let server = ServerStdioTransport::new(());
    let call = server.request("m", None, TIMEOUT);
    assert!(!call.over_http);
    assert_eq!(call.timeout_code, TIMEOUT);
    assert_eq!(server.send_notification("n", Some(value(1))).params, Some(value(1)));
    assert_eq!(server.send_response(2, Some(value(3)), None).result, Some(value(3)));
    let client = ClientSseTransportBuilder::new("http://h/sse".to_string()).build(());
    let call = client.request("m", Some(value(4)), TIMEOUT);
    assert!(call.over_http);
    assert_eq!(call.timeout_code, TIMEOUT);
    match call.state {
        CallState::Creating { method, params } => {
            assert_eq!((method.as_str(), params), ("m", Some(value(4))))
        }
        other => panic!("{:?}", other),
    }
    let (notification, delivery) = client.send_notification("n", None);
    assert_eq!(notification.method, "n");
    assert!(matches!(delivery, Delivery::Posting(Operation::Notification)));
    let (response, delivery) = client.send_response(5, None, None);
    assert_eq!(response.id, 5);
    assert!(matches!(delivery, Delivery::Posting(Operation::Response)));
}
