//! The server transport: it talks to the client that launched it over standard
//! input and output, a message to a line.
use vstd::prelude::*;
use vstd::string::*;

use crate::call::RequestCall;
#[allow(unused_imports)]
use crate::call::CallState;
#[allow(unused_imports)]
use crate::jsonrpc::JsonRpcVersion;
use crate::jsonrpc::{
    notification_message, response_message, JsonRpcError, JsonRpcNotification, JsonRpcResponse,
    RequestId,
};

verus! {

/// An error of the `serde_json` crate.
#[verifier::external_type_specification]
#[verifier::external_body]
pub struct ExJsonError(serde_json::Error);

/// A server on standard input and output. The protocol handles what comes in.
pub struct ServerStdioTransport<P> {
    protocol: P,
}

impl<P> ServerStdioTransport<P> {
    /// The protocol that handles what comes in.
    pub closed spec fn protocol_spec(&self) -> P {
        self.protocol
    }

    /// A server whose messages `protocol` handles.
    pub fn new(protocol: P) -> (transport: ServerStdioTransport<P>)
        ensures
            transport.protocol_spec() == protocol,
    {
        ServerStdioTransport { protocol }
    }

    /// The protocol that handles what comes in.
    pub fn protocol(&self) -> (protocol: &P)
        ensures
            *protocol == self.protocol_spec(),
    {
        &self.protocol
    }

    /// Takes in a line as it was read, its end included. Only at the end of the
    /// input is there nothing to read.
    pub fn poll_message(&self, line: String) -> (step: LineStep)
        ensures
            step == line_step(line),
    {
        if line.as_str().is_empty() {
            LineStep::EndOfInput
        } else {
            LineStep::Decode(line)
        }
    }

    /// Begins a request to the client. Where no response comes, its caller is told
    /// so under the number `timeout_code`.
    pub fn request(
        &self,
        method: &str,
        params: Option<serde_json::Value>,
        timeout_code: i32,
    ) -> (call: RequestCall)
        ensures
            !call.over_http,
            call.timeout_code == timeout_code,
            call.state matches CallState::Creating { method: m, params: p } && m@ == method@ && p
                == params,
    {
        RequestCall::over_stdio(method.to_owned(), params, timeout_code)
    }

    /// The notification to be written to the client.
    pub fn send_notification(&self, method: &str, params: Option<serde_json::Value>) -> (
        notification: JsonRpcNotification)
        ensures
            notification.method@ == method@,
            notification.params == params,
            notification.jsonrpc == JsonRpcVersion,
    {
        notification_message(method, params)
    }

    /// The response to be written to the client.
    pub fn send_response(
        &self,
        id: RequestId,
        result: Option<serde_json::Value>,
        error: Option<JsonRpcError>,
    ) -> (response: JsonRpcResponse)
        ensures
            response == (JsonRpcResponse { id, result, error, jsonrpc: JsonRpcVersion }),
    {
        response_message(id, result, error)
    }
}

/// What a poll is to do with a line of input.
#[derive(Debug)]
pub enum LineStep {
    /// The input is over.
    EndOfInput,
    /// The poll brings the message that this JSON text holds.
    Decode(String),
}

/// What a line calls for.
pub open spec fn line_step(line: String) -> LineStep {
    if line@.len() == 0 {
        LineStep::EndOfInput
    } else {
        LineStep::Decode(line)
    }
}

/// The line that a message is written as: its JSON text, or nothing where it has
/// none, and the end of the line.
pub open spec fn framed(serialized: Result<String, serde_json::Error>) -> Seq<char> {
    match serialized {
        Ok(text) => text@ + "\n"@,
        Err(_) => "\n"@,
    }
}

/// The line that a message is written as.
pub fn frame(serialized: Result<String, serde_json::Error>) -> (line: String)
    ensures
        line@ == framed(serialized),
{
    match serialized {
        Ok(text) => text.concat("\n"),
        Err(_) => "\n".to_owned(),
    }
}

/// A message takes one line: where its text has no line end, the line that it is
/// written as has one, at its end.
pub proof fn message_is_one_line(text: String, at: int)
    requires
        !text@.contains('\n'),
        0 <= at < framed(Ok(text)).len(),
    ensures
        framed(Ok(text))[at] == '\n' <==> at == framed(Ok(text)).len() - 1,
{
    reveal_strlit("\n");
    if at < text@.len() {
        assert(text@.contains(text@[at]));
    }
}

/// What was written is read back: the line of a message is never taken for the end
/// of the input, and without its end it is the message's text.
pub proof fn written_message_is_read(text: String, line: String)
    requires
        line@ == framed(Ok(text)),
    ensures
        line_step(line) == LineStep::Decode(line),
        line@.drop_last() == text@,
{
    reveal_strlit("\n");
    assert(line@.drop_last() =~= text@);
}

} // verus!
