//! The JSON-RPC messages that the transports carry.
use vstd::prelude::*;

verus! {

/// A JSON value of the `serde_json` crate. The transports carry such values
/// through and never look inside one.
#[verifier::external_type_specification]
#[verifier::external_body]
pub struct ExValue(serde_json::Value);

/// What ties a response to its request.
pub type RequestId = u64;

/// The version tag of a message. There is one version.
#[derive(Debug, Clone, Copy, PartialEq, Eq, Structural)]
pub struct JsonRpcVersion;

/// Why a request failed.
#[derive(Debug)]
pub struct JsonRpcError {
    pub code: i32,
    pub message: String,
    pub data: Option<serde_json::Value>,
}

/// A call that asks for a response.
#[derive(Debug)]
pub struct JsonRpcRequest {
    pub id: RequestId,
    pub method: String,
    pub jsonrpc: JsonRpcVersion,
    pub params: Option<serde_json::Value>,
}

/// A call that asks for no response.
#[derive(Debug)]
pub struct JsonRpcNotification {
    pub jsonrpc: JsonRpcVersion,
    pub method: String,
    pub params: Option<serde_json::Value>,
}

/// The answer to a request.
#[derive(Debug)]
pub struct JsonRpcResponse {
    pub id: RequestId,
    pub result: Option<serde_json::Value>,
    pub error: Option<JsonRpcError>,
    pub jsonrpc: JsonRpcVersion,
}

/// Any message.
#[derive(Debug)]
pub enum Message {
    Request(JsonRpcRequest),
    Notification(JsonRpcNotification),
    Response(JsonRpcResponse),
}

/// The request with the given id, method and parameters.
pub fn request_message(
    id: RequestId,
    method: String,
    params: Option<serde_json::Value>,
) -> (request: JsonRpcRequest)
    ensures
        request == (JsonRpcRequest { id, method, jsonrpc: JsonRpcVersion, params }),
{
    JsonRpcRequest { id, method, jsonrpc: JsonRpcVersion, params }
}

/// The notification with the given method and parameters.
pub fn notification_message(
    method: &str,
    params: Option<serde_json::Value>,
) -> (notification: JsonRpcNotification)
    ensures
        notification.method@ == method@,
        notification.params == params,
        notification.jsonrpc == JsonRpcVersion,
{
    JsonRpcNotification { jsonrpc: JsonRpcVersion, method: method.to_owned(), params }
}

/// The response with the given parts.
pub fn response_message(
    id: RequestId,
    result: Option<serde_json::Value>,
    error: Option<JsonRpcError>,
) -> (response: JsonRpcResponse)
    ensures
        response == (JsonRpcResponse { id, result, error, jsonrpc: JsonRpcVersion }),
{
    JsonRpcResponse { id, result, error, jsonrpc: JsonRpcVersion }
}

/// Whether `response` reports to the caller of request `id` that no response
/// came, under the number `code` and in the words `text`.
pub open spec fn reports_timeout(
    response: JsonRpcResponse,
    id: RequestId,
    code: i32,
    text: Seq<char>,
) -> bool {
    &&& response.id == id
    &&& response.result is None
    &&& response.error matches Some(error)
    &&& error.code == code
    &&& error.message@ == text
    &&& error.data is None
    &&& response.jsonrpc == JsonRpcVersion
}

/// The response that stands in for one that did not come.
pub fn timeout_response(id: RequestId, code: i32, text: &str) -> (response: JsonRpcResponse)
    ensures
        reports_timeout(response, id, code, text@),
{
    let error = JsonRpcError { code, message: text.to_owned(), data: None };
    JsonRpcResponse { id, result: None, error: Some(error), jsonrpc: JsonRpcVersion }
}

} // verus!
