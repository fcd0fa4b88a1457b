//! What can go wrong on a transport, and how it is worded.
use vstd::prelude::*;
use vstd::string::*;

verus! {

/// The status of an HTTP response.
#[derive(Debug, Clone, Copy)]
pub struct HttpStatus {
    code: u16,
}

impl HttpStatus {
    #[verifier::type_invariant]
    spec fn in_range(self) -> bool {
        100 <= self.code <= 999
    }

    /// The number of the status.
    pub closed spec fn code_spec(self) -> u16 {
        self.code
    }

    /// The status with the number `code`: three digits, the first of them no zero.
    pub fn new(code: u16) -> (status: Option<HttpStatus>)
        ensures
            status is Some <==> 100 <= code <= 999,
            status matches Some(s) ==> s.code_spec() == code,
    {
        if 100 <= code && code <= 999 {
            Some(HttpStatus { code })
        } else {
            None
        }
    }

    /// The number of the status.
    pub fn code(&self) -> (code: u16)
        ensures
            code == self.code_spec(),
            100 <= code <= 999,
    {
        proof {
            use_type_invariant(self);
        }
        self.code
    }

    /// Whether the status reports success.
    pub fn is_success(&self) -> (r: bool)
        ensures
            r == (200 <= self.code_spec() < 300),
    {
        200 <= self.code && self.code < 300
    }
}

/// The text of the status with number `code`, as the `http` crate words it.
pub uninterp spec fn status_text(code: u16) -> Seq<char>;

/// `reqwest::StatusCode::from_u16` followed by the `Display` of `StatusCode`: the
/// number and its canonical reason. `from_u16` takes the numbers 100 to 999, so
/// the unwrap cannot fail; the text is a function of the number alone.
#[verifier::external_body]
fn status_line(code: u16) -> (line: String)
    requires
        100 <= code <= 999,
    ensures
        line@ == status_text(code),
{
    format!("{}", reqwest::StatusCode::from_u16(code).unwrap())
}

/// What is sent to the server.
#[derive(Debug, Clone, Copy, PartialEq, Eq, Structural)]
pub enum Operation {
    Request,
    Response,
    Notification,
}

impl Operation {
    /// What an operation is called.
    pub open spec fn name_spec(self) -> Seq<char> {
        match self {
            Operation::Request => "request"@,
            Operation::Response => "response"@,
            Operation::Notification => "notification"@,
        }
    }

    /// What the operation is called.
    pub fn name(self) -> (name: &'static str)
        ensures
            name@ == self.name_spec(),
    {
        match self {
            Operation::Request => "request",
            Operation::Response => "response",
            Operation::Notification => "notification",
        }
    }
}

/// Why an operation of a transport failed.
#[derive(Debug)]
pub enum TransportError {
    /// The transport has no event stream.
    NotOpened,
    /// There is no request that an event stream could send.
    NoRequest,
    /// The server has not announced an endpoint.
    NoSession,
    /// The server announced no endpoint while the transport was being opened.
    OpenTimeout,
    /// The event stream failed; the detail is that of the stream's own error.
    Stream(String),
    /// A message could not be sent, or the reply to it not be read; the text is the
    /// connection's own error.
    Connection(String),
    /// A message could not be written out; the text is the stream's own error.
    Output(String),
    /// The server did not accept what was posted.
    Rejected { operation: Operation, status: HttpStatus, body: String },
}

impl TransportError {
    /// The wording of an error.
    pub open spec fn wording(self) -> Seq<char> {
        match self {
            TransportError::NotOpened => "Transport not opened"@,
            TransportError::NoRequest => "expected a cloneable request"@,
            TransportError::NoSession => "No session URL available"@,
            TransportError::OpenTimeout => "Timeout waiting for initial SSE message"@,
            TransportError::Stream(detail) => "Failed to parse SSE message: "@ + detail@,
            TransportError::Connection(detail) => detail@,
            TransportError::Output(detail) => detail@,
            TransportError::Rejected { operation, status, body } => "Failed to send "@
                + operation.name_spec() + ", status: "@ + status_text(status.code_spec())
                + ", body: "@ + body@,
        }
    }

    /// The wording of the error.
    pub fn message(&self) -> (text: String)
        ensures
            text@ == self.wording(),
    {
        match self {
            TransportError::NotOpened => "Transport not opened".to_owned(),
            TransportError::NoRequest => "expected a cloneable request".to_owned(),
            TransportError::NoSession => "No session URL available".to_owned(),
            TransportError::OpenTimeout => "Timeout waiting for initial SSE message".to_owned(),
            TransportError::Stream(detail) => "Failed to parse SSE message: ".to_owned().concat(
                detail.as_str(),
            ),
            TransportError::Connection(detail) => detail.clone(),
            TransportError::Output(detail) => detail.clone(),
            TransportError::Rejected { operation, status, body } => rejection(
                *operation,
                status_line(status.code()).as_str(),
                body.as_str(),
            ),
        }
    }
}

/// How a refusal with the status line `status` and the reply `body` is worded.
pub fn rejection(operation: Operation, status: &str, body: &str) -> (text: String)
    ensures
        text@ == "Failed to send "@ + operation.name_spec() + ", status: "@ + status@ + ", body: "@
            + body@,
{
    let mut text = "Failed to send ".to_owned();
    text.append(operation.name());
    text.append(", status: ");
    text.append(status);
    text.append(", body: ");
    text.append(body);
    text
}

} // verus!
