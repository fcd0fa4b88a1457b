//! The client transport: it listens to the server over server-sent events and
//! posts its own messages over HTTP.
use vstd::prelude::*;
use vstd::string::*;

#[allow(unused_imports)]
use crate::call::CallState;
use crate::call::{Delivery, RequestCall};
#[allow(unused_imports)]
use crate::endpoint::{
    base_of, endpoint_of, path_endpoint_is_kept, scheme_mark, target_of, target_stays_on_origin,
};
use crate::endpoint::{session_endpoint, session_url};
use crate::error::{Operation, TransportError};
use crate::headers::HeaderTable;
#[allow(unused_imports)]
use crate::headers::{distinct_names, put, Line};
#[allow(unused_imports)]
use crate::http::{
    add_value, at_most, events_line, fresh_request, is_name, is_value, json_line, json_request,
    last_line_comes_last, lines_are_carried, lines_ignore_body, lines_leave_the_rest, lower,
    prepared_url, request_of, stream_of, with_line, with_lines, without_credentials, HttpRequest,
    MAX_NAMES,
};
use crate::http::{
    get_request, new_client, new_event_source, post_request, push_header, push_headers,
};
#[allow(unused_imports)]
use crate::jsonrpc::JsonRpcVersion;
use crate::jsonrpc::{
    notification_message, response_message, JsonRpcError, JsonRpcNotification, JsonRpcResponse,
    RequestId,
};
#[allow(unused_imports)]
use crate::text::find_from;

verus! {

/// `String: From<&str>`, of the standard library: a string with the same
/// characters.
pub assume_specification<'a>[ <String as From<&'a str>>::from ](s: &str) -> (text: String)
    ensures
        text@ == s@,
;

/// `From` from a type to itself, of the standard library: the value comes back
/// unchanged.
pub assume_specification<T>[ <T as From<T>>::from ](t: T) -> (r: T)
    ensures
        r == t,
;

/// How a transport reaches its server.
#[verifier::ext_equal]
pub struct SseConfig {
    pub server_url: Seq<char>,
    pub bearer_token: Option<Seq<char>>,
    pub headers: Seq<Line>,
}

/// A transport: the protocol that handles what comes in, how it reaches its server,
/// and the endpoint of its session.
#[verifier::ext_equal]
pub struct SseState<P> {
    pub protocol: P,
    pub config: SseConfig,
    pub session: Option<Seq<char>>,
}

/// The value of the authorization header for a token.
pub open spec fn bearer(token: Seq<char>) -> Seq<char> {
    "Bearer "@ + token
}

impl SseConfig {
    /// The header that carries the token, where there is one.
    pub open spec fn auth_lines(self) -> Seq<Line> {
        match self.bearer_token {
            Some(token) => seq![("Authorization"@, bearer(token))],
            None => Seq::empty(),
        }
    }

    /// The headers of every request: those that were configured, and the token
    /// behind them.
    pub open spec fn request_lines(self) -> Seq<Line> {
        self.headers + self.auth_lines()
    }
}

/// The request that opens the event stream; nothing where the URL or a header is
/// not accepted.
pub open spec fn stream_request_of(config: SseConfig) -> Option<HttpRequest> {
    with_lines(
        fresh_request("GET"@, prepared_url(config.server_url)),
        config.request_lines(),
    )
}

/// The request that posts a JSON text to an endpoint of the server; nothing where
/// the URL or a header is not accepted.
pub open spec fn post_request_of(
    config: SseConfig,
    endpoint: Seq<char>,
    text: Seq<char>,
) -> Option<HttpRequest> {
    with_lines(
        json_request(prepared_url(target_of(config.server_url, endpoint)), text),
        config.request_lines(),
    )
}

/// The most headers that requests can be built with, the token's among them.
pub const MAX_HEADERS: usize = 6551;

/// The value of the authorization header for `token`.
pub fn bearer_value(token: &str) -> (value: String)
    ensures
        value@ == bearer(token@),
{
    "Bearer ".to_owned().concat(token)
}

/// Collects the settings of a [`ClientSseTransport`].
pub struct ClientSseTransportBuilder {
    server_url: String,
    bearer_token: Option<String>,
    headers: HeaderTable,
}

/// The characters of a string that may be missing.
pub open spec fn text_of(text: Option<String>) -> Option<Seq<char>> {
    match text {
        Some(s) => Some(s@),
        None => None,
    }
}

impl View for ClientSseTransportBuilder {
    type V = SseConfig;

    closed spec fn view(&self) -> SseConfig {
        SseConfig {
            server_url: self.server_url@,
            bearer_token: text_of(self.bearer_token),
            headers: self.headers@,
        }
    }
}

impl ClientSseTransportBuilder {
    /// A builder for the server whose event stream is at `server_url`.
    pub fn new(server_url: String) -> (builder: ClientSseTransportBuilder)
        ensures
            builder@ == (SseConfig {
                server_url: server_url@,
                bearer_token: None,
                headers: Seq::empty(),
            }),
    {
        ClientSseTransportBuilder { server_url, bearer_token: None, headers: HeaderTable::new() }
    }

    /// Authenticates every request with `token`.
    pub fn with_bearer_token(self, token: String) -> (builder: ClientSseTransportBuilder)
        ensures
            builder@ == (SseConfig { bearer_token: Some(token@), ..self@ }),
    {
        ClientSseTransportBuilder {
            server_url: self.server_url,
            bearer_token: Some(token),
            headers: self.headers,
        }
    }

    /// Adds a header to every request. A name keeps the last value it was given.
    pub fn with_header(self, key: impl Into<String>, value: impl Into<String>) -> (builder:
        ClientSseTransportBuilder)
        ensures
            exists|k: String, v: String|
                #![trigger put(self@.headers, k@, v@)]
                {
                    &&& call_ensures(Into::into, (key,), k)
                    &&& call_ensures(Into::into, (value,), v)
                    &&& builder@ == (SseConfig { headers: put(self@.headers, k@, v@), ..self@ })
                },
            distinct_names(self@.headers),
            distinct_names(builder@.headers),
    {
        let k: String = key.into();
        let v: String = value.into();
        let ghost kept = k;
        let ghost set = v;
        let builder = ClientSseTransportBuilder {
            server_url: self.server_url,
            bearer_token: self.bearer_token,
            headers: self.headers.insert(k, v),
        };
        assert(builder@ == (SseConfig { headers: put(self@.headers, kept@, set@), ..self@ }));
        builder
    }

    /// The transport with these settings, whose messages `protocol` handles. It has no
    /// session yet.
    pub fn build<P>(self, protocol: P) -> (transport: ClientSseTransport<P>)
        ensures
            transport@ == (SseState { protocol, config: self@, session: None }),
    {
        ClientSseTransport {
            protocol,
            server_url: self.server_url,
            client: new_client(),
            bearer_token: self.bearer_token,
            session_endpoint: None,
            headers: self.headers,
        }
    }
}

/// A client of a server that sends events.
///
/// What the server sends comes in over one long request; what goes to the server
/// is posted to the endpoint that the server announced. The protocol handles what
/// comes in.
pub struct ClientSseTransport<P> {
    protocol: P,
    server_url: String,
    client: reqwest::Client,
    bearer_token: Option<String>,
    session_endpoint: Option<String>,
    headers: HeaderTable,
}

impl<P> View for ClientSseTransport<P> {
    type V = SseState<P>;

    closed spec fn view(&self) -> SseState<P> {
        SseState {
            protocol: self.protocol,
            config: SseConfig {
                server_url: self.server_url@,
                bearer_token: text_of(self.bearer_token),
                headers: self.headers@,
            },
            session: text_of(self.session_endpoint),
        }
    }
}

/// What came of asking the event stream for the next event.
#[derive(Debug)]
pub enum StreamEvent {
    /// There is no event stream to ask.
    Missing,
    /// The stream is connected.
    Opened,
    /// An event with its name and its data.
    Message { event: String, data: String },
    /// The stream is over.
    Ended,
    /// The stream failed; the text is its error.
    Failed(String),
}

/// What a poll is to do with an event.
#[derive(Debug)]
pub enum PollStep {
    /// The poll brings no message.
    Nothing,
    /// The poll brings the message that this JSON text holds.
    Decode(String),
    /// The poll fails.
    Fail(TransportError),
}

/// What an event calls for.
pub open spec fn poll_step(event: StreamEvent, step: PollStep) -> bool {
    match event {
        StreamEvent::Missing => step == PollStep::Fail(TransportError::NotOpened),
        StreamEvent::Opened => step == PollStep::Nothing,
        StreamEvent::Message { event: name, data } => if name@ == "endpoint"@ {
            step == PollStep::Nothing
        } else {
            step == PollStep::Decode(data)
        },
        StreamEvent::Ended => step == PollStep::Nothing,
        StreamEvent::Failed(detail) => step == PollStep::Fail(TransportError::Stream(detail)),
    }
}

/// The session after an event: an announcement sets it, nothing else touches it.
pub open spec fn session_after(
    session: Option<Seq<char>>,
    event: StreamEvent,
) -> Option<Seq<char>> {
    match event {
        StreamEvent::Message { event: name, data } => if name@ == "endpoint"@ {
            Some(endpoint_of(data@))
        } else {
            session
        },
        _ => session,
    }
}

impl ClientSseTransport<()> {
    /// A builder for the server whose event stream is at `url`. The transport gets its
    /// protocol when it is built.
    pub fn builder(url: String) -> (builder: ClientSseTransportBuilder)
        ensures
            builder@ == (SseConfig {
                server_url: url@,
                bearer_token: None,
                headers: Seq::empty(),
            }),
    {
        ClientSseTransportBuilder::new(url)
    }
}

impl<P> ClientSseTransport<P> {
    /// The protocol that handles what comes in.
    pub fn protocol(&self) -> (protocol: &P)
        ensures
            *protocol == self@.protocol,
    {
        &self.protocol
    }

    /// Whether requests can be built with the headers of this transport.
    pub fn can_build_requests(&self) -> (r: bool)
        ensures
            r == (self@.config.request_lines().len() <= MAX_HEADERS),
    {
        if self.bearer_token.is_some() {
            self.headers.len() < MAX_HEADERS
        } else {
            self.headers.len() <= MAX_HEADERS
        }
    }

    /// Whether the server has announced an endpoint.
    pub fn has_session(&self) -> (r: bool)
        ensures
            r == self@.session is Some,
    {
        self.session_endpoint.is_some()
    }

    /// The request that opens the event stream.
    pub fn stream_request(&self) -> (request: reqwest::RequestBuilder)
        requires
            self@.config.request_lines().len() <= MAX_HEADERS,
        ensures
            request_of(request) == stream_request_of(self@.config),
            !self@.config.server_url.contains('@') ==> without_credentials(
                prepared_url(self@.config.server_url),
            ),
            at_most(request, MAX_NAMES - 1),
    {
        let builder = get_request(&self.client, &self.server_url);
        self.with_own_headers(builder, Ghost(1))
    }

    /// Opens the event stream. It is sent for once it is polled.
    pub fn open(&self) -> (source: Result<reqwest_eventsource::EventSource, TransportError>)
        requires
            self@.config.request_lines().len() <= MAX_HEADERS,
        ensures
            ({
                let request = stream_request_of(self@.config);
                match source {
                    Ok(s) => request is Some && stream_of(s) == with_line(request, events_line()),
                    Err(error) => request is None && error == TransportError::NoRequest,
                }
            }),
    {
        proof {
            lines_leave_the_rest(
                fresh_request("GET"@, prepared_url(self@.config.server_url)),
                self@.config.request_lines(),
            );
        }
        match new_event_source(self.stream_request()) {
            Ok(source) => Ok(source),
            Err(_) => Err(TransportError::NoRequest),
        }
    }

    /// The request that posts the JSON text `text` to the session's endpoint.
    pub fn post(&self, text: String) -> (request: Result<reqwest::RequestBuilder, TransportError>)
        requires
            self@.config.request_lines().len() <= MAX_HEADERS,
        ensures
            match self@.session {
                None => request == Err::<reqwest::RequestBuilder, TransportError>(
                    TransportError::NoSession,
                ),
                Some(endpoint) => {
                    let url = target_of(self@.config.server_url, endpoint);
                    &&& request matches Ok(r)
                    &&& request_of(r) == post_request_of(self@.config, endpoint, text@)
                    &&& !url.contains('@') ==> without_credentials(prepared_url(url))
                },
            },
    {
        match &self.session_endpoint {
            None => Err(TransportError::NoSession),
            Some(endpoint) => {
                let url = session_url(self.server_url.as_str(), endpoint.as_str());
                let builder = post_request(&self.client, &url, text);
                Ok(self.with_own_headers(builder, Ghost(2)))
            },
        }
    }

    /// Begins a request to the server. Where no response comes, its caller is told
    /// so under the number `timeout_code`.
    pub fn request(
        &self,
        method: &str,
        params: Option<serde_json::Value>,
        timeout_code: i32,
    ) -> (call: RequestCall)
        ensures
            call.over_http,
            call.timeout_code == timeout_code,
            call.state matches CallState::Creating { method: m, params: p } && m@ == method@ && p
                == params,
    {
        RequestCall::over_http(method.to_owned(), params, timeout_code)
    }

    /// The response to be posted, and its delivery.
    pub fn send_response(
        &self,
        id: RequestId,
        result: Option<serde_json::Value>,
        error: Option<JsonRpcError>,
    ) -> (sending: (JsonRpcResponse, Delivery))
        ensures
            sending.0 == (JsonRpcResponse { id, result, error, jsonrpc: JsonRpcVersion }),
            sending.1 == Delivery::Posting(Operation::Response),
    {
        (response_message(id, result, error), Delivery::new(Operation::Response))
    }

    /// The notification to be posted, and its delivery.
    pub fn send_notification(&self, method: &str, params: Option<serde_json::Value>) -> (sending: (
        JsonRpcNotification,
        Delivery,
    ))
        ensures
            sending.0.method@ == method@,
            sending.0.params == params,
            sending.0.jsonrpc == JsonRpcVersion,
            sending.1 == Delivery::Posting(Operation::Notification),
    {
        (notification_message(method, params), Delivery::new(Operation::Notification))
    }

    /// Adds the headers of every request.
    fn with_own_headers(
        &self,
        builder: reqwest::RequestBuilder,
        Ghost(n): Ghost<int>,
    ) -> (after: reqwest::RequestBuilder)
        requires
            at_most(builder, n),
            0 <= n <= 2,
            self@.config.request_lines().len() <= MAX_HEADERS,
        ensures
            request_of(after) == with_lines(request_of(builder), self@.config.request_lines()),
            at_most(after, n + self@.config.request_lines().len()),
    {
        let ghost start = request_of(builder);
        let ghost config = self@.config;
        let after = push_headers(builder, &self.headers, Ghost(n));
        match &self.bearer_token {
            Some(token) => {
                proof {
                    let lines = config.request_lines();
                    assert(lines.drop_last() =~= config.headers);
                    assert(lines.last() == ("Authorization"@, bearer(token@)));
                }
                let value = bearer_value(token.as_str());
                push_header(after, "Authorization", value.as_str(), Ghost(n + config.headers.len()))
            },
            None => {
                assert(config.request_lines() =~= config.headers);
                after
            },
        }
    }

    /// Takes in what the event stream gave: an announcement sets the endpoint of
    /// the session, any other message is to be decoded.
    pub fn poll_message(&mut self, event: StreamEvent) -> (step: PollStep)
        ensures
            poll_step(event, step),
            final(self)@ == (SseState {
                session: session_after(old(self)@.session, event),
                ..old(self)@
            }),
            event matches StreamEvent::Message { event: name, data } ==> name@ != "endpoint"@
                ==> step == PollStep::Decode(data) && final(self)@ == old(self)@,
            step is Nothing <==> event is Opened || event is Ended || event is Message
                && event->event@ == "endpoint"@,
            step is Nothing && event is Message ==> final(self)@.session is Some,
            step is Fail <==> event is Missing || event is Failed,
    {
        match event {
            StreamEvent::Missing => PollStep::Fail(TransportError::NotOpened),
            StreamEvent::Opened => PollStep::Nothing,
            StreamEvent::Message { event: name, data } => {
                if name == "endpoint".to_owned() {
                    self.session_endpoint = Some(session_endpoint(data));
                    PollStep::Nothing
                } else {
                    PollStep::Decode(data)
                }
            },
            StreamEvent::Ended => PollStep::Nothing,
            StreamEvent::Failed(detail) => PollStep::Fail(TransportError::Stream(detail)),
        }
    }

    /// Ends the session.
    pub fn close(&mut self)
        ensures
            final(self)@ == (SseState { session: None, ..old(self)@ }),
    {
        self.session_endpoint = None;
    }
}

/// Every request of an authenticated transport that can be built at all carries the
/// token, as the last of its authorization values.
pub proof fn token_is_carried(config: SseConfig, before: HttpRequest, after: HttpRequest)
    requires
        config.bearer_token is Some,
        with_lines(Some(before), config.request_lines()) == Some(after),
    ensures
        after.headers.contains_key("authorization"@),
        after.headers["authorization"@].len() > 0,
        after.headers["authorization"@].last() == bearer(config.bearer_token.unwrap()),
{
    reveal_strlit("Authorization");
    reveal_strlit("authorization");
    let lines = config.request_lines();
    assert(lines.last() == ("Authorization"@, bearer(config.bearer_token.unwrap())));
    assert(lower("Authorization"@) =~= "authorization"@);
    last_line_comes_last(before, lines, after);
}

/// Every header that was configured is carried by every request that can be built.
pub proof fn configured_headers_are_carried(
    config: SseConfig,
    before: HttpRequest,
    after: HttpRequest,
    i: int,
)
    requires
        with_lines(Some(before), config.request_lines()) == Some(after),
        0 <= i < config.headers.len(),
    ensures
        after.headers.contains_key(lower(config.headers[i].0)),
        after.headers[lower(config.headers[i].0)].contains(config.headers[i].1),
{
    lines_are_carried(before, config.request_lines(), after);
    assert(config.request_lines()[i] == config.headers[i]);
}

/// Whether a request carries the settings of a transport: every configured header,
/// and the token, where there is one, last among the authorization values.
pub open spec fn carries_settings(config: SseConfig, request: HttpRequest) -> bool {
    &&& forall|i: int|
        0 <= i < config.headers.len() ==> request.headers.contains_key(
            lower((#[trigger] config.headers[i]).0),
        ) && request.headers[lower(config.headers[i].0)].contains(config.headers[i].1)
    &&& config.bearer_token matches Some(token) ==> {
        &&& request.headers.contains_key("authorization"@)
        &&& request.headers["authorization"@].len() > 0
        &&& request.headers["authorization"@].last() == bearer(token)
    }
}

/// The request for the event stream and every post of a session carry the settings
/// of the transport. All posts of a session go to one URL and have the same
/// headers: whatever is posted shows in the body alone.
pub proof fn requests_of_a_session_agree(
    config: SseConfig,
    endpoint: Seq<char>,
    one: Seq<char>,
    other: Seq<char>,
)
    ensures
        stream_request_of(config) matches Some(r) ==> carries_settings(config, r) && r.method
            == "GET"@ && r.body is None,
        post_request_of(config, endpoint, one) matches Some(r) ==> carries_settings(config, r)
            && r.method == "POST"@ && r.body == Some(vstd::utf8::encode_utf8(one)),
        match post_request_of(config, endpoint, one) {
            Some(r) => post_request_of(config, endpoint, other) == Some(
                HttpRequest { body: Some(vstd::utf8::encode_utf8(other)), ..r },
            ),
            None => post_request_of(config, endpoint, other) is None,
        },
{
    let lines = config.request_lines();
    let stream = fresh_request("GET"@, prepared_url(config.server_url));
    let prepared = prepared_url(target_of(config.server_url, endpoint));
    lines_leave_the_rest(stream, lines);
    lines_leave_the_rest(json_request(prepared, one), lines);
    if let Some(r) = stream_request_of(config) {
        lemma_carries_settings(config, stream.unwrap(), r);
    }
    if let Some(r) = post_request_of(config, endpoint, one) {
        lemma_carries_settings(config, json_request(prepared, one).unwrap(), r);
    }
    lines_ignore_body(
        with_line(fresh_request("POST"@, prepared), json_line()),
        lines,
        vstd::utf8::encode_utf8(one),
        vstd::utf8::encode_utf8(other),
    );
}

proof fn lemma_carries_settings(config: SseConfig, before: HttpRequest, after: HttpRequest)
    requires
        with_lines(Some(before), config.request_lines()) == Some(after),
    ensures
        carries_settings(config, after),
{
    assert forall|i: int| 0 <= i < config.headers.len() implies after.headers.contains_key(
        lower((#[trigger] config.headers[i]).0),
    ) && after.headers[lower(config.headers[i].0)].contains(config.headers[i].1) by {
        configured_headers_are_carried(config, before, after, i);
    }
    if config.bearer_token is Some {
        token_is_carried(config, before, after);
    }
}

/// A token shows in one place only: a request with it is the request without it, and
/// one more authorization value. So requests of transports that differ in their
/// tokens have the same method, URL and body, and a transport without a token adds
/// no authorization of its own.
pub proof fn token_shows_in_authorization_alone(
    config: SseConfig,
    endpoint: Seq<char>,
    text: Seq<char>,
    token: Seq<char>,
)
    requires
        config.bearer_token == Some(token),
        is_value(bearer(token)),
    ensures
        ({
            let bare = SseConfig { bearer_token: None, ..config };
            &&& bare.request_lines() == config.headers
            &&& stream_request_of(config) == with_authorization(stream_request_of(bare), token)
            &&& post_request_of(config, endpoint, text) == with_authorization(
                post_request_of(bare, endpoint, text),
                token,
            )
        }),
{
    let bare = SseConfig { bearer_token: None, ..config };
    let lines = config.request_lines();
    assert(bare.request_lines() =~= config.headers);
    assert(lines.drop_last() =~= config.headers);
    assert(lines.last() == ("Authorization"@, bearer(token)));
    reveal_strlit("Authorization");
    reveal_strlit("authorization");
    assert(lower("Authorization"@) =~= "authorization"@);
    assert(is_name("Authorization"@));
}

/// A request with one more authorization value.
pub open spec fn with_authorization(
    request: Option<HttpRequest>,
    token: Seq<char>,
) -> Option<HttpRequest> {
    match request {
        Some(r) => Some(
            HttpRequest {
                headers: add_value(r.headers, "authorization"@, bearer(token)),
                ..r
            },
        ),
        None => None,
    }
}

/// A token that is no header value leaves no request.
pub proof fn improper_token_leaves_no_request(
    config: SseConfig,
    endpoint: Seq<char>,
    text: Seq<char>,
    token: Seq<char>,
)
    requires
        config.bearer_token == Some(token),
        !is_value(bearer(token)),
    ensures
        stream_request_of(config) is None,
        post_request_of(config, endpoint, text) is None,
{
    let lines = config.request_lines();
    assert(lines.last() == ("Authorization"@, bearer(token)));
}

/// Whatever the server announces, as long as the announcement holds a path or is
/// empty, the messages that follow go to the origin of the URL that the transport
/// was made with. That URL carries a scheme, or else no scheme mark arises in the
/// URL posted to.
pub proof fn announcements_stay_on_origin<P>(state: SseState<P>, name: String, data: String)
    requires
        name@ == "endpoint"@,
        find_from(state.config.server_url, scheme_mark(), 0) is Some || find_from(
            target_of(state.config.server_url, endpoint_of(data@)),
            scheme_mark(),
            0,
        ) is None,
        endpoint_of(data@) != data@ || data@.len() == 0 || data@[0] == '/',
    ensures
        session_after(state.session, StreamEvent::Message { event: name, data }) == Some(
            endpoint_of(data@),
        ),
        base_of(target_of(state.config.server_url, endpoint_of(data@))) == base_of(
            state.config.server_url,
        ),
{
    if data@.len() > 0 && data@[0] == '/' {
        path_endpoint_is_kept(data@);
    }
    target_stays_on_origin(state.config.server_url, endpoint_of(data@));
}

/// Only an announcement touches the session, and the last one counts.
pub proof fn last_announcement_counts(
    session: Option<Seq<char>>,
    first: StreamEvent,
    second: StreamEvent,
)
    ensures
        session_after(session, first) != session ==> first is Message
            && first->event@ == "endpoint"@,
        second is Message && second->event@ == "endpoint"@ ==> session_after(
            session_after(session, first),
            second,
        ) == session_after(session, second),
{
}

/// A poll that brings a message or fails leaves the session as it was, and no poll
/// takes a session away.
pub proof fn only_announcements_touch_the_session(
    session: Option<Seq<char>>,
    event: StreamEvent,
    step: PollStep,
)
    requires
        poll_step(event, step),
    ensures
        !(step is Nothing) ==> session_after(session, event) == session,
        session is Some ==> session_after(session, event) is Some,
        session_after(session, event) != session ==> session_after(session, event) is Some,
{
}

} // verus!
