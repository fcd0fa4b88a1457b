use mcp_core::error::TransportError;
use mcp_core::headers::HeaderTable;
use mcp_core::sse::{
    bearer_value, ClientSseTransport, ClientSseTransportBuilder, PollStep, StreamEvent,
    MAX_HEADERS,
};

fn announced(transport: &mut ClientSseTransport<()>, data: &str) {
    let step = transport.poll_message(StreamEvent::Message {
        event: "endpoint".to_string(),
        data: data.to_string(),
    });
    assert!(matches!(step, PollStep::Nothing));
}

fn values(request: &reqwest::Request, name: &str) -> Vec<String> {
    request
        .headers()
        .get_all(name)
        .iter()
        .map(|v| String::from_utf8(v.as_bytes().to_vec()).unwrap())
        .collect()
}

#[test]
fn stream_request_carries_headers_and_token() {
    let transport = ClientSseTransport::builder("https://example.com/sse".to_string())
        .with_bearer_token("my-token".to_string())
        .with_header("User-Agent", "My MCP Client")
        .build(());
    let request = transport.stream_request().build().unwrap();
    assert_eq!(request.method().as_str(), "GET");
    assert_eq!(request.url().as_str(), "https://example.com/sse");
    assert_eq!(values(&request, "user-agent"), vec!["My MCP Client"]);
    assert_eq!(values(&request, "authorization"), vec!["Bearer my-token"]);
    assert_eq!(request.headers().len(), 2);
    assert!(request.body().is_none());
}

#[test]
fn stream_request_without_settings_has_no_headers() {
    let transport = ClientSseTransportBuilder::new("http://h".to_string()).build(());
    let request = transport.stream_request().build().unwrap();
    assert_eq!(request.url().as_str(), "http://h/");
    assert_eq!(request.headers().len(), 0);
}

#[test]
fn credentials_of_the_url_become_a_header() {
    let transport = ClientSseTransportBuilder::new("http://u:p@h/sse".to_string())
        .with_bearer_token("t".to_string())
        .build(());
    let request = transport.stream_request().build().unwrap();
    assert_eq!(request.url().as_str(), "http://h/sse");
    assert_eq!(values(&request, "authorization"), vec!["Basic dTpw", "Bearer t"]);
}

#[test]
fn last_value_of_a_header_counts() {
    let transport = ClientSseTransportBuilder::new("http://h/sse".to_string())
        .with_header("X-A", "1".to_string())
        .with_header("X-B", "2")
        .with_header("X-A".to_string(), "3")
        .build(());
    let request = transport.stream_request().build().unwrap();
    assert_eq!(request.headers().len(), 2);
    assert_eq!(values(&request, "x-a"), vec!["3"]);
    assert_eq!(values(&request, "x-b"), vec!["2"]);
}

#[test]
fn names_that_differ_in_case_are_both_carried() {
    let transport = ClientSseTransportBuilder::new("http://h/sse".to_string())
        .with_header("X-A", "1")
        .with_header("x-a", "2")
        .build(());
    let request = transport.stream_request().build().unwrap();
    assert_eq!(request.headers().len(), 2);
    assert_eq!(values(&request, "x-a"), vec!["1", "2"]);
}

#[test]
fn own_authorization_header_stays_beside_the_token() {
    let transport = ClientSseTransportBuilder::new("http://h/sse".to_string())
        .with_bearer_token("t".to_string())
        .with_header("authorization", "Own")
        .build(());
    let request = transport.stream_request().build().unwrap();
    assert_eq!(values(&request, "authorization"), vec!["Own", "Bearer t"]);
}

#[test]
fn last_token_counts() {
    let transport = ClientSseTransportBuilder::new("http://h/sse".to_string())
        .with_bearer_token("a".to_string())
        .with_bearer_token("b".to_string())
        .build(());
    let request = transport.stream_request().build().unwrap();
    assert_eq!(values(&request, "authorization"), vec!["Bearer b"]);
    assert_eq!(bearer_value("x"), "Bearer x");
}

#[test]
fn improper_settings_leave_no_request() {
    for url in ["", "no url", "http://", "/sse", "h:1/sse", "data:text/plain,x"] {
        let transport = ClientSseTransportBuilder::new(url.to_string()).build(());
        assert!(transport.stream_request().build().is_err());
    }
    for (name, value) in [("", "v"), ("a b", "v"), ("ä", "v"), ("a:", "v"), ("a", "x\ny"), ("a", "\u{7f}")] {
        let transport = ClientSseTransportBuilder::new("http://h".to_string())
            .with_header(name, value)
            .build(());
        assert!(transport.stream_request().build().is_err());
    }
    let transport = ClientSseTransportBuilder::new("http://h".to_string())
        .with_bearer_token("a\r\nb".to_string())
        .build(());
    assert!(transport.stream_request().build().is_err());
}

#[test]
fn unusual_but_proper_headers_are_taken() {
    let name = "!#$%&'*+-.^_`|~09azAZ";
    let transport = ClientSseTransportBuilder::new("http://h".to_string())
        .with_header(name, "tab\there, ünd")
        .with_header("empty", "")
        .build(());
    let request = transport.stream_request().build().unwrap();
    assert_eq!(values(&request, &name.to_lowercase()), vec!["tab\there, ünd"]);
    assert_eq!(values(&request, "empty"), vec![""]);
}

#[test]
fn length_of_a_header_name() {
    let build = |n: usize| {
        ClientSseTransportBuilder::new("http://h".to_string())
            .with_header("a".repeat(n), "v")
            .build(())
            .stream_request()
            .build()
    };
    assert!(build(65535).is_ok());
    assert!(build(65536).is_err());
}

#[test]
fn as_many_headers_as_are_allowed() {
    let mut table = HeaderTable::new();
    table = table.insert("a".to_string(), "b".to_string());
    assert_eq!(table.len(), 1);
    assert_eq!(table.name(0), "a");
    assert_eq!(table.value(0), "b");
    for token in [true, false] {
        let mut builder = ClientSseTransportBuilder::new("http://u:p@h".to_string());
        let n = if token { MAX_HEADERS - 1 } else { MAX_HEADERS };
        for i in 0..n {
            builder = builder.with_header(format!("x-{}", i), "v");
        }
        if token {
            builder = builder.with_bearer_token("t".to_string());
        }
        let mut transport = builder.build(());
        assert!(transport.can_build_requests());
        announced(&mut transport, "/m");
        let request = transport.post("{}".to_string()).unwrap().build().unwrap();
        // The content type and the authorization stand beside them.
        assert_eq!(request.headers().keys_len(), n + 2);
        assert!(transport.open().is_ok());
    }
}

#[test]
fn more_headers_than_are_allowed() {
    let mut builder = ClientSseTransportBuilder::new("http://h".to_string());
    for i in 0..MAX_HEADERS {
        builder = builder.with_header(format!("x-{}", i), "v");
    }
    assert!(!builder.with_bearer_token("t".to_string()).build(()).can_build_requests());
}

#[test]
fn post_goes_to_the_announced_endpoint() {
    let mut transport = ClientSseTransportBuilder::new("https://example.com/sse".to_string())
        .with_header("X-A", "1")
        .with_bearer_token("t".to_string())
        .build(());
    announced(&mut transport, "http://elsewhere/messages?s=1");
    assert!(transport.has_session());
    let request = transport.post("{\"ü\":1}".to_string()).unwrap().build().unwrap();
    assert_eq!(request.method().as_str(), "POST");
    assert_eq!(request.url().as_str(), "https://example.com/messages?s=1");
    assert_eq!(values(&request, "content-type"), vec!["application/json"]);
    assert_eq!(values(&request, "x-a"), vec!["1"]);
    assert_eq!(values(&request, "authorization"), vec!["Bearer t"]);
    assert_eq!(request.body().unwrap().as_bytes().unwrap(), "{\"ü\":1}".as_bytes());
}

#[test]
fn content_type_comes_before_configured_ones() {
    let mut transport = ClientSseTransportBuilder::new("http://h/sse".to_string())
        .with_header("Content-Type", "text/plain")
        .build(());
    announced(&mut transport, "/m");
    let request = transport.post("{}".to_string()).unwrap().build().unwrap();
    assert_eq!(values(&request, "content-type"), vec!["application/json", "text/plain"]);
}

#[test]
fn post_needs_a_session() {
    let mut transport = ClientSseTransportBuilder::new("http://h/sse".to_string()).build(());
    assert!(!transport.has_session());
    assert!(matches!(transport.post("{}".to_string()), Err(TransportError::NoSession)));
    announced(&mut transport, "/m");
    assert!(transport.post("{}".to_string()).is_ok());
    transport.close();
    assert!(!transport.has_session());
    assert!(matches!(transport.post("{}".to_string()), Err(TransportError::NoSession)));
}

#[test]
fn last_announcement_is_used() {
    let mut transport = ClientSseTransportBuilder::new("http://h/sse".to_string()).build(());
    announced(&mut transport, "/a");
    announced(&mut transport, "/b");
    let request = transport.post("{}".to_string()).unwrap().build().unwrap();
    assert_eq!(request.url().as_str(), "http://h/b");
}

#[test]
fn events_of_the_stream() {
    let mut transport = ClientSseTransportBuilder::new("http://h/sse".to_string()).build(());
    assert!(matches!(transport.poll_message(StreamEvent::Opened), PollStep::Nothing));
    assert!(matches!(transport.poll_message(StreamEvent::Ended), PollStep::Nothing));
    match transport.poll_message(StreamEvent::Missing) {
        PollStep::Fail(error) => assert_eq!(error.message(), "Transport not opened"),
        other => panic!("{:?}", other),
    }
    match transport.poll_message(StreamEvent::Failed("StreamEnded".to_string())) {
        PollStep::Fail(error) => {
            assert_eq!(error.message(), "Failed to parse SSE message: StreamEnded")
        }
        other => panic!("{:?}", other),
    }
    for event in ["message", "", "Endpoint", "endpoint "] {
        match transport.poll_message(StreamEvent::Message {
            event: event.to_string(),
            data: "{\"id\":1}".to_string(),
        }) {
            PollStep::Decode(text) => assert_eq!(text, "{\"id\":1}"),
            other => panic!("{:?}", other),
        }
    }
    assert!(!transport.has_session());
}

#[test]
fn stream_opens_where_there_is_a_request() {
    let transport = ClientSseTransportBuilder::new("http://h/sse".to_string())
        .with_header("X-A", "1")
        .build(());
    let source = transport.open().unwrap();
    assert_eq!(source.ready_state(), reqwest_eventsource::ReadyState::Connecting);
    assert_eq!(source.last_event_id(), "");
}

#[test]
fn stream_does_not_open_without_a_request() {
    let open = |url: &str, name: &str| {
        match ClientSseTransportBuilder::new(url.to_string()).with_header(name, "v").build(()).open() {
            Ok(_) => "opened".to_string(),
            Err(error) => error.message(),
        }
    };
    assert_eq!(open("http://h", "X-A"), "opened");
    assert_eq!(open("nowhere", "X-A"), "expected a cloneable request");
    assert_eq!(open("http://h", "X A"), "expected a cloneable request");
}

#[test]
fn requests_of_a_session_agree() {
    let build = |token: Option<&str>| {
        let mut builder =
            ClientSseTransportBuilder::new("http://h/sse".to_string()).with_header("X-A", "1");
        if let Some(token) = token {
            builder = builder.with_bearer_token(token.to_string());
        }
        let mut transport = builder.build(());
        announced(&mut transport, "/m");
        transport
    };
    let with = build(Some("t"));
    let one = with.post("{\"a\":1}".to_string()).unwrap().build().unwrap();
    let other = with.post("{}".to_string()).unwrap().build().unwrap();
    assert_eq!(one.url(), other.url());
    assert_eq!(one.headers(), other.headers());
    assert_eq!(one.body().unwrap().as_bytes().unwrap(), b"{\"a\":1}");
    assert_eq!(other.body().unwrap().as_bytes().unwrap(), b"{}");
    let stream = with.stream_request().build().unwrap();
    assert_eq!(values(&stream, "authorization"), values(&one, "authorization"));
    assert_eq!(values(&stream, "x-a"), values(&one, "x-a"));

    let mut bare = build(None).post("{}".to_string()).unwrap().build().unwrap();
    assert_eq!(bare.url(), other.url());
    assert!(values(&bare, "authorization").is_empty());
    bare.headers_mut().insert("authorization", "Bearer t".parse().unwrap());
    assert_eq!(bare.headers(), other.headers());
}
