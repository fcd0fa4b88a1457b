//! What requests hold: the settings that a transport was given, all of them and
//! nothing else, and what is posted.
use vstd::prelude::*;

use crate::endpoint::session_url;
use crate::error::TransportError;
use crate::headers::{HeaderTable, Line};
#[allow(unused_imports)]
use crate::headers::{has_name, names_at, put, put_keeps_distinct};
#[allow(unused_imports)]
use crate::http::{
    add_value, events_line, fresh_request, is_line, is_name, is_value, is_value_char, json_line,
    json_request, lines_leave_the_rest, lower, lower_char, prepared_url, request_of, stream_of,
    with_body, with_line, with_lines,
};
use crate::http::HttpRequest;
use crate::sse::{bearer_value, ClientSseTransport, ClientSseTransportBuilder, SseConfig};
#[allow(unused_imports)]
use crate::sse::{post_request_of, stream_request_of};

verus! {

/// The values that a request carries under a name.
pub open spec fn values_of(request: HttpRequest, name: Seq<char>) -> Seq<Seq<char>> {
    if request.headers.contains_key(name) {
        request.headers[name]
    } else {
        Seq::empty()
    }
}

/// The values that headers give to a name, in their order. Letters count in lower
/// case.
pub open spec fn values_in(headers: Seq<Line>, name: Seq<char>) -> Seq<Seq<char>>
    decreases headers.len(),
{
    if headers.len() == 0 {
        Seq::empty()
    } else {
        let before = values_in(headers.drop_last(), name);
        if lower(headers.last().0) == name {
            before.push(headers.last().1)
        } else {
            before
        }
    }
}

/// The value under `name` that stands for the credentials of a URL.
pub open spec fn values_of_credentials(url: Seq<char>, name: Seq<char>) -> Seq<Seq<char>> {
    match prepared_url(url) {
        Some((_, Some(credentials))) if name == "authorization"@ => seq![credentials],
        _ => Seq::empty(),
    }
}

/// The value under `name` that a token asks for: seven characters, and the token.
pub open spec fn values_of_token(token: Option<Seq<char>>, name: Seq<char>) -> Seq<Seq<char>> {
    match token {
        Some(token) if name == "authorization"@ => seq![
            seq!['B', 'e', 'a', 'r', 'e', 'r', ' '] + token,
        ],
        _ => Seq::empty(),
    }
}

/// The one value `value` where `name` is `wanted`.
pub open spec fn value_if(
    name: Seq<char>,
    wanted: Seq<char>,
    value: Seq<char>,
) -> Seq<Seq<char>> {
    if name == wanted {
        seq![value]
    } else {
        Seq::empty()
    }
}

/// Whether all headers and the token can be sent.
pub open spec fn are_proper(config: SseConfig) -> bool {
    &&& forall|i: int|
        0 <= i < config.headers.len() ==> is_name((#[trigger] config.headers[i]).0) && is_value(
            config.headers[i].1,
        )
    &&& config.bearer_token matches Some(token) ==> forall|k: int|
        0 <= k < token.len() ==> is_value_char(#[trigger] token[k])
}

/// Capital letters are lowered and nothing else is touched.
pub proof fn lower_case_is_ascii(text: Seq<char>)
    ensures
        lower(text).len() == text.len(),
        forall|k: int|
            0 <= k < text.len() && 'A' <= text[k] <= 'Z' ==> (#[trigger] lower(text)[k]) as int
                == text[k] as int + 32,
        forall|k: int|
            0 <= k < text.len() && !('A' <= text[k] <= 'Z') ==> #[trigger] lower(text)[k]
                == text[k],
{
}

/// The value that a token is sent as is seven characters and all of the token.
pub proof fn token_is_sent_whole(token: &str, value: String)
    requires
        call_ensures(bearer_value, (token,), value),
    ensures
        value@.len() == 7 + token@.len(),
        value@.take(7) == seq!['B', 'e', 'a', 'r', 'e', 'r', ' '],
        value@.skip(7) == token@,
{
    reveal_strlit("Bearer ");
    assert(value@.take(7) =~= seq!['B', 'e', 'a', 'r', 'e', 'r', ' ']);
    assert(value@.skip(7) =~= token@);
}

proof fn lemma_values(before: HttpRequest, lines: Seq<Line>, after: HttpRequest, name: Seq<char>)
    requires
        with_lines(Some(before), lines) == Some(after),
    ensures
        values_of(after, name) == values_of(before, name) + values_in(lines, name),
    decreases lines.len(),
{
    if lines.len() > 0 {
        let middle = with_lines(Some(before), lines.drop_last()).unwrap();
        lemma_values(before, lines.drop_last(), middle, name);
        lemma_value(middle, lines.last(), after, name);
        assert(values_of(after, name) =~= values_of(before, name) + values_in(lines, name));
    } else {
        assert(values_of(after, name) =~= values_of(before, name) + values_in(lines, name));
    }
}

proof fn lemma_value(before: HttpRequest, line: Line, after: HttpRequest, name: Seq<char>)
    requires
        with_line(Some(before), line) == Some(after),
    ensures
        values_of(after, name) == if lower(line.0) == name {
            values_of(before, name).push(line.1)
        } else {
            values_of(before, name)
        },
{
    assert(values_of(after, name) =~= if lower(line.0) == name {
        values_of(before, name).push(line.1)
    } else {
        values_of(before, name)
    });
}

/// The headers of every request, and whether they can be sent.
proof fn lemma_settings(config: SseConfig, name: Seq<char>)
    ensures
        values_in(config.request_lines(), name) == values_in(config.headers, name)
            + values_of_token(config.bearer_token, name),
        (forall|i: int|
            0 <= i < config.request_lines().len() ==> is_line(
                #[trigger] config.request_lines()[i],
            )) <==> are_proper(config),
{
    let lines = config.request_lines();
    assert(forall|i: int| 0 <= i < config.headers.len() ==> lines[i] == config.headers[i]);
    match config.bearer_token {
        Some(token) => {
            let value = seq!['B', 'e', 'a', 'r', 'e', 'r', ' '] + token;
            reveal_strlit("Bearer ");
            reveal_strlit("Authorization");
            reveal_strlit("authorization");
            assert(lower("Authorization"@) =~= "authorization"@);
            assert(is_name("Authorization"@));
            assert(lines.drop_last() =~= config.headers);
            assert(lines.last().1 =~= value);
            assert(lines.last() == lines[lines.len() - 1]);
            assert(is_value(value) <==> forall|k: int|
                0 <= k < token.len() ==> is_value_char(#[trigger] token[k])) by {
                if is_value(value) {
                    assert forall|k: int| 0 <= k < token.len() implies is_value_char(
                        #[trigger] token[k],
                    ) by {
                        assert(value[7 + k] == token[k]);
                        assert(is_value_char(value[7 + k]));
                    }
                }
            }
            assert(values_in(lines, name) =~= values_in(config.headers, name) + values_of_token(
                config.bearer_token,
                name,
            ));
            if are_proper(config) {
                assert forall|i: int| 0 <= i < lines.len() implies is_line(#[trigger] lines[i]) by {
                    if i < config.headers.len() {
                        assert(lines[i] == config.headers[i]);
                    }
                }
            }
            if forall|i: int| 0 <= i < lines.len() ==> is_line(#[trigger] lines[i]) {
                assert(is_line(lines[lines.len() - 1]));
                assert forall|i: int| 0 <= i < config.headers.len() implies is_name(
                    (#[trigger] config.headers[i]).0,
                ) && is_value(config.headers[i].1) by {
                    assert(is_line(lines[i]));
                }
            }
        },
        None => {
            assert(lines =~= config.headers);
            assert(values_in(lines, name) =~= values_in(config.headers, name) + values_of_token(
                config.bearer_token,
                name,
            ));
            if are_proper(config) {
                assert forall|i: int| 0 <= i < lines.len() implies is_line(#[trigger] lines[i]) by {
                    assert(lines[i] == config.headers[i]);
                }
            }
            if forall|i: int| 0 <= i < lines.len() ==> is_line(#[trigger] lines[i]) {
                assert forall|i: int| 0 <= i < config.headers.len() implies is_name(
                    (#[trigger] config.headers[i]).0,
                ) && is_value(config.headers[i].1) by {
                    assert(is_line(lines[i]));
                }
            }
        },
    }
}

proof fn lemma_stream(config: SseConfig, name: Seq<char>)
    ensures
        stream_request_of(config) is Some <==> prepared_url(config.server_url) is Some
            && are_proper(config),
        stream_request_of(config) matches Some(r) ==> {
            &&& r.method == "GET"@
            &&& r.url == prepared_url(config.server_url).unwrap().0
            &&& r.body is None
            &&& values_of(r, name) == values_of_credentials(config.server_url, name) + values_in(
                config.headers,
                name,
            ) + values_of_token(config.bearer_token, name)
        },
{
    let fresh = fresh_request("GET"@, prepared_url(config.server_url));
    let lines = config.request_lines();
    lemma_settings(config, name);
    lines_leave_the_rest(fresh, lines);
    if let Some(r) = stream_request_of(config) {
        lemma_values(fresh.unwrap(), lines, r, name);
        assert(values_of(fresh.unwrap(), name) =~= values_of_credentials(config.server_url, name));
        assert(values_of(r, name) =~= values_of_credentials(config.server_url, name) + values_in(
            config.headers,
            name,
        ) + values_of_token(config.bearer_token, name));
    }
}

/// The request for the event stream gets the URL of the server. It carries the
/// configured headers and the token behind them, and no other header but one for
/// the credentials of the URL. There is one exactly if the URL and all headers are
/// proper.
pub proof fn stream_request_holds_settings<P>(
    transport: &ClientSseTransport<P>,
    builder: reqwest::RequestBuilder,
)
    requires
        call_ensures(ClientSseTransport::<P>::stream_request, (transport,), builder),
    ensures
        request_of(builder) is Some <==> prepared_url(transport@.config.server_url) is Some
            && are_proper(transport@.config),
        request_of(builder) matches Some(r) ==> {
            &&& r.method == "GET"@
            &&& r.url == prepared_url(transport@.config.server_url).unwrap().0
            &&& r.body is None
            &&& forall|name: Seq<char>| #[trigger]
                values_of(r, name) == values_of_credentials(transport@.config.server_url, name)
                    + values_in(transport@.config.headers, name) + values_of_token(
                    transport@.config.bearer_token,
                    name,
                )
        },
{
    let config = transport@.config;
    lemma_stream(config, Seq::empty());
    if let Some(r) = request_of(builder) {
        assert forall|name: Seq<char>| #[trigger] values_of(r, name) == values_of_credentials(
            config.server_url,
            name,
        ) + values_in(config.headers, name) + values_of_token(config.bearer_token, name) by {
            lemma_stream(config, name);
        }
    }
}

/// An event stream is opened exactly if there is a request for it, and it sends that
/// request and asks for events.
pub proof fn opened_stream_holds_settings<P>(
    transport: &ClientSseTransport<P>,
    opened: Result<reqwest_eventsource::EventSource, TransportError>,
)
    requires
        call_ensures(ClientSseTransport::<P>::open, (transport,), opened),
    ensures
        opened is Ok <==> prepared_url(transport@.config.server_url) is Some && are_proper(
            transport@.config,
        ),
        opened matches Err(error) ==> error == TransportError::NoRequest,
        opened matches Ok(source) ==> (stream_of(source) matches Some(r) && {
            &&& r.method == "GET"@
            &&& r.url == prepared_url(transport@.config.server_url).unwrap().0
            &&& r.body is None
            &&& forall|name: Seq<char>| #[trigger]
                values_of(r, name) == values_of_credentials(transport@.config.server_url, name)
                    + values_in(transport@.config.headers, name) + values_of_token(
                    transport@.config.bearer_token,
                    name,
                ) + value_if(name, "accept"@, "text/event-stream"@)
        }),
{
    let config = transport@.config;
    lemma_stream(config, Seq::empty());
    reveal_strlit("accept");
    reveal_strlit("text/event-stream");
    assert(lower("accept"@) =~= "accept"@);
    assert(is_line(events_line()));
    if let Ok(source) = opened {
        let r = stream_of(source).unwrap();
        assert forall|name: Seq<char>| #[trigger] values_of(r, name) == values_of_credentials(
            config.server_url,
            name,
        ) + values_in(config.headers, name) + values_of_token(config.bearer_token, name)
            + value_if(name, "accept"@, "text/event-stream"@) by {
            lemma_stream(config, name);
            lemma_value(stream_request_of(config).unwrap(), events_line(), r, name);
            assert(values_of(r, name) =~= values_of_credentials(config.server_url, name)
                + values_in(config.headers, name) + values_of_token(config.bearer_token, name)
                + value_if(name, "accept"@, "text/event-stream"@));
        }
    }
}

proof fn lemma_post(
    config: SseConfig,
    endpoint: Seq<char>,
    url: Seq<char>,
    text: Seq<char>,
    name: Seq<char>,
)
    requires
        url == crate::endpoint::target_of(config.server_url, endpoint),
    ensures
        post_request_of(config, endpoint, text) is Some <==> prepared_url(url) is Some
            && are_proper(config),
        post_request_of(config, endpoint, text) matches Some(r) ==> {
            &&& r.method == "POST"@
            &&& r.url == prepared_url(url).unwrap().0
            &&& r.body == Some(vstd::utf8::encode_utf8(text))
            &&& values_of(r, name) == values_of_credentials(url, name) + value_if(
                name,
                "content-type"@,
                "application/json"@,
            ) + values_in(config.headers, name) + values_of_token(config.bearer_token, name)
        },
{
    let fresh = fresh_request("POST"@, prepared_url(url));
    let typed = with_line(fresh, json_line());
    let filled = json_request(prepared_url(url), text);
    let lines = config.request_lines();
    reveal_strlit("content-type");
    reveal_strlit("application/json");
    assert(lower("content-type"@) =~= "content-type"@);
    assert(is_line(json_line()));
    lemma_settings(config, name);
    lines_leave_the_rest(filled, lines);
    if let Some(r) = post_request_of(config, endpoint, text) {
        lemma_value(fresh.unwrap(), json_line(), typed.unwrap(), name);
        assert(values_of(filled.unwrap(), name) == values_of(typed.unwrap(), name));
        lemma_values(filled.unwrap(), lines, r, name);
        assert(values_of(fresh.unwrap(), name) =~= values_of_credentials(url, name));
        assert(values_of(r, name) =~= values_of_credentials(url, name) + value_if(
            name,
            "content-type"@,
            "application/json"@,
        ) + values_in(config.headers, name) + values_of_token(config.bearer_token, name));
    }
}

/// A message is posted as JSON to the URL of the session, all of its text, with the
/// configured headers and the token behind them, and with no other header but one
/// for the credentials of the URL. Without a session nothing can be posted.
pub proof fn post_holds_message_and_settings<P>(
    transport: &ClientSseTransport<P>,
    text: String,
    posted: Result<reqwest::RequestBuilder, TransportError>,
    server_url: &str,
    endpoint: &str,
    url: String,
)
    requires
        call_ensures(ClientSseTransport::<P>::post, (transport, text), posted),
        call_ensures(session_url, (server_url, endpoint), url),
        server_url@ == transport@.config.server_url,
        transport@.session matches Some(announced) ==> announced == endpoint@,
    ensures
        posted is Ok <==> transport@.session is Some,
        posted matches Err(error) ==> error == TransportError::NoSession,
        posted matches Ok(builder) ==> {
            &&& request_of(builder) is Some <==> prepared_url(url@) is Some && are_proper(
                transport@.config,
            )
            &&& request_of(builder) matches Some(r) ==> {
                &&& r.method == "POST"@
                &&& r.url == prepared_url(url@).unwrap().0
                &&& r.body == Some(vstd::utf8::encode_utf8(text@))
                &&& forall|name: Seq<char>| #[trigger]
                    values_of(r, name) == values_of_credentials(url@, name) + value_if(
                        name,
                        "content-type"@,
                        "application/json"@,
                    ) + values_in(transport@.config.headers, name) + values_of_token(
                        transport@.config.bearer_token,
                        name,
                    )
            }
        },
{
    let config = transport@.config;
    lemma_post(config, endpoint@, url@, text@, Seq::empty());
    if let Ok(builder) = posted {
        if let Some(r) = request_of(builder) {
            assert forall|name: Seq<char>| #[trigger] values_of(r, name) == values_of_credentials(
                url@,
                name,
            ) + value_if(name, "content-type"@, "application/json"@) + values_in(
                config.headers,
                name,
            ) + values_of_token(config.bearer_token, name) by {
                lemma_post(config, endpoint@, url@, text@, name);
            }
        }
    }
}

/// The last authorization value of every request of a transport with a token is
/// seven characters and all of the token.
pub proof fn requests_carry_whole_token<P>(
    transport: &ClientSseTransport<P>,
    token: Seq<char>,
    text: String,
    builder: reqwest::RequestBuilder,
)
    requires
        transport@.config.bearer_token == Some(token),
        call_ensures(ClientSseTransport::<P>::stream_request, (transport,), builder)
            || call_ensures(
            ClientSseTransport::<P>::post,
            (transport, text),
            Ok::<reqwest::RequestBuilder, TransportError>(builder),
        ),
    ensures
        request_of(builder) matches Some(r) ==> {
            &&& r.headers.contains_key("authorization"@)
            &&& r.headers["authorization"@].len() > 0
            &&& r.headers["authorization"@].last().len() == 7 + token.len()
            &&& r.headers["authorization"@].last().take(7) == seq![
                'B',
                'e',
                'a',
                'r',
                'e',
                'r',
                ' ',
            ]
            &&& r.headers["authorization"@].last().skip(7) == token
        },
{
    let name = "authorization"@;
    let value = seq!['B', 'e', 'a', 'r', 'e', 'r', ' '] + token;
    reveal_strlit("content-type");
    reveal_strlit("authorization");
    if let Some(r) = request_of(builder) {
        if call_ensures(ClientSseTransport::<P>::stream_request, (transport,), builder) {
            lemma_stream(transport@.config, name);
        } else {
            let endpoint = transport@.session.unwrap();
            let url = crate::endpoint::target_of(transport@.config.server_url, endpoint);
            lemma_post(transport@.config, endpoint, url, text@, name);
        }
        let values = values_of(r, name);
        assert(values.last() == value);
        assert(value.take(7) =~= seq!['B', 'e', 'a', 'r', 'e', 'r', ' ']);
        assert(value.skip(7) =~= token);
    }
}

/// Whether `after` is `before` with the value of one name set: the name stands there
/// once, with the value; every other header is there as it was.
pub open spec fn sets_header(
    before: Seq<Line>,
    after: Seq<Line>,
    name: Seq<char>,
    value: Seq<char>,
) -> bool {
    &&& after.contains((name, value))
    &&& forall|i: int, j: int|
        0 <= i < j < after.len() ==> (#[trigger] after[i]).0 != (#[trigger] after[j]).0
    &&& forall|line: Line| line.0 != name ==> (#[trigger] after.contains(line) <==> before.contains(
        line,
    ))
}

proof fn lemma_put_sets(lines: Seq<Line>, name: Seq<char>, value: Seq<char>)
    requires
        crate::headers::distinct_names(lines),
    ensures
        sets_header(lines, put(lines, name, value), name, value),
{
    let after = put(lines, name, value);
    put_keeps_distinct(lines, name, value);
    if has_name(lines, name) {
        let at = choose|at: int| names_at(lines, name, at);
        assert(after[at] == (name, value));
    } else {
        assert(after[lines.len() as int] == (name, value));
    }
    assert forall|line: Line| line.0 != name implies (#[trigger] after.contains(line)
        <==> lines.contains(line)) by {
        if after.contains(line) {
            let i = choose|i: int| 0 <= i < after.len() && after[i] == line;
            assert(lines[i] == line);
        }
        if lines.contains(line) {
            let i = choose|i: int| 0 <= i < lines.len() && lines[i] == line;
            assert(after[i] == line);
        }
    }
}

/// A table keeps one value for each name, the last that it was given, and every
/// other header as it was.
pub proof fn last_value_is_kept(
    table: HeaderTable,
    name: String,
    value: String,
    after: HeaderTable,
)
    requires
        call_ensures(HeaderTable::insert, (table, name, value), after),
    ensures
        sets_header(table@, after@, name@, value@),
{
    lemma_put_sets(table@, name@, value@);
}

/// A table gives back what it holds, and a new one holds nothing.
pub proof fn table_gives_back_what_it_holds(
    new: HeaderTable,
    table: &HeaderTable,
    n: usize,
    i: usize,
    name: &String,
    value: &String,
)
    requires
        call_ensures(HeaderTable::new, (), new),
        call_ensures(HeaderTable::len, (table,), n),
        call_ensures(HeaderTable::name, (table, i), name),
        call_ensures(HeaderTable::value, (table, i), value),
    ensures
        new@.len() == 0,
        n == table@.len(),
        table@[i as int] == (name@, value@),
{
}

/// A builder keeps the header that it was given, name and value as they were, and
/// all that it was given before.
pub proof fn header_is_configured<K: Into<String>, V: Into<String>>(
    builder: ClientSseTransportBuilder,
    key: K,
    value: V,
    after: ClientSseTransportBuilder,
    name_text: Seq<char>,
    value_text: Seq<char>,
)
    requires
        call_ensures(ClientSseTransportBuilder::with_header, (builder, key, value), after),
        forall|k: String| #[trigger] call_ensures(Into::into, (key,), k) ==> k@ == name_text,
        forall|v: String| #[trigger] call_ensures(Into::into, (value,), v) ==> v@ == value_text,
    ensures
        sets_header(builder@.headers, after@.headers, name_text, value_text),
        after@.server_url == builder@.server_url,
        after@.bearer_token == builder@.bearer_token,
{
    lemma_put_sets(builder@.headers, name_text, value_text);
}

/// So it keeps a header given as two texts, each of them whole.
pub proof fn header_of_texts_is_configured(
    builder: ClientSseTransportBuilder,
    name: &str,
    value: &str,
    after: ClientSseTransportBuilder,
)
    requires
        call_ensures(ClientSseTransportBuilder::with_header, (builder, name, value), after),
    ensures
        sets_header(builder@.headers, after@.headers, name@, value@),
        after@.server_url == builder@.server_url,
        after@.bearer_token == builder@.bearer_token,
{
    header_is_configured(builder, name, value, after, name@, value@);
}

/// A transport holds what it was given: the whole URL and the whole token, no header
/// but those that were configured, and the protocol. It has no session before one is
/// announced.
pub proof fn transport_holds_what_it_was_given<P>(
    url: String,
    new: ClientSseTransportBuilder,
    other: ClientSseTransportBuilder,
    token: String,
    with_token: ClientSseTransportBuilder,
    protocol: P,
    transport: ClientSseTransport<P>,
    held: &P,
    has_session: bool,
)
    requires
        call_ensures(ClientSseTransportBuilder::new, (url,), new) || call_ensures(
            ClientSseTransport::<()>::builder,
            (url,),
            new,
        ),
        call_ensures(ClientSseTransportBuilder::with_bearer_token, (other, token), with_token),
        call_ensures(ClientSseTransportBuilder::build, (other, protocol), transport),
        call_ensures(ClientSseTransport::<P>::protocol, (&transport,), held),
        call_ensures(ClientSseTransport::<P>::has_session, (&transport,), has_session),
    ensures
        new@.server_url == url@,
        new@.bearer_token is None,
        new@.headers.len() == 0,
        with_token@.bearer_token == Some(token@),
        with_token@.server_url == other@.server_url,
        with_token@.headers == other@.headers,
        transport@.config.server_url == other@.server_url,
        transport@.config.bearer_token == other@.bearer_token,
        transport@.config.headers == other@.headers,
        transport@.session is None,
        *held == protocol,
        !has_session,
{
}

/// A transport has a session exactly if it can post.
pub proof fn sessions_are_for_posting<P>(
    transport: &ClientSseTransport<P>,
    has_session: bool,
    text: String,
    posted: Result<reqwest::RequestBuilder, TransportError>,
)
    requires
        call_ensures(ClientSseTransport::<P>::has_session, (transport,), has_session),
        call_ensures(ClientSseTransport::<P>::post, (transport, text), posted),
    ensures
        has_session <==> posted is Ok,
        !has_session ==> posted == Err::<reqwest::RequestBuilder, TransportError>(
            TransportError::NoSession,
        ),
{
}

/// Requests can be built with all headers up to a fixed number, to which the token
/// counts.
pub proof fn number_of_headers_is_bounded<P>(transport: &ClientSseTransport<P>, r: bool)
    requires
        call_ensures(ClientSseTransport::<P>::can_build_requests, (transport,), r),
    ensures
        transport@.config.bearer_token is Some ==> (r <==> transport@.config.headers.len() <= 6550),
        transport@.config.bearer_token is None ==> (r <==> transport@.config.headers.len() <= 6551),
{
}

} // verus!
