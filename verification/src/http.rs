//! HTTP requests under construction, as the `reqwest` crate builds them.
use vstd::prelude::*;
use vstd::string::*;

use crate::headers::HeaderTable;
#[allow(unused_imports)]
use crate::headers::Line;

verus! {

/// An HTTP client of the `reqwest` crate.
#[verifier::external_type_specification]
#[verifier::external_body]
pub struct ExClient(reqwest::Client);

/// A request under construction, of the `reqwest` crate.
#[verifier::external_type_specification]
#[verifier::external_body]
pub struct ExRequestBuilder(reqwest::RequestBuilder);

/// An event stream of the `reqwest_eventsource` crate.
#[verifier::external_type_specification]
#[verifier::external_body]
pub struct ExEventSource(reqwest_eventsource::EventSource);

/// The error of the `reqwest_eventsource` crate for a request that cannot be
/// repeated.
#[verifier::external_type_specification]
#[verifier::external_body]
pub struct ExCannotCloneRequestError(reqwest_eventsource::CannotCloneRequestError);

/// What a request holds before it is sent: the values of each header stand under
/// its name in lower case, in the order in which they were added.
#[verifier::ext_equal]
pub struct HttpRequest {
    pub method: Seq<char>,
    pub url: Seq<char>,
    pub headers: Map<Seq<char>, Seq<Seq<char>>>,
    pub body: Option<Seq<u8>>,
}

/// What `reqwest` makes of a URL given as text: nothing where the text is no URL
/// with a host; else the address in its normal form and, where the text held
/// credentials, which then leave the address, the value of the basic authorization
/// header that stands for them.
pub uninterp spec fn prepared_url(text: Seq<char>) -> Option<(Seq<char>, Option<Seq<char>>)>;

/// The request that a builder holds; nothing where a step of its construction was
/// refused.
pub uninterp spec fn request_of(builder: reqwest::RequestBuilder) -> Option<HttpRequest>;

/// The request that an event stream sends.
pub uninterp spec fn stream_of(source: reqwest_eventsource::EventSource) -> Option<HttpRequest>;

/// Whether a character may stand in a header name.
pub open spec fn is_name_char(c: char) -> bool {
    ||| 'a' <= c <= 'z'
    ||| 'A' <= c <= 'Z'
    ||| '0' <= c <= '9'
    ||| c == '!' || c == '#' || c == '$' || c == '%' || c == '&' || c == '\''
    ||| c == '*' || c == '+' || c == '-' || c == '.' || c == '^' || c == '_'
    ||| c == '`' || c == '|' || c == '~'
}

/// Whether a text is a header name.
pub open spec fn is_name(text: Seq<char>) -> bool {
    &&& 1 <= text.len() <= 65535
    &&& forall|i: int| 0 <= i < text.len() ==> is_name_char(#[trigger] text[i])
}

/// Whether a character may stand in a header value: any but the control
/// characters of ASCII, of which only the tab may.
pub open spec fn is_value_char(c: char) -> bool {
    c == '\t' || c >= ' ' && c != '\u{7f}'
}

/// Whether a text is a header value.
pub open spec fn is_value(text: Seq<char>) -> bool {
    forall|i: int| 0 <= i < text.len() ==> is_value_char(#[trigger] text[i])
}

/// A character in lower case, as far as ASCII goes.
pub open spec fn lower_char(c: char) -> char {
    if 'A' <= c <= 'Z' {
        (c as u32 + 32) as char
    } else {
        c
    }
}

/// A text in lower case, as far as ASCII goes.
pub open spec fn lower(text: Seq<char>) -> Seq<char> {
    text.map_values(|c: char| lower_char(c))
}

/// Headers with one more value under a name.
pub open spec fn add_value(
    headers: Map<Seq<char>, Seq<Seq<char>>>,
    name: Seq<char>,
    value: Seq<char>,
) -> Map<Seq<char>, Seq<Seq<char>>> {
    if headers.contains_key(name) {
        headers.insert(name, headers[name].push(value))
    } else {
        headers.insert(name, seq![value])
    }
}

/// A request with one more header; nothing where the name or the value is none.
pub open spec fn with_line(request: Option<HttpRequest>, line: Line) -> Option<HttpRequest> {
    match request {
        Some(r) => if is_name(line.0) && is_value(line.1) {
            Some(HttpRequest { headers: add_value(r.headers, lower(line.0), line.1), ..r })
        } else {
            None
        },
        None => None,
    }
}

/// A request with further headers, added one by one.
pub open spec fn with_lines(request: Option<HttpRequest>, lines: Seq<Line>) -> Option<HttpRequest>
    decreases lines.len(),
{
    if lines.len() == 0 {
        request
    } else {
        with_line(with_lines(request, lines.drop_last()), lines.last())
    }
}

/// A request with the given body.
pub open spec fn with_body(request: Option<HttpRequest>, body: Seq<u8>) -> Option<HttpRequest> {
    match request {
        Some(r) => Some(HttpRequest { body: Some(body), ..r }),
        None => None,
    }
}

/// A request as it starts out for a URL of which `prepared` was made.
pub open spec fn fresh_request(
    method: Seq<char>,
    prepared: Option<(Seq<char>, Option<Seq<char>>)>,
) -> Option<HttpRequest> {
    match prepared {
        Some((address, credentials)) => Some(
            HttpRequest {
                method,
                url: address,
                headers: match credentials {
                    Some(value) => Map::empty().insert("authorization"@, seq![value]),
                    None => Map::empty(),
                },
                body: None,
            },
        ),
        None => None,
    }
}

/// The header that marks a body as JSON.
pub open spec fn json_line() -> Line {
    ("content-type"@, "application/json"@)
}

/// The header that asks for events.
pub open spec fn events_line() -> Line {
    ("accept"@, "text/event-stream"@)
}

/// A request that posts a JSON text to a URL of which `prepared` was made.
pub open spec fn json_request(
    prepared: Option<(Seq<char>, Option<Seq<char>>)>,
    text: Seq<char>,
) -> Option<HttpRequest> {
    with_body(
        with_line(fresh_request("POST"@, prepared), json_line()),
        vstd::utf8::encode_utf8(text),
    )
}

/// How many header names a request may hold when one more value is added.
pub const MAX_NAMES: usize = 6553;

/// Whether a builder holds no more than `n` header names.
pub open spec fn at_most(builder: reqwest::RequestBuilder, n: int) -> bool {
    request_of(builder) matches Some(r) ==> r.headers.dom().finite() && r.headers.dom().len() <= n
}

/// `reqwest::Client::new`. Nothing is claimed of the client: it holds the proxies
/// that the environment names. No argument decides whether it can be made: the
/// call panics only in a process in which no TLS backend can be set up.
#[verifier::external_body]
pub(crate) fn new_client() -> (client: reqwest::Client) {
    reqwest::Client::new()
}

/// `reqwest::Client::get`: a request for the URL, without a body, and without
/// headers unless the URL holds credentials, which takes an `@`. A URL that
/// `reqwest` does not accept leaves a builder without a request.
#[verifier::external_body]
fn start_get(client: &reqwest::Client, url: &String) -> (builder:
    reqwest::RequestBuilder)
    ensures
        request_of(builder) == fresh_request("GET"@, prepared_url(url@)),
        !url@.contains('@') ==> (request_of(builder) matches Some(r) ==> r.headers == Map::<
            Seq<char>,
            Seq<Seq<char>>,
        >::empty()),
{
    client.get(url)
}

/// `reqwest::Client::post`: as `reqwest::Client::get`, with the other method.
#[verifier::external_body]
fn start_post(client: &reqwest::Client, url: &String) -> (builder:
    reqwest::RequestBuilder)
    ensures
        request_of(builder) == fresh_request("POST"@, prepared_url(url@)),
        !url@.contains('@') ==> (request_of(builder) matches Some(r) ==> r.headers == Map::<
            Seq<char>,
            Seq<Seq<char>>,
        >::empty()),
{
    client.post(url)
}

/// `reqwest::RequestBuilder::header`: the value is added behind those that the
/// name has. A name or a value that the `http` crate does not accept leaves the
/// builder without a request. The header map of that crate panics when it would
/// have to grow past its limit, which takes more than `MAX_NAMES` names: from
/// there on it depends on how the names hash.
#[verifier::external_body]
fn add_header(
    builder: reqwest::RequestBuilder,
    name: &str,
    value: &str,
) -> (after: reqwest::RequestBuilder)
    requires
        at_most(builder, MAX_NAMES as int),
    ensures
        request_of(after) == with_line(request_of(builder), (name@, value@)),
{
    builder.header(name, value)
}

/// `reqwest::RequestBuilder::body` with a string: its UTF-8 bytes become the body.
#[verifier::external_body]
fn set_body(builder: reqwest::RequestBuilder, text: String) -> (after:
    reqwest::RequestBuilder)
    ensures
        request_of(after) == with_body(request_of(builder), vstd::utf8::encode_utf8(text@)),
{
    builder.body(text)
}

/// `reqwest_eventsource::EventSource::new`: the stream sends the request with a
/// header that asks for events. A builder without a request is refused, and so may
/// be one whose request has a body. Nothing is sent before the stream is polled.
/// The header map is asked for room twice, for that header and for a default one of
/// the client.
#[verifier::external_body]
pub(crate) fn new_event_source(builder: reqwest::RequestBuilder) -> (source: Result<
    reqwest_eventsource::EventSource,
    reqwest_eventsource::CannotCloneRequestError,
>)
    requires
        at_most(builder, MAX_NAMES - 1),
    ensures
        request_of(builder) is None ==> source is Err,
        request_of(builder) matches Some(r) ==> r.body is None ==> source is Ok,
        source matches Ok(s) ==> stream_of(s) == with_line(request_of(builder), events_line()),
{
    reqwest_eventsource::EventSource::new(builder)
}

proof fn lemma_fresh_names(method: Seq<char>, prepared: Option<(Seq<char>, Option<Seq<char>>)>)
    ensures
        fresh_request(method, prepared) matches Some(r) ==> r.headers.dom().finite()
            && r.headers.dom().len() <= 1,
{
    let none = Map::<Seq<char>, Seq<Seq<char>>>::empty();
    assert(none.dom() =~= Set::empty());
    assert(none.dom().len() == 0);
}

/// Adds one header.
pub(crate) fn push_header(
    builder: reqwest::RequestBuilder,
    name: &str,
    value: &str,
    Ghost(n): Ghost<int>,
) -> (after: reqwest::RequestBuilder)
    requires
        at_most(builder, n),
        n <= MAX_NAMES,
    ensures
        request_of(after) == with_line(request_of(builder), (name@, value@)),
        at_most(after, n + 1),
{
    add_header(builder, name, value)
}

/// Adds the headers of a table, in their order.
pub(crate) fn push_headers(
    builder: reqwest::RequestBuilder,
    table: &HeaderTable,
    Ghost(n): Ghost<int>,
) -> (after: reqwest::RequestBuilder)
    requires
        at_most(builder, n),
        n + table@.len() <= MAX_NAMES + 1,
    ensures
        request_of(after) == with_lines(request_of(builder), table@),
        at_most(after, n + table@.len()),
{
    let ghost start = request_of(builder);
    let mut after = builder;
    let mut i: usize = 0;
    assert(table@.take(0) =~= Seq::<Line>::empty());
    while i < table.len()
        invariant
            i <= table@.len(),
            n + table@.len() <= MAX_NAMES + 1,
            request_of(after) == with_lines(start, table@.take(i as int)),
            at_most(after, n + i),
        decreases table@.len() - i,
    {
        after =
        push_header(after, table.name(i).as_str(), table.value(i).as_str(), Ghost(n + i));
        proof {
            let next = table@.take(i + 1);
            assert(next.drop_last() =~= table@.take(i as int));
            assert(next.last() == table@[i as int]);
        }
        i = i + 1;
    }
    assert(table@.take(i as int) =~= table@);
    after
}

/// Whether a prepared URL held no credentials.
pub open spec fn without_credentials(prepared: Option<(Seq<char>, Option<Seq<char>>)>) -> bool {
    prepared matches Some(p) ==> p.1 is None
}

proof fn lemma_no_credentials(method: Seq<char>, prepared: Option<(Seq<char>, Option<Seq<char>>)>)
    requires
        fresh_request(method, prepared) matches Some(r) ==> r.headers == Map::<
            Seq<char>,
            Seq<Seq<char>>,
        >::empty(),
    ensures
        without_credentials(prepared),
{
    if let Some(p) = prepared {
        if let Some(value) = p.1 {
            let none = Map::<Seq<char>, Seq<Seq<char>>>::empty();
            assert(none.insert("authorization"@, seq![value]).contains_key("authorization"@));
            assert(!none.contains_key("authorization"@));
        }
    }
}

/// A request for `url`, without a body.
pub(crate) fn get_request(client: &reqwest::Client, url: &String) -> (builder:
    reqwest::RequestBuilder)
    ensures
        request_of(builder) == fresh_request("GET"@, prepared_url(url@)),
        at_most(builder, 1),
        !url@.contains('@') ==> without_credentials(prepared_url(url@)),
{
    proof {
        lemma_fresh_names("GET"@, prepared_url(url@));
    }
    let builder = start_get(client, url);
    proof {
        if !url@.contains('@') {
            lemma_no_credentials("GET"@, prepared_url(url@));
        }
    }
    builder
}

/// A request that posts the JSON text `text` to `url`.
pub(crate) fn post_request(client: &reqwest::Client, url: &String, text: String) -> (builder:
    reqwest::RequestBuilder)
    ensures
        request_of(builder) == json_request(prepared_url(url@), text@),
        at_most(builder, 2),
        !url@.contains('@') ==> without_credentials(prepared_url(url@)),
{
    proof {
        lemma_fresh_names("POST"@, prepared_url(url@));
    }
    let builder = start_post(client, url);
    proof {
        if !url@.contains('@') {
            lemma_no_credentials("POST"@, prepared_url(url@));
        }
    }
    let builder = push_header(builder, "content-type", "application/json", Ghost(1));
    set_body(builder, text)
}

/// Whether a header can be added to a request.
pub open spec fn is_line(line: Line) -> bool {
    is_name(line.0) && is_value(line.1)
}

/// A request takes further headers exactly if each has a proper name and a proper
/// value. Its method, its address and its body stay as they were.
pub proof fn lines_leave_the_rest(request: Option<HttpRequest>, lines: Seq<Line>)
    ensures
        with_lines(request, lines) is Some <==> request is Some && forall|i: int|
            0 <= i < lines.len() ==> is_line(#[trigger] lines[i]),
        with_lines(request, lines) matches Some(after) ==> {
            &&& request matches Some(before)
            &&& after.method == before.method
            &&& after.url == before.url
            &&& after.body == before.body
        },
    decreases lines.len(),
{
    if lines.len() > 0 {
        let front = lines.drop_last();
        lines_leave_the_rest(request, front);
        assert(forall|i: int| 0 <= i < front.len() ==> front[i] == lines[i]);
        if with_lines(request, lines) is Some {
            assert forall|i: int| 0 <= i < lines.len() implies is_line(#[trigger] lines[i]) by {
                if i < front.len() {
                    assert(is_line(front[i]));
                }
            }
        }
        if request is Some && forall|i: int| 0 <= i < lines.len() ==> is_line(#[trigger] lines[i]) {
            assert forall|i: int| 0 <= i < front.len() implies is_line(#[trigger] front[i]) by {
                assert(is_line(lines[i]));
            }
            assert(is_line(lines[lines.len() - 1]));
        }
    }
}

/// Every header that is added is carried: its value stands under its name. What a
/// request carried before it carries still, in front of what was added.
pub proof fn lines_are_carried(before: HttpRequest, lines: Seq<Line>, after: HttpRequest)
    requires
        with_lines(Some(before), lines) == Some(after),
    ensures
        forall|i: int|
            0 <= i < lines.len() ==> after.headers.contains_key(lower((#[trigger] lines[i]).0))
                && after.headers[lower(lines[i].0)].contains(lines[i].1),
        forall|name: Seq<char>| #[trigger]
            before.headers.contains_key(name) ==> after.headers.contains_key(name)
                && before.headers[name].is_prefix_of(after.headers[name]),
    decreases lines.len(),
{
    if lines.len() > 0 {
        let front = lines.drop_last();
        let middle = with_lines(Some(before), front).unwrap();
        lines_leave_the_rest(Some(before), lines);
        lines_leave_the_rest(Some(before), front);
        lines_are_carried(before, front, middle);
        let line = lines.last();
        let key = lower(line.0);
        let old_values = if middle.headers.contains_key(key) {
            middle.headers[key]
        } else {
            Seq::empty()
        };
        let new_values = old_values.push(line.1);
        assert(after.headers[key] =~= new_values);
        assert(new_values[new_values.len() - 1] == line.1);
        assert forall|i: int| 0 <= i < lines.len() implies after.headers.contains_key(
            lower((#[trigger] lines[i]).0),
        ) && after.headers[lower(lines[i].0)].contains(lines[i].1) by {
            if i < front.len() {
                let name = lower(front[i].0);
                assert(front[i] == lines[i]);
                assert(middle.headers[name].contains(front[i].1));
                let at = choose|at: int|
                    0 <= at < middle.headers[name].len() && middle.headers[name][at] == front[i].1;
                if name == key {
                    assert(after.headers[name][at] == front[i].1);
                }
            }
        }
        assert forall|name: Seq<char>| #[trigger] before.headers.contains_key(name) implies
            after.headers.contains_key(name) && before.headers[name].is_prefix_of(
            after.headers[name],
        ) by {
            assert(middle.headers.contains_key(name));
        }
    } else {
        assert(after == before);
    }
}

/// No header is made up: each name that a request carries it carried before, or it
/// was added.
pub proof fn no_header_is_made_up(
    before: HttpRequest,
    lines: Seq<Line>,
    after: HttpRequest,
    name: Seq<char>,
)
    requires
        with_lines(Some(before), lines) == Some(after),
        after.headers.contains_key(name),
    ensures
        before.headers.contains_key(name) || exists|i: int|
            0 <= i < lines.len() && lower((#[trigger] lines[i]).0) == name,
    decreases lines.len(),
{
    if lines.len() > 0 {
        let front = lines.drop_last();
        let middle = with_lines(Some(before), front).unwrap();
        if lower(lines.last().0) == name {
            assert(lower(lines[lines.len() - 1].0) == name);
        } else {
            no_header_is_made_up(before, front, middle, name);
            if !before.headers.contains_key(name) {
                let i = choose|i: int|
                    0 <= i < front.len() && lower((#[trigger] front[i]).0) == name;
                assert(lower(lines[i].0) == name);
            }
        }
    }
}

/// The header that is added last has the last value under its name.
pub proof fn last_line_comes_last(before: HttpRequest, lines: Seq<Line>, after: HttpRequest)
    requires
        lines.len() > 0,
        with_lines(Some(before), lines) == Some(after),
    ensures
        after.headers.contains_key(lower(lines.last().0)),
        after.headers[lower(lines.last().0)].len() > 0,
        after.headers[lower(lines.last().0)].last() == lines.last().1,
{
}

/// Adding headers and setting the body do not get in each other's way: requests that
/// differ in their bodies take the same headers, and differ in their bodies still.
pub proof fn lines_ignore_body(
    request: Option<HttpRequest>,
    lines: Seq<Line>,
    one: Seq<u8>,
    other: Seq<u8>,
)
    ensures
        with_lines(with_body(request, other), lines) == with_body(
            with_lines(with_body(request, one), lines),
            other,
        ),
    decreases lines.len(),
{
    if lines.len() > 0 {
        lines_ignore_body(request, lines.drop_last(), one, other);
    }
}

/// A posted message is JSON: its first content type says so, and its body is the
/// text.
pub proof fn posted_message_is_json(
    prepared: (Seq<char>, Option<Seq<char>>),
    text: Seq<char>,
)
    ensures
        json_request(Some(prepared), text) matches Some(r) && {
            &&& r.method == "POST"@
            &&& r.url == prepared.0
            &&& r.headers.contains_key("content-type"@)
            &&& r.headers["content-type"@] == seq!["application/json"@]
            &&& r.body == Some(vstd::utf8::encode_utf8(text))
        },
{
    reveal_strlit("content-type");
    reveal_strlit("application/json");
    reveal_strlit("authorization");
    assert(is_line(json_line()));
    assert(lower("content-type"@) =~= "content-type"@);
    assert("content-type"@.len() != "authorization"@.len());
}

} // verus!
