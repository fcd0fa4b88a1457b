use mcp_core::endpoint::{base_url, session_endpoint, session_url};
use mcp_core::text::{char_vec, find, matches_at, skip_all};

fn endpoint(data: &str) -> String {
    session_endpoint(data.to_string())
}

#[test]
fn base_of_an_absolute_url() {
    assert_eq!(base_url("https://example.com/sse"), "https://example.com");
    assert_eq!(base_url("http://localhost:8080/a/b?c=d"), "http://localhost:8080");
    assert_eq!(base_url("http://localhost:8080"), "http://localhost:8080");
    assert_eq!(base_url("http:///x"), "http://");
}

#[test]
fn base_of_a_url_without_scheme() {
    assert_eq!(base_url("localhost:8080/sse"), "localhost:8080");
    assert_eq!(base_url("localhost"), "localhost");
    assert_eq!(base_url(""), "");
    assert_eq!(base_url("/sse"), "");
}

#[test]
fn base_goes_by_the_first_scheme_mark() {
    assert_eq!(base_url("host/p?u=http://x/y"), "host/p?u=http://x");
    assert_eq!(base_url("http://a://b/c"), "http://a:");
}

#[test]
fn base_of_text_beyond_ascii() {
    assert_eq!(base_url("http://bücher.example/ü"), "http://bücher.example");
}

#[test]
fn base_of_a_base_is_that_base() {
    for url in ["https://example.com/sse", "a/b", "x://y//z", "", "://"] {
        let base = base_url(url);
        assert_eq!(base_url(&base), base);
        assert!(url.starts_with(&base));
    }
}

#[test]
fn endpoint_that_is_a_path() {
    assert_eq!(endpoint("/messages?session=1"), "/messages?session=1");
    assert_eq!(endpoint("/"), "/");
}

#[test]
fn endpoint_of_an_absolute_announcement() {
    assert_eq!(endpoint("http://host:1/messages?x=/y"), "/messages?x=/y");
    assert_eq!(endpoint("https://host/m"), "/m");
    assert_eq!(endpoint("host/m/n"), "/m/n");
}

#[test]
fn endpoint_without_a_path_is_kept() {
    assert_eq!(endpoint("http://host"), "http://host");
    assert_eq!(endpoint("messages"), "messages");
    assert_eq!(endpoint(""), "");
    assert_eq!(endpoint("http://"), "http://");
}

#[test]
fn repeated_schemes_come_off() {
    assert_eq!(endpoint("http://http://host/m"), "/m");
    assert_eq!(endpoint("http://https://https://host/m"), "/m");
    // The plain scheme comes off first, so behind a secured one it stays.
    assert_eq!(endpoint("https://http://host/m"), "//host/m");
}

#[test]
fn endpoint_of_an_endpoint_is_that_endpoint() {
    for data in ["/m", "http://host/m", "host", "https://http://host/m", "ü/ö"] {
        let once = endpoint(data);
        assert_eq!(endpoint(&once), once);
    }
}

#[test]
fn messages_stay_on_the_origin() {
    for data in ["/m", "http://elsewhere.example/m?u=http://x/y", "elsewhere/m"] {
        let target = session_url("https://example.com/sse", &endpoint(data));
        assert_eq!(base_url(&target), "https://example.com");
    }
    assert_eq!(session_url("https://example.com/sse", "/m?s=1"), "https://example.com/m?s=1");
    assert_eq!(base_url(&session_url("https://example.com/sse", "")), "https://example.com");
    assert_eq!(base_url(&session_url("host/sse", "/m")), "host");
    // An announcement without a path names no endpoint on the origin.
    assert_eq!(session_url("https://example.com/sse", &endpoint("x")), "https://example.comx");
}

#[test]
fn finding_and_skipping() {
    let text = char_vec("ababc");
    let ab = char_vec("ab");
    assert_eq!(text, vec!['a', 'b', 'a', 'b', 'c']);
    assert_eq!(find(&text, &ab, 0), Some(0));
    assert_eq!(find(&text, &ab, 1), Some(2));
    assert_eq!(find(&text, &ab, 3), None);
    assert_eq!(find(&text, &char_vec(""), 5), Some(5));
    assert!(matches_at(&text, &ab, 2));
    assert!(!matches_at(&text, &ab, 4));
    assert_eq!(skip_all(&text, &ab, 0), 4);
    assert_eq!(skip_all(&text, &ab, 1), 1);
    assert_eq!(skip_all(&text, &char_vec(""), 1), 1);
}
