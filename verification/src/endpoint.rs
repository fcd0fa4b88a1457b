//! Where messages to the server go: the origin of the URL that the transport
//! was made with, followed by the endpoint that the server announced.
use vstd::prelude::*;
use vstd::string::*;

use crate::text::{char_vec, find, skip_all};
#[allow(unused_imports)]
use crate::text::{find_from, find_from_absent, find_from_is_first, find_from_unique, occurs_at, strip_all};

verus! {

/// The mark between a scheme and an authority.
pub open spec fn scheme_mark() -> Seq<char> {
    seq![':', '/', '/']
}

/// The start of a path.
pub open spec fn slash() -> Seq<char> {
    seq!['/']
}

/// The plain scheme with its mark.
pub open spec fn http_prefix() -> Seq<char> {
    seq!['h', 't', 't', 'p', ':', '/', '/']
}

/// The secured scheme with its mark.
pub open spec fn https_prefix() -> Seq<char> {
    seq!['h', 't', 't', 'p', 's', ':', '/', '/']
}

/// Where the authority of a URL starts: behind the first scheme mark, or at the
/// front where there is none.
pub open spec fn authority_start(url: Seq<char>) -> int {
    match find_from(url, scheme_mark(), 0) {
        Some(at) => at + 3,
        None => 0,
    }
}

/// The scheme and the authority of a URL: all that stands before the first slash
/// of the authority.
pub open spec fn base_of(url: Seq<char>) -> Seq<char> {
    match find_from(url, slash(), authority_start(url)) {
        Some(end) => url.take(end),
        None => url,
    }
}

/// The session endpoint that an announcement names. Leading schemes come off;
/// what then follows the first slash is the path. An announcement without a path
/// is taken as it stands.
pub open spec fn endpoint_of(data: Seq<char>) -> Seq<char> {
    let rest = strip_all(strip_all(data, http_prefix()), https_prefix());
    match find_from(rest, slash(), 0) {
        Some(at) => slash() + rest.skip(at + 1),
        None => data,
    }
}

/// The URL that messages of a session are posted to.
pub open spec fn target_of(server_url: Seq<char>, endpoint: Seq<char>) -> Seq<char> {
    base_of(server_url) + endpoint
}

/// The scheme and the authority of `url`.
pub fn base_url(url: &str) -> (base: String)
    ensures
        base@ == base_of(url@),
{
    let chars = char_vec(url);
    let mark: Vec<char> = vec![':', '/', '/'];
    let slash_only: Vec<char> = vec!['/'];
    assert(mark@ =~= scheme_mark());
    assert(slash_only@ =~= slash());
    proof {
        find_from_is_first(url@, scheme_mark(), 0);
        find_from_is_first(url@, slash(), authority_start(url@));
    }
    let start: usize = match find(&chars, &mark, 0) {
        Some(at) => at + 3,
        None => 0,
    };
    let end: usize = match find(&chars, &slash_only, start) {
        Some(at) => at,
        None => chars.len(),
    };
    assert(url@.take(url@.len() as int) =~= url@);
    url.substring_char(0, end).to_owned()
}

/// The session endpoint that the announcement `data` names.
pub fn session_endpoint(data: String) -> (endpoint: String)
    ensures
        endpoint@ == endpoint_of(data@),
{
    let chars = char_vec(data.as_str());
    let plain: Vec<char> = vec!['h', 't', 't', 'p', ':', '/', '/'];
    let secured: Vec<char> = vec!['h', 't', 't', 'p', 's', ':', '/', '/'];
    let slash_only: Vec<char> = vec!['/'];
    assert(plain@ =~= http_prefix());
    assert(secured@ =~= https_prefix());
    assert(slash_only@ =~= slash());
    assert(data@.skip(0) =~= data@);
    let start: usize = skip_all(&chars, &secured, skip_all(&chars, &plain, 0));
    let ghost rest = data@.skip(start as int);
    proof {
        find_from_is_first(data@, slash(), start as int);
        find_from_is_first(rest, slash(), 0);
        lemma_find_in_skip(data@, slash(), start as int);
    }
    match find(&chars, &slash_only, start) {
        Some(at) => {
            proof {
                assert(rest.subrange(at - start, at - start + 1) =~= slash());
                assert(rest[at - start] == slash()[0]);
                assert(data@.subrange(at as int, data@.len() as int) =~= slash() + rest.skip(
                    at - start + 1,
                ));
            }
            data.as_str().substring_char(at, chars.len()).to_owned()
        },
        None => data,
    }
}

/// The URL that messages of a session are posted to.
pub fn session_url(server_url: &str, endpoint: &str) -> (url: String)
    ensures
        url@ == target_of(server_url@, endpoint@),
{
    base_url(server_url).concat(endpoint)
}

proof fn lemma_find_in_skip(s: Seq<char>, pattern: Seq<char>, from: int)
    requires
        0 <= from <= s.len(),
    ensures
        match find_from(s, pattern, from) {
            Some(at) => find_from(s.skip(from), pattern, 0) == Some(at - from),
            None => find_from(s.skip(from), pattern, 0) is None,
        },
{
    let rest = s.skip(from);
    assert forall|j: int| 0 <= j implies occurs_at(rest, pattern, j) == occurs_at(
        s,
        pattern,
        from + j,
    ) by {
        if j + pattern.len() <= rest.len() {
            assert(rest.subrange(j, j + pattern.len()) =~= s.subrange(
                from + j,
                from + j + pattern.len(),
            ));
        }
    }
    find_from_is_first(s, pattern, from);
    match find_from(s, pattern, from) {
        Some(at) => {
            assert(occurs_at(rest, pattern, at - from)) by {
                assert(occurs_at(s, pattern, from + (at - from)));
            }
            assert forall|j: int| 0 <= j < at - from implies !occurs_at(rest, pattern, j) by {
                assert(!occurs_at(s, pattern, from + j));
            }
            find_from_unique(rest, pattern, 0, at - from);
        },
        None => {
            assert forall|j: int| 0 <= j implies !occurs_at(rest, pattern, j) by {
                assert(!occurs_at(s, pattern, from + j));
            }
            find_from_absent(rest, pattern, 0);
        },
    }
}

/// Occurrences that lie within a common prefix are the same.
proof fn lemma_occurs_in_prefix(s: Seq<char>, t: Seq<char>, n: int, pattern: Seq<char>, at: int)
    requires
        0 <= n <= s.len(),
        n <= t.len(),
        s.take(n) == t.take(n),
        at + pattern.len() <= n,
    ensures
        occurs_at(s, pattern, at) == occurs_at(t, pattern, at),
{
    if 0 <= at {
        assert(s.subrange(at, at + pattern.len()) =~= s.take(n).subrange(at, at + pattern.len()));
        assert(t.subrange(at, at + pattern.len()) =~= t.take(n).subrange(at, at + pattern.len()));
    }
}

/// A one-character pattern occurs where the character stands.
proof fn lemma_slash_occurs(s: Seq<char>, at: int)
    ensures
        occurs_at(s, slash(), at) <==> 0 <= at < s.len() && s[at] == '/',
{
    if 0 <= at < s.len() {
        let part = s.subrange(at, at + 1);
        assert(part[0] == s[at]);
        if s[at] == '/' {
            assert(part =~= slash());
        }
        if part =~= slash() {
            assert(part[0] == slash()[0]);
        }
    }
}

/// The base of a URL is the front of that URL.
pub proof fn base_is_prefix(url: Seq<char>)
    ensures
        base_of(url).is_prefix_of(url),
{
    find_from_is_first(url, scheme_mark(), 0);
    find_from_is_first(url, slash(), authority_start(url));
}

/// No slash follows the authority's start in a base, so a base holds no path.
pub proof fn base_has_no_path(url: Seq<char>, at: int)
    requires
        authority_start(url) <= at < base_of(url).len(),
    ensures
        base_of(url)[at] != '/',
{
    find_from_is_first(url, scheme_mark(), 0);
    find_from_is_first(url, slash(), authority_start(url));
    lemma_slash_occurs(url, at);
}

/// Messages stay on the server's origin: whatever endpoint with a leading slash
/// the server announces, the URL posted to has the base of the server's URL. That
/// URL carries a scheme, or else no scheme mark arises in the URL posted to.
pub proof fn target_stays_on_origin(server_url: Seq<char>, endpoint: Seq<char>)
    requires
        find_from(server_url, scheme_mark(), 0) is Some || find_from(
            target_of(server_url, endpoint),
            scheme_mark(),
            0,
        ) is None,
        endpoint.len() > 0 ==> endpoint[0] == '/',
    ensures
        base_of(target_of(server_url, endpoint)) == base_of(server_url),
{
    let base = base_of(server_url);
    let full = target_of(server_url, endpoint);
    let start = authority_start(server_url);
    find_from_is_first(server_url, scheme_mark(), 0);
    find_from_is_first(server_url, slash(), start);
    base_is_prefix(server_url);
    if endpoint.len() == 0 {
        assert(full =~= base);
        base_is_stable(server_url);
    } else {
        assert(full.take(base.len() as int) =~= server_url.take(base.len() as int));
        if let Some(at) = find_from(server_url, scheme_mark(), 0) {
            assert(occurs_at(full, scheme_mark(), at)) by {
                lemma_occurs_in_prefix(server_url, full, base.len() as int, scheme_mark(), at);
            }
            assert forall|j: int| 0 <= j < at implies !occurs_at(full, scheme_mark(), j) by {
                lemma_occurs_in_prefix(server_url, full, base.len() as int, scheme_mark(), j);
            }
            find_from_unique(full, scheme_mark(), 0, at);
        }
        lemma_first_slash(server_url, full, start);
    }
}

proof fn lemma_first_slash(url: Seq<char>, full: Seq<char>, start: int)
    requires
        0 <= start == authority_start(url),
        start == authority_start(full),
        start <= base_of(url).len() < full.len(),
        full[base_of(url).len() as int] == '/',
        full.take(base_of(url).len() as int) == base_of(url),
        base_of(url).is_prefix_of(url),
    ensures
        base_of(full) == base_of(url),
{
    let n = base_of(url).len() as int;
    lemma_slash_occurs(full, n);
    assert forall|j: int| start <= j < n implies !occurs_at(full, slash(), j) by {
        lemma_slash_occurs(full, j);
        base_has_no_path(url, j);
        assert(full[j] == full.take(n)[j]);
    }
    find_from_unique(full, slash(), start, n);
}

/// The base of a base is that base.
pub proof fn base_is_stable(url: Seq<char>)
    ensures
        base_of(base_of(url)) == base_of(url),
{
    let base = base_of(url);
    find_from_is_first(url, scheme_mark(), 0);
    find_from_is_first(url, slash(), authority_start(url));
    base_is_prefix(url);
    let n = base.len() as int;
    assert(url.take(n) =~= base);
    assert(base.take(n) =~= base);
    assert forall|j: int| 0 <= j && j + 3 <= n implies occurs_at(base, scheme_mark(), j)
        == occurs_at(url, scheme_mark(), j) by {
        lemma_occurs_in_prefix(url, base, n, scheme_mark(), j);
    }
    match find_from(url, scheme_mark(), 0) {
        Some(at) => {
            find_from_unique(base, scheme_mark(), 0, at);
        },
        None => {
            find_from_absent(base, scheme_mark(), 0);
        },
    }
    assert forall|j: int| authority_start(url) <= j implies !occurs_at(base, slash(), j) by {
        lemma_slash_occurs(base, j);
        if j < n {
            base_has_no_path(url, j);
        }
    }
    find_from_absent(base, slash(), authority_start(url));
}

/// An announcement that is a path already is the endpoint.
pub proof fn path_endpoint_is_kept(data: Seq<char>)
    requires
        data.len() > 0,
        data[0] == '/',
    ensures
        endpoint_of(data) == data,
{
    assert(!occurs_at(data, http_prefix(), 0)) by {
        if occurs_at(data, http_prefix(), 0) {
            assert(data.subrange(0, 7)[0] == http_prefix()[0]);
        }
    }
    assert(!occurs_at(data, https_prefix(), 0)) by {
        if occurs_at(data, https_prefix(), 0) {
            assert(data.subrange(0, 8)[0] == https_prefix()[0]);
        }
    }
    lemma_slash_occurs(data, 0);
    find_from_unique(data, slash(), 0, 0);
    assert(slash() + data.skip(1) =~= data);
}

/// The endpoint taken from an endpoint is that endpoint.
pub proof fn endpoint_is_stable(data: Seq<char>)
    ensures
        endpoint_of(endpoint_of(data)) == endpoint_of(data),
{
    let e = endpoint_of(data);
    let rest = strip_all(strip_all(data, http_prefix()), https_prefix());
    if find_from(rest, slash(), 0) is Some {
        assert(e[0] == '/');
        path_endpoint_is_kept(e);
    }
}

/// The scheme prefix with or without the mark of a secured connection.
pub open spec fn prefix(secured: bool) -> Seq<char> {
    if secured {
        https_prefix()
    } else {
        http_prefix()
    }
}

/// Whether `rest` opens with a scheme that would come off after `prefix(secured)`
/// did.
pub open spec fn opens_with_scheme(rest: Seq<char>, secured: bool) -> bool {
    ||| occurs_at(rest, https_prefix(), 0)
    ||| !secured && occurs_at(rest, http_prefix(), 0)
}

proof fn lemma_strip_scheme(rest: Seq<char>, secured: bool)
    requires
        !opens_with_scheme(rest, secured),
    ensures
        strip_all(strip_all(prefix(secured) + rest, http_prefix()), https_prefix()) == rest,
{
    let data = prefix(secured) + rest;
    let n = prefix(secured).len() as int;
    assert(data.subrange(0, n) =~= prefix(secured));
    assert(data.skip(n) =~= rest);
    if secured {
        assert(!occurs_at(data, http_prefix(), 0)) by {
            if occurs_at(data, http_prefix(), 0) {
                assert(data.subrange(0, 7)[4] == http_prefix()[4]);
                assert(data[4] == https_prefix()[4]);
            }
        }
        assert(strip_all(data, https_prefix()) == strip_all(rest, https_prefix()));
    } else {
        assert(strip_all(data, http_prefix()) == strip_all(rest, http_prefix()));
    }
}

/// Of an absolute announcement only the path is kept: neither its scheme nor its
/// authority has a say in where messages go. The one announcement left out is that
/// whose authority and path read as another scheme.
pub proof fn absolute_endpoint_is_path(secured: bool, authority: Seq<char>, path: Seq<char>)
    requires
        !authority.contains('/'),
        !opens_with_scheme(authority + slash() + path, secured),
    ensures
        endpoint_of(prefix(secured) + (authority + slash() + path)) == slash() + path,
{
    let rest = authority + slash() + path;
    lemma_strip_scheme(rest, secured);
    let n = authority.len() as int;
    assert(rest[n] == '/');
    lemma_slash_occurs(rest, n);
    assert forall|j: int| 0 <= j < n implies !occurs_at(rest, slash(), j) by {
        lemma_slash_occurs(rest, j);
        assert(rest[j] == authority[j]);
        assert(authority.contains(authority[j]));
    }
    find_from_unique(rest, slash(), 0, n);
    assert(rest.skip(n + 1) =~= path);
}

/// An absolute announcement without a path is kept as it stands.
pub proof fn bare_announcement_is_kept(secured: bool, authority: Seq<char>)
    requires
        !authority.contains('/'),
    ensures
        endpoint_of(prefix(secured) + authority) == prefix(secured) + authority,
{
    assert(!occurs_at(authority, https_prefix(), 0)) by {
        if occurs_at(authority, https_prefix(), 0) {
            assert(authority.subrange(0, 8)[6] == https_prefix()[6]);
            assert(authority.contains(authority[6]));
        }
    }
    assert(!occurs_at(authority, http_prefix(), 0)) by {
        if occurs_at(authority, http_prefix(), 0) {
            assert(authority.subrange(0, 7)[5] == http_prefix()[5]);
            assert(authority.contains(authority[5]));
        }
    }
    lemma_strip_scheme(authority, secured);
    assert forall|j: int| 0 <= j implies !occurs_at(authority, slash(), j) by {
        lemma_slash_occurs(authority, j);
        if j < authority.len() {
            assert(authority.contains(authority[j]));
        }
    }
    find_from_absent(authority, slash(), 0);
}

} // verus!
