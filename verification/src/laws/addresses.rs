//! Where messages go: what becomes of the server's URL and of what the server
//! announces.
use vstd::prelude::*;

use crate::endpoint::{base_url, session_endpoint, session_url};
#[allow(unused_imports)]
use crate::endpoint::{
    authority_start, base_of, endpoint_of, http_prefix, https_prefix, path_endpoint_is_kept,
    scheme_mark, slash,
};
use crate::text::{char_vec, find, matches_at, skip_all};
#[allow(unused_imports)]
use crate::text::{
    find_from, find_from_absent, find_from_is_first, find_from_unique, occurs_at, strip_all,
};

verus! {

/// Whether `part` is what `text` reads from position `at` on.
pub open spec fn reads_at(text: Seq<char>, part: Seq<char>, at: int) -> bool {
    &&& 0 <= at
    &&& at + part.len() <= text.len()
    &&& forall|k: int| 0 <= k < part.len() ==> text[at + k] == #[trigger] part[k]
}

proof fn lemma_reads_occurs(text: Seq<char>, part: Seq<char>, at: int)
    ensures
        occurs_at(text, part, at) == reads_at(text, part, at),
{
    if 0 <= at && at + part.len() <= text.len() {
        let cut = text.subrange(at, at + part.len());
        assert(forall|k: int| 0 <= k < part.len() ==> cut[k] == text[at + k]);
        if occurs_at(text, part, at) {
            assert(forall|k: int| 0 <= k < part.len() ==> cut[k] == #[trigger] part[k]);
        }
        if reads_at(text, part, at) {
            assert(cut =~= part);
        }
    }
}

/// The characters of a string are taken out whole and in their order.
pub proof fn characters_are_kept(text: &str, chars: Vec<char>)
    requires
        call_ensures(char_vec, (text,), chars),
    ensures
        chars@.len() == text@.len(),
        forall|k: int| 0 <= k < text@.len() ==> chars@[k] == text@[k],
{
}

/// What is found is there, and nothing of it stands before; where nothing is found
/// there is nothing.
pub proof fn found_is_first(
    chars: &Vec<char>,
    pattern: &Vec<char>,
    from: usize,
    found: Option<usize>,
    here: usize,
    matched: bool,
)
    requires
        from <= here,
        call_ensures(find, (chars, pattern, from), found),
        call_ensures(matches_at, (chars, pattern, here), matched),
    ensures
        matched == reads_at(chars@, pattern@, here as int),
        found matches Some(at) ==> from <= at && reads_at(chars@, pattern@, at as int),
        matched ==> found is Some && found.unwrap() <= here,
{
    find_from_is_first(chars@, pattern@, from as int);
    lemma_reads_occurs(chars@, pattern@, here as int);
    if let Some(at) = found {
        lemma_reads_occurs(chars@, pattern@, at as int);
    }
}

/// What is skipped is copies of the pattern, one behind the other, and no further
/// copy follows.
pub proof fn skipped_is_copies(
    chars: &Vec<char>,
    pattern: &Vec<char>,
    from: usize,
    end: usize,
    n: int,
)
    requires
        from <= chars@.len(),
        pattern@.len() == n,
        n > 0,
        call_ensures(skip_all, (chars, pattern, from), end),
    ensures
        from <= end <= chars@.len(),
        (end - from) % n == 0,
        forall|k: int|
            from <= k < end ==> #[trigger] chars@[k] == pattern@[(k - from) % n],
        !reads_at(chars@, pattern@, end as int),
{
    lemma_strip_is_copies(chars@.skip(from as int), pattern@);
    let rest = chars@.skip(from as int);
    let left = strip_all(rest, pattern@);
    assert(left == chars@.skip(end as int));
    assert(left.len() == chars@.len() - end);
    assert(rest.len() - left.len() == end - from);
    assert forall|k: int| from <= k < end implies #[trigger] chars@[k] == pattern@[(k - from)
        % n] by {
        assert(rest[k - from] == chars@[k]);
    }
    if reads_at(chars@, pattern@, end as int) {
        assert forall|k: int| 0 <= k < n implies left[0 + k] == #[trigger] pattern@[k] by {
            assert(left[k] == chars@[end + k]);
        }
        assert(reads_at(left, pattern@, 0));
    }
}

proof fn lemma_strip_is_copies(text: Seq<char>, pattern: Seq<char>)
    requires
        pattern.len() > 0,
    ensures
        strip_all(text, pattern).len() <= text.len(),
        (text.len() - strip_all(text, pattern).len()) % (pattern.len() as int) == 0,
        forall|k: int|
            0 <= k < text.len() - strip_all(text, pattern).len() ==> #[trigger] text[k]
                == pattern[k % (pattern.len() as int)],
        !reads_at(strip_all(text, pattern), pattern, 0),
    decreases text.len(),
{
    let n = pattern.len() as int;
    lemma_reads_occurs(text, pattern, 0);
    if occurs_at(text, pattern, 0) {
        let rest = text.skip(n);
        lemma_strip_is_copies(rest, pattern);
        let m = rest.len() - strip_all(rest, pattern).len();
        assert((m + n) % n == m % n) by (nonlinear_arith)
            requires
                n > 0,
        ;
        assert forall|k: int| 0 <= k < m + n implies #[trigger] text[k] == pattern[k % n] by {
            if k < n {
                assert(k % n == k) by (nonlinear_arith)
                    requires
                        0 <= k < n,
                ;
                assert(text[0 + k] == pattern[k]);
            } else {
                assert(text[k] == rest[k - n]);
                assert((k - n) % n == k % n) by (nonlinear_arith)
                    requires
                        n > 0,
                ;
            }
        }
        assert(text.len() - strip_all(text, pattern).len() == m + n);
    } else {
        assert(0int % n == 0) by (nonlinear_arith)
            requires
                n > 0,
        ;
    }
}

proof fn lemma_mark(text: Seq<char>, at: int)
    ensures
        occurs_at(text, scheme_mark(), at) == reads_at(text, seq![':', '/', '/'], at),
{
    lemma_reads_occurs(text, scheme_mark(), at);
    assert(scheme_mark() =~= seq![':', '/', '/']);
}

proof fn lemma_slash(text: Seq<char>, at: int)
    ensures
        occurs_at(text, slash(), at) <==> 0 <= at < text.len() && text[at] == '/',
{
    lemma_reads_occurs(text, slash(), at);
    if 0 <= at < text.len() && text[at] == '/' {
        assert(forall|k: int| 0 <= k < slash().len() ==> text[at + k] == #[trigger] slash()[k]);
    }
    if reads_at(text, slash(), at) {
        assert(text[at + 0] == slash()[0]);
    }
}

/// The first slash of `front + path` from `from` on, where `front` has none there.
proof fn lemma_path_start(front: Seq<char>, path: Seq<char>, from: int)
    requires
        0 <= from <= front.len(),
        forall|k: int| from <= k < front.len() ==> front[k] != '/',
        path.len() == 0 || path[0] == '/',
    ensures
        match find_from(front + path, slash(), from) {
            Some(at) => at == front.len() && (front + path).take(at) == front && path.len() > 0,
            None => path.len() == 0,
        },
{
    let text = front + path;
    let n = front.len() as int;
    assert forall|j: int| from <= j < n implies !occurs_at(text, slash(), j) by {
        lemma_slash(text, j);
        assert(text[j] == front[j]);
    }
    lemma_slash(text, n);
    if path.len() > 0 {
        assert(text[n] == path[0]);
        find_from_unique(text, slash(), from, n);
        assert(text.take(n) =~= front);
    } else {
        assert forall|j: int| from <= j implies !occurs_at(text, slash(), j) by {
            lemma_slash(text, j);
        }
        find_from_absent(text, slash(), from);
    }
}

/// The base of a URL with a scheme is the scheme, its mark and the authority: all that
/// stands before the path.
pub proof fn base_is_scheme_and_authority(
    url: &str,
    base: String,
    scheme: Seq<char>,
    authority: Seq<char>,
    path: Seq<char>,
)
    requires
        call_ensures(base_url, (url,), base),
        url@ == scheme + seq![':', '/', '/'] + authority + path,
        forall|j: int| 0 <= j < scheme.len() ==> !reads_at(url@, seq![':', '/', '/'], j),
        !authority.contains('/'),
        path.len() == 0 || path[0] == '/',
    ensures
        base@ == scheme + seq![':', '/', '/'] + authority,
{
    let front = scheme + seq![':', '/', '/'] + authority;
    let n = scheme.len() as int;
    assert forall|j: int| 0 <= j < n implies !occurs_at(url@, scheme_mark(), j) by {
        lemma_mark(url@, j);
    }
    lemma_mark(url@, n);
    let mark = seq![':', '/', '/'];
    assert forall|k: int| 0 <= k < mark.len() implies url@[n + k] == #[trigger] mark[k] by {
        assert((scheme + mark)[n + k] == mark[k]);
    }
    find_from_unique(url@, scheme_mark(), 0, n);
    assert forall|k: int| n + 3 <= k < front.len() implies front[k] != '/' by {
        assert(front[k] == authority[k - n - 3]);
        assert(authority.contains(authority[k - n - 3]));
    }
    lemma_path_start(front, path, n + 3);
    assert(front + path =~= front || path.len() > 0);
    assert(front + path == url@);
}

/// The base of a URL without a scheme is the authority: all that stands before the
/// path.
pub proof fn base_is_authority(url: &str, base: String, authority: Seq<char>, path: Seq<char>)
    requires
        call_ensures(base_url, (url,), base),
        url@ == authority + path,
        forall|j: int| 0 <= j < url@.len() ==> !reads_at(url@, seq![':', '/', '/'], j),
        !authority.contains('/'),
        path.len() == 0 || path[0] == '/',
    ensures
        base@ == authority,
{
    assert forall|j: int| 0 <= j implies !occurs_at(url@, scheme_mark(), j) by {
        lemma_mark(url@, j);
    }
    find_from_absent(url@, scheme_mark(), 0);
    assert forall|k: int| 0 <= k < authority.len() implies authority[k] != '/' by {
        assert(authority.contains(authority[k]));
    }
    lemma_path_start(authority, path, 0);
    assert(authority + path =~= authority || path.len() > 0);
}

/// The URL posted to is the base of the server's URL and the whole endpoint behind
/// it.
pub proof fn posted_url_ends_with_endpoint(
    server_url: &str,
    endpoint: &str,
    base: String,
    url: String,
)
    requires
        call_ensures(base_url, (server_url,), base),
        call_ensures(session_url, (server_url, endpoint), url),
    ensures
        base@.is_prefix_of(server_url@),
        url@.len() == base@.len() + endpoint@.len(),
        url@.take(base@.len() as int) == base@,
        url@.skip(base@.len() as int) == endpoint@,
{
    crate::endpoint::base_is_prefix(server_url@);
    assert(url@.take(base@.len() as int) =~= base@);
    assert(url@.skip(base@.len() as int) =~= endpoint@);
}

/// An announcement without a slash is the endpoint.
pub proof fn announcement_without_slash_is_kept(data: String, endpoint: String)
    requires
        call_ensures(session_endpoint, (data,), endpoint),
        !data@.contains('/'),
    ensures
        endpoint@ == data@,
{
    lemma_no_slash(data@);
}

proof fn lemma_no_slash(data: Seq<char>)
    requires
        !data.contains('/'),
    ensures
        endpoint_of(data) == data,
{
    lemma_reads_occurs(data, http_prefix(), 0);
    lemma_reads_occurs(data, https_prefix(), 0);
    if reads_at(data, http_prefix(), 0) {
        assert(data[5] == http_prefix()[5]);
        assert(data.contains(data[5]));
    }
    if reads_at(data, https_prefix(), 0) {
        assert(data[6] == https_prefix()[6]);
        assert(data.contains(data[6]));
    }
    assert forall|j: int| 0 <= j implies !occurs_at(data, slash(), j) by {
        lemma_slash(data, j);
        if 0 <= j < data.len() {
            assert(data.contains(data[j]));
        }
    }
    find_from_absent(data, slash(), 0);
}

/// Of an announcement that opens with no scheme, the endpoint is all from the first
/// slash on; so an announcement that is a path is the endpoint as a whole.
pub proof fn announced_path_is_kept(
    data: String,
    endpoint: String,
    authority: Seq<char>,
    path: Seq<char>,
)
    requires
        call_ensures(session_endpoint, (data,), endpoint),
        data@ == authority + path,
        !authority.contains('/'),
        path.len() > 0,
        path[0] == '/',
        !reads_at(data@, seq!['h', 't', 't', 'p', ':', '/', '/'], 0),
        !reads_at(data@, seq!['h', 't', 't', 'p', 's', ':', '/', '/'], 0),
    ensures
        endpoint@ == path,
{
    lemma_reads_occurs(data@, http_prefix(), 0);
    lemma_reads_occurs(data@, https_prefix(), 0);
    assert(http_prefix() =~= seq!['h', 't', 't', 'p', ':', '/', '/']);
    assert(https_prefix() =~= seq!['h', 't', 't', 'p', 's', ':', '/', '/']);
    assert forall|k: int| 0 <= k < authority.len() implies authority[k] != '/' by {
        assert(authority.contains(authority[k]));
    }
    lemma_path_start(authority, path, 0);
    let at = find_from(data@, slash(), 0).unwrap();
    assert(slash() + data@.skip(at + 1) =~= path) by {
        assert(data@.skip(at + 1) =~= path.skip(1));
        assert(slash() + path.skip(1) =~= path);
    }
}

/// A leading plain scheme makes no difference to the path that an announcement
/// names. Where it names none, the announcement is kept as it stands.
pub proof fn plain_scheme_comes_off(
    rest: String,
    data: String,
    endpoint_of_rest: String,
    endpoint: String,
)
    requires
        call_ensures(session_endpoint, (rest,), endpoint_of_rest),
        call_ensures(session_endpoint, (data,), endpoint),
        data@ == seq!['h', 't', 't', 'p', ':', '/', '/'] + rest@,
    ensures
        endpoint_of_rest@.len() > 0 && endpoint_of_rest@[0] == '/' ==> endpoint@
            == endpoint_of_rest@,
        endpoint_of_rest@.len() == 0 || endpoint_of_rest@[0] != '/' ==> endpoint@ == data@,
{
    assert(http_prefix() =~= seq!['h', 't', 't', 'p', ':', '/', '/']);
    assert(data@.subrange(0, 7) =~= http_prefix());
    assert(data@.skip(7) =~= rest@);
    lemma_endpoint_shape(rest@);
}

/// So does a leading secured scheme that no plain one follows.
pub proof fn secured_scheme_comes_off(
    rest: String,
    data: String,
    endpoint_of_rest: String,
    endpoint: String,
)
    requires
        call_ensures(session_endpoint, (rest,), endpoint_of_rest),
        call_ensures(session_endpoint, (data,), endpoint),
        data@ == seq!['h', 't', 't', 'p', 's', ':', '/', '/'] + rest@,
        !reads_at(rest@, seq!['h', 't', 't', 'p', ':', '/', '/'], 0),
    ensures
        endpoint_of_rest@.len() > 0 && endpoint_of_rest@[0] == '/' ==> endpoint@
            == endpoint_of_rest@,
        endpoint_of_rest@.len() == 0 || endpoint_of_rest@[0] != '/' ==> endpoint@ == data@,
{
    assert(http_prefix() =~= seq!['h', 't', 't', 'p', ':', '/', '/']);
    assert(https_prefix() =~= seq!['h', 't', 't', 'p', 's', ':', '/', '/']);
    assert(data@.subrange(0, 8) =~= https_prefix());
    assert(data@.skip(8) =~= rest@);
    lemma_reads_occurs(rest@, http_prefix(), 0);
    lemma_secured_is_not_plain(data@);
    lemma_endpoint_shape(rest@);
}

proof fn lemma_secured_is_not_plain(data: Seq<char>)
    requires
        occurs_at(data, https_prefix(), 0),
    ensures
        !occurs_at(data, http_prefix(), 0),
{
    lemma_reads_occurs(data, http_prefix(), 0);
    lemma_reads_occurs(data, https_prefix(), 0);
    assert(data[4] == https_prefix()[4]);
    if reads_at(data, http_prefix(), 0) {
        assert(data[4] == http_prefix()[4]);
    }
}

/// A plain scheme behind a secured one stays, and its mark is taken for the start of
/// the path.
pub proof fn plain_scheme_behind_secured_stays(rest: Seq<char>, data: String, endpoint: String)
    requires
        call_ensures(session_endpoint, (data,), endpoint),
        data@ == seq!['h', 't', 't', 'p', 's', ':', '/', '/'] + seq![
            'h',
            't',
            't',
            'p',
            ':',
            '/',
            '/',
        ] + rest,
    ensures
        endpoint@ == seq!['/', '/'] + rest,
{
    let inner = seq!['h', 't', 't', 'p', ':', '/', '/'] + rest;
    assert(https_prefix() =~= seq!['h', 't', 't', 'p', 's', ':', '/', '/']);
    assert(data@.subrange(0, 8) =~= https_prefix());
    assert(data@.skip(8) =~= inner);
    lemma_secured_is_not_plain(data@);
    lemma_reads_occurs(inner, https_prefix(), 0);
    assert(inner[4] == ':');
    if reads_at(inner, https_prefix(), 0) {
        assert(inner[4] == https_prefix()[4]);
    }
    let front = seq!['h', 't', 't', 'p', ':'];
    let path = seq!['/', '/'] + rest;
    assert(inner =~= front + path);
    lemma_path_start(front, path, 0);
    assert(!occurs_at(inner, https_prefix(), 0));
    assert(strip_all(inner, https_prefix()) == inner);
    assert(strip_all(data@, https_prefix()) == strip_all(data@.skip(8), https_prefix()));
    let at = find_from(inner, slash(), 0).unwrap();
    assert(inner.skip(at + 1) =~= path.skip(1));
    assert(slash() + path.skip(1) =~= path);
}

/// An endpoint begins with a slash exactly if a path was found in the announcement.
proof fn lemma_endpoint_shape(data: Seq<char>)
    ensures
        ({
            let rest = strip_all(strip_all(data, http_prefix()), https_prefix());
            let found = find_from(rest, slash(), 0) is Some;
            let endpoint = endpoint_of(data);
            found <==> endpoint.len() > 0 && endpoint[0] == '/'
        }),
{
    let rest = strip_all(strip_all(data, http_prefix()), https_prefix());
    if find_from(rest, slash(), 0) is None && data.len() > 0 && data[0] == '/' {
        path_endpoint_is_kept(data);
        lemma_reads_occurs(data, http_prefix(), 0);
        lemma_reads_occurs(data, https_prefix(), 0);
        if reads_at(data, http_prefix(), 0) {
            assert(data[0] == http_prefix()[0]);
        }
        if reads_at(data, https_prefix(), 0) {
            assert(data[0] == https_prefix()[0]);
        }
        find_from_is_first(data, slash(), 0);
        lemma_slash(data, 0);
        assert(false);
    }
}

} // verus!
