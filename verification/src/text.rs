//! Searching and trimming text, character by character.
use vstd::prelude::*;
use vstd::string::*;

verus! {

/// Whether `pattern` stands in `s` at position `at`.
pub open spec fn occurs_at(s: Seq<char>, pattern: Seq<char>, at: int) -> bool {
    &&& 0 <= at
    &&& at + pattern.len() <= s.len()
    &&& s.subrange(at, at + pattern.len()) =~= pattern
}

/// The first position of `pattern` in `s` that is not before `from`.
pub open spec fn find_from(s: Seq<char>, pattern: Seq<char>, from: int) -> Option<int>
    decreases s.len() - from,
{
    if from + pattern.len() > s.len() {
        None
    } else if occurs_at(s, pattern, from) {
        Some(from)
    } else {
        find_from(s, pattern, from + 1)
    }
}

/// What is left of `s` once every leading copy of `pattern` is taken off.
pub open spec fn strip_all(s: Seq<char>, pattern: Seq<char>) -> Seq<char>
    decreases s.len(),
{
    if pattern.len() > 0 && occurs_at(s, pattern, 0) {
        strip_all(s.skip(pattern.len() as int), pattern)
    } else {
        s
    }
}

/// `find_from` gives the least position at which the pattern occurs, and `None`
/// only where it occurs nowhere from `from` on.
pub proof fn find_from_is_first(s: Seq<char>, pattern: Seq<char>, from: int)
    requires
        0 <= from,
    ensures
        match find_from(s, pattern, from) {
            Some(at) => {
                &&& from <= at
                &&& occurs_at(s, pattern, at)
                &&& forall|j: int| from <= j < at ==> !occurs_at(s, pattern, j)
            },
            None => forall|j: int| from <= j ==> !occurs_at(s, pattern, j),
        },
    decreases s.len() - from,
{
    if from + pattern.len() > s.len() {
    } else if !occurs_at(s, pattern, from) {
        find_from_is_first(s, pattern, from + 1);
    }
}

/// A position at which the pattern occurs and before which it does not is the
/// one that `find_from` gives.
pub proof fn find_from_unique(s: Seq<char>, pattern: Seq<char>, from: int, at: int)
    requires
        0 <= from <= at,
        occurs_at(s, pattern, at),
        forall|j: int| from <= j < at ==> !occurs_at(s, pattern, j),
    ensures
        find_from(s, pattern, from) == Some(at),
{
    find_from_is_first(s, pattern, from);
}

/// A pattern that occurs nowhere is not found.
pub proof fn find_from_absent(s: Seq<char>, pattern: Seq<char>, from: int)
    requires
        0 <= from,
        forall|j: int| from <= j ==> !occurs_at(s, pattern, j),
    ensures
        find_from(s, pattern, from) is None,
{
    find_from_is_first(s, pattern, from);
}

/// The characters of a string.
pub fn char_vec(s: &str) -> (v: Vec<char>)
    ensures
        v@ == s@,
{
    let mut v: Vec<char> = Vec::new();
    for c in it: s.chars()
        invariant
            it.seq() == s@,
            v@ == s@.take(it.index() as int),
    {
        v.push(c);
    }
    v
}

/// Whether `pattern` stands in `chars` at position `at`.
pub fn matches_at(chars: &Vec<char>, pattern: &Vec<char>, at: usize) -> (r: bool)
    requires
        at <= chars.len(),
    ensures
        r == occurs_at(chars@, pattern@, at as int),
{
    if pattern.len() > chars.len() - at {
        return false;
    }
    let mut i: usize = 0;
    while i < pattern.len()
        invariant
            i <= pattern.len() <= chars.len() - at,
            at <= chars.len(),
            forall|j: int| 0 <= j < i ==> chars@[at + j] == pattern@[j],
        decreases pattern.len() - i,
    {
        if chars[at + i] != pattern[i] {
            assert(chars@.subrange(at as int, at + pattern@.len())[i as int] != pattern@[i as int]);
            return false;
        }
        i = i + 1;
    }
    true
}

/// The first position of `pattern` in `chars` that is not before `from`.
pub fn find(chars: &Vec<char>, pattern: &Vec<char>, from: usize) -> (r: Option<usize>)
    requires
        from <= chars.len(),
    ensures
        match r {
            Some(at) => find_from(chars@, pattern@, from as int) == Some(at as int),
            None => find_from(chars@, pattern@, from as int) is None,
        },
{
    let mut at: usize = from;
    while at < chars.len()
        invariant
            from <= at <= chars.len(),
            find_from(chars@, pattern@, from as int) == find_from(chars@, pattern@, at as int),
        decreases chars.len() - at,
    {
        if pattern.len() > chars.len() - at {
            return None;
        }
        if matches_at(chars, pattern, at) {
            return Some(at);
        }
        at = at + 1;
    }
    if pattern.len() == 0 {
        assert(occurs_at(chars@, pattern@, at as int));
        return Some(at);
    }
    None
}

/// The position behind every copy of `pattern` that follows `from` directly.
pub fn skip_all(chars: &Vec<char>, pattern: &Vec<char>, from: usize) -> (r: usize)
    requires
        from <= chars.len(),
    ensures
        from <= r <= chars.len(),
        chars@.skip(r as int) == strip_all(chars@.skip(from as int), pattern@),
{
    if pattern.len() == 0 {
        return from;
    }
    let mut at: usize = from;
    while matches_at(chars, pattern, at)
        invariant
            from <= at <= chars.len(),
            0 < pattern.len(),
            strip_all(chars@.skip(from as int), pattern@) == strip_all(
                chars@.skip(at as int),
                pattern@,
            ),
        ensures
            from <= at <= chars.len(),
            !occurs_at(chars@, pattern@, at as int),
            strip_all(chars@.skip(from as int), pattern@) == strip_all(
                chars@.skip(at as int),
                pattern@,
            ),
        decreases chars.len() - at,
    {
        proof {
            let n = pattern@.len() as int;
            assert(chars@.skip(at as int).subrange(0, n) =~= chars@.subrange(at as int, at + n));
            assert(chars@.skip(at as int).skip(n) =~= chars@.skip(at + n));
        }
        at = at + pattern.len();
    }
    proof {
        let n = pattern@.len() as int;
        if occurs_at(chars@.skip(at as int), pattern@, 0) {
            assert(chars@.skip(at as int).subrange(0, n) =~= chars@.subrange(at as int, at + n));
        }
    }
    at
}

} // verus!
