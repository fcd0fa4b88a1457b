//! The headers that a transport was given.
use vstd::prelude::*;

verus! {

/// A header: its name and its value.
pub type Line = (Seq<char>, Seq<char>);

/// Whether no two lines have the same name.
pub open spec fn distinct_names(lines: Seq<Line>) -> bool {
    forall|i: int, j: int| 0 <= i < j < lines.len() ==> lines[i].0 != lines[j].0
}

/// Whether the line at `at` has the given name.
pub open spec fn names_at(lines: Seq<Line>, name: Seq<char>, at: int) -> bool {
    0 <= at < lines.len() && lines[at].0 == name
}

/// Whether a line has the given name.
pub open spec fn has_name(lines: Seq<Line>, name: Seq<char>) -> bool {
    exists|at: int| names_at(lines, name, at)
}

/// The lines as a table from names to values.
pub open spec fn table(lines: Seq<Line>) -> Map<Seq<char>, Seq<char>> {
    Map::new(
        |name: Seq<char>| has_name(lines, name),
        |name: Seq<char>| lines[choose|at: int| names_at(lines, name, at)].1,
    )
}

/// The lines with the value of `name` set: in place where the name is there, at
/// the end where it is not.
pub open spec fn put(lines: Seq<Line>, name: Seq<char>, value: Seq<char>) -> Seq<Line> {
    if has_name(lines, name) {
        lines.map_values(
            |line: Line|
                if line.0 == name {
                    (name, value)
                } else {
                    line
                },
        )
    } else {
        lines.push((name, value))
    }
}

/// Setting a value keeps names distinct.
pub proof fn put_keeps_distinct(lines: Seq<Line>, name: Seq<char>, value: Seq<char>)
    requires
        distinct_names(lines),
    ensures
        distinct_names(put(lines, name, value)),
{
    if !has_name(lines, name) {
        assert forall|i: int| 0 <= i < lines.len() implies lines[i].0 != name by {
            assert(!names_at(lines, name, i));
        }
    }
}

/// Setting a value replaces the one that the name had and leaves every other name
/// with its value.
pub proof fn put_is_insert(lines: Seq<Line>, name: Seq<char>, value: Seq<char>)
    requires
        distinct_names(lines),
    ensures
        table(put(lines, name, value)) == table(lines).insert(name, value),
{
    let after = put(lines, name, value);
    put_keeps_distinct(lines, name, value);
    let set_at = if has_name(lines, name) {
        choose|at: int| names_at(lines, name, at)
    } else {
        lines.len() as int
    };
    assert(names_at(after, name, set_at));
    assert forall|n: Seq<char>| n != name implies #[trigger] has_name(after, n) == has_name(
        lines,
        n,
    ) by {
        if has_name(after, n) {
            let at = choose|at: int| names_at(after, n, at);
            assert(names_at(lines, n, at));
        }
        if has_name(lines, n) {
            let at = choose|at: int| names_at(lines, n, at);
            assert(names_at(after, n, at));
        }
    }
    assert(table(after) =~= table(lines).insert(name, value)) by {
        assert forall|n: Seq<char>| table(lines).insert(name, value).contains_key(n) implies table(
            after,
        )[n] == table(lines).insert(name, value)[n] by {
            let at = choose|at: int| names_at(after, n, at);
            if n == name {
                assert(names_at(after, n, at));
                assert(at == set_at);
            } else {
                let before = choose|at: int| names_at(lines, n, at);
                assert(names_at(lines, n, before));
                assert(names_at(after, n, before));
                assert(names_at(after, n, at));
                assert(at == before);
            }
        }
    }
}

/// In which order two different names are set does not matter.
pub proof fn puts_commute(
    lines: Seq<Line>,
    a: Seq<char>,
    x: Seq<char>,
    b: Seq<char>,
    y: Seq<char>,
)
    requires
        distinct_names(lines),
        a != b,
    ensures
        table(put(put(lines, a, x), b, y)) == table(put(put(lines, b, y), a, x)),
{
    put_keeps_distinct(lines, a, x);
    put_keeps_distinct(lines, b, y);
    put_is_insert(lines, a, x);
    put_is_insert(lines, b, y);
    put_is_insert(put(lines, a, x), b, y);
    put_is_insert(put(lines, b, y), a, x);
    assert(table(lines).insert(a, x).insert(b, y) =~= table(lines).insert(b, y).insert(a, x));
}

/// Headers by name, each name once.
pub struct HeaderTable {
    entries: Vec<(String, String)>,
}

/// The names and values of stored headers.
pub closed spec fn lines_of(entries: Seq<(String, String)>) -> Seq<Line> {
    entries.map_values(|e: (String, String)| (e.0@, e.1@))
}

impl View for HeaderTable {
    type V = Seq<Line>;

    closed spec fn view(&self) -> Seq<Line> {
        lines_of(self.entries@)
    }
}

impl HeaderTable {
    #[verifier::type_invariant]
    spec fn names_once(self) -> bool {
        distinct_names(lines_of(self.entries@))
    }

    /// No headers.
    pub fn new() -> (table: HeaderTable)
        ensures
            table@ == Seq::<Line>::empty(),
    {
        let table = HeaderTable { entries: Vec::new() };
        assert(table@ =~= Seq::<Line>::empty());
        table
    }

    /// How many headers there are.
    pub fn len(&self) -> (n: usize)
        ensures
            n == self@.len(),
            distinct_names(self@),
    {
        proof {
            use_type_invariant(self);
        }
        self.entries.len()
    }

    /// The name of the header at `i`.
    pub fn name(&self, i: usize) -> (name: &String)
        requires
            i < self@.len(),
        ensures
            name@ == self@[i as int].0,
    {
        &self.entries[i].0
    }

    /// The value of the header at `i`.
    pub fn value(&self, i: usize) -> (value: &String)
        requires
            i < self@.len(),
        ensures
            value@ == self@[i as int].1,
    {
        &self.entries[i].1
    }

    /// The table with the value of `name` set.
    pub fn insert(self, name: String, value: String) -> (table: HeaderTable)
        ensures
            distinct_names(self@),
            distinct_names(table@),
            table@ == put(self@, name@, value@),
    {
        proof {
            use_type_invariant(&self);
            put_keeps_distinct(self@, name@, value@);
        }
        let ghost before = self@;
        let ghost wanted = (name@, value@);
        let mut entries = self.entries;
        let mut i: usize = 0;
        while i < entries.len()
            invariant
                i <= entries.len(),
                before == self@,
                before == lines_of(entries@),
                distinct_names(before),
                distinct_names(put(before, name@, value@)),
                wanted == (name@, value@),
                forall|j: int| 0 <= j < i ==> before[j].0 != name@,
            decreases entries.len() - i,
        {
            if entries[i].0 == name {
                assert(names_at(before, name@, i as int));
                entries.set(i, (name, value));
                proof {
                    assert(lines_of(entries@) =~= put(before, wanted.0, wanted.1));
                }
                return HeaderTable { entries };
            }
            i = i + 1;
        }
        entries.push((name, value));
        assert(lines_of(entries@) =~= before.push(wanted));
        HeaderTable { entries }
    }
}

} // verus!
