//! The header collection: names mapped to values, each name held once, the
//! last value written for a name being the one kept.

use crate::https::text::str_eq;
use vstd::prelude::*;

verus! {

/// A header collection as a sequence of name and value pairs.
pub type Entries = Seq<(Seq<char>, Seq<char>)>;

/// Position of the first entry at or after `from` that has the given name, or
/// `e.len()` where there is none.
pub open spec fn name_index(e: Entries, name: Seq<char>, from: int) -> int
    decreases e.len() - from,
{
    if from < 0 || from >= e.len() {
        e.len() as int
    } else if e[from].0 == name {
        from
    } else {
        name_index(e, name, from + 1)
    }
}

/// The value held for a name, if any.
pub open spec fn lookup(e: Entries, name: Seq<char>) -> Option<Seq<char>> {
    let i = name_index(e, name, 0);
    if i < e.len() {
        Some(e[i].1)
    } else {
        None
    }
}

/// The collection after `name` was given `value`: the name keeps its place
/// where it was present, and is added at the end where it was not.
pub open spec fn upsert(e: Entries, name: Seq<char>, value: Seq<char>) -> Entries {
    let i = name_index(e, name, 0);
    if i < e.len() {
        e.update(i, (name, value))
    } else {
        e.push((name, value))
    }
}

/// The collection after every entry of `extra` was written into `base`, in
/// order.
pub open spec fn merge(base: Entries, extra: Entries) -> Entries
    decreases extra.len(),
{
    if extra.len() == 0 {
        base
    } else {
        merge(upsert(base, extra[0].0, extra[0].1), extra.drop_first())
    }
}

/// Whether no name occurs twice.
pub open spec fn distinct_names(e: Entries) -> bool {
    forall|i: int, j: int| 0 <= i < j < e.len() ==> (#[trigger] e[i]).0 != (#[trigger] e[j]).0
}

/// `name_index` returns the least position of the name, if any.
pub proof fn lemma_name_index(e: Entries, name: Seq<char>, from: int)
    requires
        0 <= from,
    ensures
        ({
            let r = name_index(e, name, from);
            &&& forall|j: int| from <= j < r && j < e.len() ==> (#[trigger] e[j]).0 != name
            &&& (r == e.len() || (from <= r < e.len() && e[r].0 == name))
        }),
    decreases e.len() - from,
{
    if from < e.len() && e[from].0 != name {
        lemma_name_index(e, name, from + 1);
    }
}

/// Writing a name keeps the names distinct, and the name then has the value.
pub proof fn lemma_upsert(e: Entries, name: Seq<char>, value: Seq<char>)
    requires
        distinct_names(e),
    ensures
        distinct_names(upsert(e, name, value)),
        lookup(upsert(e, name, value), name) == Some(value),
        forall|other: Seq<char>|
            other != name ==> lookup(upsert(e, name, value), other) == lookup(e, other),
{
    let u = upsert(e, name, value);
    let i = name_index(e, name, 0);
    lemma_name_index(e, name, 0);
    lemma_name_index(u, name, 0);
    assert forall|a: int, b: int| 0 <= a < b < u.len() implies (#[trigger] u[a]).0 != (
    #[trigger] u[b]).0 by {
        if i < e.len() {
            assert(u[a].0 == e[a].0);
            assert(u[b].0 == e[b].0);
        } else {
            if b < e.len() {
                assert(u[a] == e[a]);
                assert(u[b] == e[b]);
            } else {
                assert(u[a] == e[a]);
            }
        }
    }
    assert(lookup(u, name) == Some(value)) by {
        let k = name_index(u, name, 0);
        if i < e.len() {
            assert(u[i].0 == name);
            if k < i {
                assert(u[k].0 == e[k].0);
            }
            if k > i {
                assert(u[i].0 != name);
            }
        } else {
            assert(u[e.len() as int].0 == name);
            if k < e.len() {
                assert(u[k] == e[k]);
            }
        }
    }
    assert forall|other: Seq<char>| other != name implies lookup(u, other) == lookup(
        e,
        other,
    ) by {
        lemma_name_index(e, other, 0);
        lemma_name_index(u, other, 0);
        let a = name_index(e, other, 0);
        let b = name_index(u, other, 0);
        if a < e.len() {
            assert(u[a].0 == other);
            if b < a {
                assert(e[b].0 == u[b].0);
            }
        } else {
            if b < u.len() {
                if b < e.len() {
                    assert(e[b].0 == u[b].0);
                }
            }
        }
    }
}

/// Merging keeps the names distinct.
pub proof fn lemma_merge_distinct(base: Entries, extra: Entries)
    requires
        distinct_names(base),
    ensures
        distinct_names(merge(base, extra)),
    decreases extra.len(),
{
    if extra.len() > 0 {
        lemma_upsert(base, extra[0].0, extra[0].1);
        lemma_merge_distinct(upsert(base, extra[0].0, extra[0].1), extra.drop_first());
    }
}

/// After a merge a name has the value that `extra` holds for it, and
/// otherwise the one that `base` holds.
pub proof fn lemma_merge_lookup(base: Entries, extra: Entries, name: Seq<char>)
    requires
        distinct_names(base),
        distinct_names(extra),
    ensures
        lookup(merge(base, extra), name) == (if lookup(extra, name) is Some {
            lookup(extra, name)
        } else {
            lookup(base, name)
        }),
    decreases extra.len(),
{
    if extra.len() > 0 {
        let first = extra[0];
        let rest = extra.drop_first();
        let next = upsert(base, first.0, first.1);
        lemma_upsert(base, first.0, first.1);
        assert forall|i: int, j: int| 0 <= i < j < rest.len() implies (#[trigger] rest[i]).0 != (
        #[trigger] rest[j]).0 by {
            assert(rest[i] == extra[i + 1]);
            assert(rest[j] == extra[j + 1]);
        }
        lemma_merge_lookup(next, rest, name);
        lemma_name_index(extra, name, 0);
        lemma_name_index(rest, name, 0);
        let a = name_index(extra, name, 0);
        let b = name_index(rest, name, 0);
        if first.0 == name {
            if b < rest.len() {
                assert(rest[b] == extra[b + 1]);
                assert(extra[0].0 != extra[b + 1].0);
            }
        } else {
            if b < rest.len() {
                assert(rest[b] == extra[b + 1]);
                if a < b + 1 {
                    assert(extra[a] == rest[a - 1]);
                    assert(rest[a - 1].0 != name);
                }
                if a > b + 1 {
                    assert(extra[b + 1].0 != name);
                }
            } else {
                if a < extra.len() {
                    assert(extra[a] == rest[a - 1]);
                    assert(rest[a - 1].0 != name);
                }
            }
        }
    } else {
        lemma_name_index(extra, name, 0);
    }
}

/// One header: a name and its value.
#[derive(Debug)]
pub struct Header {
    pub name: String,
    pub value: String,
}

/// The names and values of a sequence of headers.
pub open spec fn entries_of(headers: Seq<Header>) -> Entries {
    Seq::new(headers.len(), |i: int| (headers[i].name@, headers[i].value@))
}

/// A header collection. Names are case-sensitive and each is held once; the
/// entries keep the order in which their names were first written.
#[derive(Debug)]
pub struct HeaderMap {
    entries: Vec<Header>,
}

impl View for HeaderMap {
    type V = Entries;

    closed spec fn view(&self) -> Entries {
        entries_of(self.entries@)
    }
}

impl HeaderMap {
    #[verifier::type_invariant]
    closed spec fn names_are_distinct(self) -> bool {
        distinct_names(self@)
    }

    /// An empty collection.
    pub fn new() -> (r: Self)
        ensures
            r@ == Seq::<(Seq<char>, Seq<char>)>::empty(),
    {
        let r = HeaderMap { entries: Vec::new() };
        assert(r@ =~= Seq::<(Seq<char>, Seq<char>)>::empty());
        r
    }

    /// The number of entries.
    pub fn len(&self) -> (r: usize)
        ensures
            r == self@.len(),
    {
        self.entries.len()
    }

    /// The name of the entry at position `i`.
    pub fn name_at(&self, i: usize) -> (r: &str)
        requires
            i < self@.len(),
        ensures
            r@ == self@[i as int].0,
    {
        self.entries[i].name.as_str()
    }

    /// The value of the entry at position `i`.
    pub fn value_at(&self, i: usize) -> (r: &str)
        requires
            i < self@.len(),
        ensures
            r@ == self@[i as int].1,
    {
        self.entries[i].value.as_str()
    }

    /// Position of the entry with the given name.
    fn position(&self, name: &str) -> (r: Option<usize>)
        ensures
            match r {
                Some(i) => i == name_index(self@, name@, 0) && i < self@.len(),
                None => name_index(self@, name@, 0) == self@.len(),
            },
    {
        let n: usize = self.entries.len();
        let mut i: usize = 0;
        while i < n
            invariant
                i <= n,
                n == self@.len(),
                n == self.entries@.len(),
                name_index(self@, name@, 0) == name_index(self@, name@, i as int),
            decreases n - i,
        {
            if str_eq(self.entries[i].name.as_str(), name) {
                return Some(i);
            }
            i += 1;
        }
        None
    }

    /// The value held for `name`, if any.
    pub fn get(&self, name: &str) -> (r: Option<&str>)
        ensures
            match r {
                Some(v) => lookup(self@, name@) == Some(v@),
                None => lookup(self@, name@) is None,
            },
    {
        match self.position(name) {
            Some(i) => Some(self.entries[i].value.as_str()),
            None => None,
        }
    }

    /// Gives `name` the value `value`, replacing the value it had.
    pub fn insert(&mut self, name: &str, value: &str)
        ensures
            final(self)@ == upsert(old(self)@, name@, value@),
            distinct_names(final(self)@),
    {
        proof {
            use_type_invariant(&*self);
            lemma_upsert(self@, name@, value@);
        }
        let found = self.position(name);
        let entry = Header { name: name.to_owned(), value: value.to_owned() };
        let mut entries: Vec<Header> = Vec::new();
        core::mem::swap(&mut self.entries, &mut entries);
        match found {
            Some(i) => {
                entries.set(i, entry);
            },
            None => {
                entries.push(entry);
            },
        }
        assert(entries_of(entries@) =~= upsert(old(self)@, name@, value@));
        self.entries = entries;
    }

    /// Writes every entry of `other` into this collection, in order.
    pub fn extend(&mut self, other: &HeaderMap)
        ensures
            final(self)@ == merge(old(self)@, other@),
            distinct_names(final(self)@),
    {
        proof {
            use_type_invariant(&*self);
        }
        let n: usize = other.len();
        let mut i: usize = 0;
        assert(other@.skip(0) =~= other@);
        while i < n
            invariant
                i <= n,
                n == other@.len(),
                merge(old(self)@, other@) == merge(self@, other@.skip(i as int)),
                distinct_names(self@),
            decreases n - i,
        {
            let ghost rest = other@.skip(i as int);
            assert(rest.drop_first() =~= other@.skip(i + 1));
            self.insert(other.name_at(i), other.value_at(i));
            i += 1;
        }
    }
}

} // verus!
