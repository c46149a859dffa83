//! Byte-level building blocks of the HTTP/1.1 wire format: separators and
//! how they are found.

use vstd::prelude::*;

verus! {

/// Carriage return.
pub const CR: u8 = 13;

/// Line feed.
pub const LF: u8 = 10;

/// The colon that ends a header's name.
pub const COLON: u8 = 58;

/// The space.
pub const SPACE: u8 = 32;

/// The two bytes that end every line of a message head.
pub open spec fn crlf() -> Seq<u8> {
    seq![CR, LF]
}

/// The two bytes between a header's name and its value.
pub open spec fn header_separator() -> Seq<u8> {
    seq![COLON, SPACE]
}

/// Whether the bytes `a`, `b` stand at positions `i`, `i + 1` of `s`.
pub open spec fn pair_at(s: Seq<u8>, a: u8, b: u8, i: int) -> bool {
    0 <= i && i + 1 < s.len() && s[i] == a && s[i + 1] == b
}

/// Position of the first occurrence of the pair `a`, `b` at or after `from`,
/// or `s.len()` where there is none.
pub open spec fn find_pair(s: Seq<u8>, a: u8, b: u8, from: int) -> int
    decreases s.len() - from,
{
    if from < 0 || from + 1 >= s.len() {
        s.len() as int
    } else if pair_at(s, a, b, from) {
        from
    } else {
        find_pair(s, a, b, from + 1)
    }
}

/// Position of the first CRLF at or after `from`, or `s.len()`.
pub open spec fn find_crlf(s: Seq<u8>, from: int) -> int {
    find_pair(s, CR, LF, from)
}

/// What `find_pair` returns is the least position of the pair, if any.
pub proof fn lemma_find_pair(s: Seq<u8>, a: u8, b: u8, from: int)
    requires
        0 <= from,
    ensures
        ({
            let r = find_pair(s, a, b, from);
            &&& forall|j: int| from <= j < r ==> !pair_at(s, a, b, j)
            &&& (r == s.len() || (from <= r && r + 1 < s.len() && pair_at(s, a, b, r)))
        }),
    decreases s.len() - from,
{
    if from + 1 >= s.len() {
    } else if pair_at(s, a, b, from) {
    } else {
        lemma_find_pair(s, a, b, from + 1);
    }
}

/// A position that holds the pair, with none before it, is what `find_pair`
/// returns.
pub proof fn lemma_find_pair_is(s: Seq<u8>, a: u8, b: u8, from: int, at: int)
    requires
        0 <= from <= at,
        pair_at(s, a, b, at),
        forall|j: int| from <= j < at ==> !pair_at(s, a, b, j),
    ensures
        find_pair(s, a, b, from) == at,
    decreases at - from,
{
    if from < at {
        lemma_find_pair_is(s, a, b, from + 1, at);
    }
}

/// Finds the first occurrence of the pair `a`, `b` at or after `from`.
pub fn find_pair_from(d: &[u8], a: u8, b: u8, from: usize) -> (r: Option<usize>)
    ensures
        match r {
            Some(i) => i == find_pair(d@, a, b, from as int) && from <= i && i + 1 < d@.len()
                && pair_at(d@, a, b, i as int),
            None => find_pair(d@, a, b, from as int) == d@.len(),
        },
        forall|j: int| from <= j < find_pair(d@, a, b, from as int) ==> !pair_at(d@, a, b, j),
{
    proof {
        lemma_find_pair(d@, a, b, from as int);
    }
    let n: usize = d.len();
    let mut i: usize = from;
    while i < n && n - i >= 2
        invariant
            from <= i,
            n == d@.len(),
            find_pair(d@, a, b, from as int) == find_pair(d@, a, b, i as int),
            forall|j: int| from <= j < find_pair(d@, a, b, from as int) ==> !pair_at(d@, a, b, j),
        decreases n - i,
    {
        if d[i] == a && d[i + 1] == b {
            return Some(i);
        }
        i += 1;
    }
    None
}

/// Appends `bytes` to `buf`.
pub fn push_bytes(buf: &mut Vec<u8>, bytes: &[u8])
    ensures
        final(buf)@ == old(buf)@ + bytes@,
{
    let n: usize = bytes.len();
    let mut i: usize = 0;
    while i < n
        invariant
            i <= n,
            n == bytes@.len(),
            buf@ == old(buf)@ + bytes@.take(i as int),
        decreases n - i,
    {
        buf.push(bytes[i]);
        assert(bytes@.take(i + 1) =~= bytes@.take(i as int).push(bytes@[i as int]));
        i += 1;
    }
    assert(bytes@.take(n as int) =~= bytes@);
}

} // verus!
