//! What is written for the wire reads back: chunked bodies, and the head and
//! body of an encoded request.

use crate::https::client::Methods;
use crate::https::headers::{
    distinct_names, lemma_name_index, lemma_upsert, lookup, name_index, upsert, Entries,
};
use crate::https::number::{
    decimal_text, digit_value, lemma_ascii_is_text, lemma_number_digits,
    lemma_parse_number_digits, number_digits, parse_unsigned,
};
use crate::https::request::{
    header_block, header_line, method_name, request_line, request_wire, wire_body, wire_headers,
    wire_method, wire_route, RequestModel,
};
use crate::https::response::{
    chunk_length, chunked_token, content_length_name, decode_chunks, frame_body, parse_headers, parse_response,
    parse_status, split_header, transfer_encoding_name, HttpResponseError, ResponseModel,
};
use crate::https::wire::{
    crlf, find_crlf, find_pair, lemma_find_pair_is, pair_at, COLON, CR, LF, SPACE,
};
use vstd::prelude::*;
use vstd::utf8::{encode_utf8, encode_utf8_decode_utf8, encode_utf8_valid_utf8};

verus! {

/// Whether the pair `a`, `b` occurs nowhere in `s`.
pub open spec fn free_of_pair(s: Seq<u8>, a: u8, b: u8) -> bool {
    forall|j: int| !pair_at(s, a, b, j)
}

/// In `d`, a stretch that starts at `from`, holds no pair `a`, `b` and is
/// followed by that pair, ends where `find_pair` from its start says. Where
/// the pair is one byte twice, the stretch must not end with it.
pub proof fn lemma_find_pair_after(d: Seq<u8>, a: u8, b: u8, from: int, content: Seq<u8>)
    requires
        0 <= from,
        from + content.len() + 2 <= d.len(),
        d.subrange(from, from + content.len()) == content,
        free_of_pair(content, a, b),
        pair_at(d, a, b, from + content.len()),
        content.len() > 0 ==> !(content.last() == a && a == b),
    ensures
        find_pair(d, a, b, from) == from + content.len(),
{
    assert forall|j: int| from <= j < from + content.len() implies !pair_at(d, a, b, j) by {
        assert(d[j] == content[j - from]);
        if j + 1 < from + content.len() {
            assert(d[j + 1] == content[j + 1 - from]);
            assert(!pair_at(content, a, b, j - from));
        } else {
            assert(d[j + 1] == a);
            assert(content.last() == d[j]);
        }
    }
    lemma_find_pair_is(d, a, b, from, from + content.len());
}

/// One chunk on the wire: its size in hexadecimal, a CRLF, the payload, a
/// CRLF.
pub open spec fn chunk_wire(payload: Seq<u8>) -> Seq<u8> {
    number_digits(payload.len(), 16) + crlf() + payload + crlf()
}

/// A body on the wire as chunks, ended by a chunk of size zero and a blank
/// line.
pub open spec fn chunked_wire(chunks: Seq<Seq<u8>>) -> Seq<u8>
    decreases chunks.len(),
{
    if chunks.len() == 0 {
        seq![48u8] + crlf() + crlf()
    } else {
        chunk_wire(chunks[0]) + chunked_wire(chunks.drop_first())
    }
}

/// The payloads of some chunks, one after the other.
pub open spec fn joined(chunks: Seq<Seq<u8>>) -> Seq<u8>
    decreases chunks.len(),
{
    if chunks.len() == 0 {
        Seq::empty()
    } else {
        chunks[0] + joined(chunks.drop_first())
    }
}

/// The digits of a number hold no carriage return, and are text.
proof fn lemma_digits_are_plain(n: nat, radix: int)
    requires
        radix == 10 || radix == 16,
    ensures
        free_of_pair(number_digits(n, radix), CR, LF),
        vstd::utf8::valid_utf8(number_digits(n, radix)),
{
    let s = number_digits(n, radix);
    lemma_number_digits(n, radix);
    assert forall|i: int| 0 <= i < s.len() implies #[trigger] s[i] < 128 && s[i] != CR by {
        assert(digit_value(s[i], radix) is Some);
    }
    lemma_ascii_is_text(s);
}

/// A size line that was written with `number_digits` reads back as the size.
proof fn lemma_size_line_reads_back(d: Seq<u8>, pos: int, n: nat)
    requires
        0 <= pos,
        n <= usize::MAX,
        pos + number_digits(n, 16).len() + 2 <= d.len(),
        d.subrange(pos, pos + number_digits(n, 16).len()) == number_digits(n, 16),
        pair_at(d, CR, LF, pos + number_digits(n, 16).len()),
    ensures
        find_crlf(d, pos) == pos + number_digits(n, 16).len(),
        chunk_length(d.subrange(pos, find_crlf(d, pos))) == Ok::<usize, HttpResponseError>(
            n as usize,
        ),
{
    let digits = number_digits(n, 16);
    lemma_digits_are_plain(n, 16);
    lemma_find_pair_after(d, CR, LF, pos, digits);
    lemma_parse_number_digits(n, 16, usize::MAX as int);
}

/// Chunks that were written for the wire decode to their payloads, one after
/// the other, whatever stands before and after them; with no chunk at all
/// the body is empty. Every chunk holds at least one byte, as a chunk of
/// size zero ends the body.
pub proof fn lemma_chunks_round_trip(
    before: Seq<u8>,
    chunks: Seq<Seq<u8>>,
    after: Seq<u8>,
    acc: Seq<u8>,
)
    requires
        forall|i: int| 0 <= i < chunks.len() ==> 0 < (#[trigger] chunks[i]).len() <= usize::MAX,
    ensures
        decode_chunks(before + chunked_wire(chunks) + after, before.len() as int, acc) == Ok::<
            Seq<u8>,
            HttpResponseError,
        >(acc + joined(chunks)),
    decreases chunks.len(),
{
    let d = before + chunked_wire(chunks) + after;
    let pos = before.len() as int;
    if chunks.len() == 0 {
        let digits = number_digits(0, 16);
        assert(digits =~= seq![48u8]);
        assert(d.subrange(pos, pos + 1) =~= digits);
        assert(pair_at(d, CR, LF, pos + 1));
        lemma_size_line_reads_back(d, pos, 0);
        assert(acc + joined(chunks) =~= acc);
    } else {
        let payload = chunks[0];
        let n = payload.len();
        let digits = number_digits(n, 16);
        let rest = chunks.drop_first();
        let tail = chunked_wire(rest);
        let end = pos + digits.len();
        lemma_number_digits(n, 16);
        assert(d =~= before + digits + crlf() + payload + crlf() + tail + after);
        assert(d.subrange(pos, pos + digits.len()) =~= digits);
        assert(pair_at(d, CR, LF, end));
        lemma_size_line_reads_back(d, pos, n);
        assert(pair_at(d, CR, LF, end + 2 + n));
        assert(d.subrange(end + 2, end + 2 + n) =~= payload);
        let before2 = before + chunk_wire(payload);
        assert(d =~= before2 + tail + after);
        assert(before2.len() == end + 2 + n + 2);
        assert forall|i: int| 0 <= i < rest.len() implies 0 < (#[trigger] rest[i]).len()
            <= usize::MAX by {
            assert(rest[i] == chunks[i + 1]);
        }
        lemma_chunks_round_trip(before2, rest, after, acc + payload);
        assert(acc + payload + joined(rest) =~= acc + joined(chunks));
    }
}

/// Whether a header can stand on the wire and be read back: neither its name
/// nor its value holds a CRLF, and its name holds no colon and space.
pub open spec fn header_safe(entry: (Seq<char>, Seq<char>)) -> bool {
    &&& free_of_pair(encode_utf8(entry.0), CR, LF)
    &&& free_of_pair(encode_utf8(entry.1), CR, LF)
    &&& free_of_pair(encode_utf8(entry.0), COLON, SPACE)
}

/// Whether every header of a collection can stand on the wire.
pub open spec fn headers_safe(e: Entries) -> bool {
    forall|i: int| 0 <= i < e.len() ==> header_safe(#[trigger] e[i])
}

/// The wire form of two collections, one after the other, is the wire form
/// of the first followed by that of the second.
pub proof fn lemma_header_block_concat(a: Entries, b: Entries)
    ensures
        header_block(a + b) == header_block(a) + header_block(b),
    decreases b.len(),
{
    if b.len() == 0 {
        assert(a + b =~= a);
        assert(header_block(a) + header_block(b) =~= header_block(a));
    } else {
        assert((a + b).drop_last() =~= a + b.drop_last());
        assert((a + b).last() == b.last());
        lemma_header_block_concat(a, b.drop_last());
        assert(header_block(a + b) =~= header_block(a) + header_block(b));
    }
}

/// A header line that stands at `pos` is found as a line and splits into its
/// name and value.
pub proof fn lemma_header_line_reads_back(d: Seq<u8>, pos: int, name: Seq<char>, value: Seq<char>)
    requires
        0 <= pos,
        pos + header_line(name, value).len() <= d.len(),
        d.subrange(pos, pos + header_line(name, value).len()) == header_line(name, value),
        header_safe((name, value)),
    ensures
        find_crlf(d, pos) == pos + header_line(name, value).len() - 2,
        find_crlf(d, pos) > pos,
        split_header(d.subrange(pos, find_crlf(d, pos))) == Ok::<
            (Seq<char>, Seq<char>),
            HttpResponseError,
        >((name, value)),
{
    let n = encode_utf8(name);
    let v = encode_utf8(value);
    let content = n + seq![COLON, SPACE] + v;
    let line = header_line(name, value);
    assert(line =~= content + crlf());
    assert forall|j: int| !pair_at(content, CR, LF, j) by {
        if 0 <= j && j + 1 < content.len() {
            if j + 1 < n.len() {
                assert(content[j] == n[j] && content[j + 1] == n[j + 1]);
                assert(!pair_at(n, CR, LF, j));
            } else if j >= n.len() + 2 {
                assert(content[j] == v[j - n.len() - 2] && content[j + 1] == v[j + 1 - n.len()
                    - 2]);
                assert(!pair_at(v, CR, LF, j - n.len() - 2));
            } else {
                assert(content[n.len() as int] == COLON);
                assert(content[n.len() as int + 1] == SPACE);
            }
        }
    }
    assert(d.subrange(pos, pos + content.len()) =~= content) by {
        assert forall|i: int| 0 <= i < content.len() implies d[pos + i] == content[i] by {
            assert(d.subrange(pos, pos + line.len())[i] == line[i]);
        }
    }
    assert(pair_at(d, CR, LF, pos + content.len())) by {
        let c = content.len() as int;
        assert(d.subrange(pos, pos + line.len())[c] == line[c]);
        assert(d.subrange(pos, pos + line.len())[c + 1] == line[c + 1]);
    }
    lemma_find_pair_after(d, CR, LF, pos, content);
    assert(d.subrange(pos, find_crlf(d, pos)) == content);
    assert(n.len() > 0 ==> content.subrange(0, n.len() as int).last() == n.last());
    assert(content.subrange(0, n.len() as int) =~= n);
    assert(pair_at(content, COLON, SPACE, n.len() as int));
    lemma_find_pair_after(content, COLON, SPACE, 0, n);
    assert(content.subrange(n.len() as int + 2, content.len() as int) =~= v);
    encode_utf8_valid_utf8(name);
    encode_utf8_valid_utf8(value);
    encode_utf8_decode_utf8(name);
    encode_utf8_decode_utf8(value);
}

/// A header that is added to a collection without its name gets the last
/// place.
proof fn lemma_upsert_new_name(e: Entries, k: int)
    requires
        0 <= k < e.len(),
        distinct_names(e),
    ensures
        upsert(e.take(k), e[k].0, e[k].1) == e.take(k + 1),
{
    let head = e.take(k);
    lemma_name_index(head, e[k].0, 0);
    let i = name_index(head, e[k].0, 0);
    if i < head.len() {
        assert(head[i] == e[i]);
        assert(e[i].0 != e[k].0);
    }
    assert(head.push((e[k].0, e[k].1)) =~= e.take(k + 1));
}

/// The headers of a collection, written for the wire and followed by a blank
/// line, read back as the collection, whatever stands before and after them:
/// from the `k`-th line on, with the first `k` headers read already.
pub proof fn lemma_header_block_reads_back(
    before: Seq<u8>,
    e: Entries,
    k: int,
    after: Seq<u8>,
)
    requires
        0 <= k <= e.len(),
        distinct_names(e),
        headers_safe(e),
    ensures
        parse_headers(
            before + header_block(e) + crlf() + after,
            (before.len() + header_block(e.take(k)).len()) as int,
            e.take(k),
        ) == Ok::<(Entries, int), HttpResponseError>(
            (e, (before.len() + header_block(e).len() + 2) as int),
        ),
    decreases e.len() - k,
{
    let d = before + header_block(e) + crlf() + after;
    let done = header_block(e.take(k));
    let pos: int = (before.len() + done.len()) as int;
    assert(e.take(k) + e.skip(k) =~= e);
    lemma_header_block_concat(e.take(k), e.skip(k));
    if k == e.len() {
        assert(e.take(k) =~= e);
        assert(pair_at(d, CR, LF, pos));
        lemma_find_pair_is(d, CR, LF, pos, pos);
    } else {
        let line = header_line(e[k].0, e[k].1);
        assert(seq![e[k]] + e.skip(k + 1) =~= e.skip(k));
        lemma_header_block_concat(seq![e[k]], e.skip(k + 1));
        let one = seq![e[k]];
        assert(one.drop_last() =~= Seq::<(Seq<char>, Seq<char>)>::empty());
        assert(header_block(one.drop_last()) =~= Seq::<u8>::empty());
        assert(one.last() == e[k]);
        assert(header_block(one) =~= line);
        let rest = header_block(e.skip(k + 1));
        assert(d =~= before + done + line + rest + crlf() + after);
        assert(d.subrange(pos, pos + line.len()) =~= line);
        lemma_header_line_reads_back(d, pos, e[k].0, e[k].1);
        lemma_upsert_new_name(e, k);
        assert(e.take(k + 1).drop_last() =~= e.take(k));
        assert(header_block(e.take(k + 1)) =~= done + line);
        lemma_header_block_reads_back(before, e, k + 1, after);
    }
}

/// Whether a text is made of visible ASCII characters other than the colon.
pub open spec fn plain_token(t: Seq<char>) -> bool {
    forall|i: int| 0 <= i < t.len() ==> 33 <= (#[trigger] t[i]) as int <= 126 && t[i] != ':'
}

/// The bytes of a plain token hold no CRLF and no colon and space, neither
/// begin nor end with a carriage return or a line feed, and are not empty
/// where the token is not.
pub proof fn lemma_plain_token_bytes(t: Seq<char>)
    requires
        plain_token(t),
    ensures
        encode_utf8(t).len() == t.len(),
        forall|i: int|
            0 <= i < t.len() ==> 33 <= (#[trigger] encode_utf8(t)[i]) <= 126 && encode_utf8(t)[i]
                != COLON,
        free_of_pair(encode_utf8(t), CR, LF),
        free_of_pair(encode_utf8(t), COLON, SPACE),
{
    assert(vstd::utf8::is_ascii_chars(t)) by {
        assert forall|i: int| 0 <= i < t.len() implies '\0' <= #[trigger] t[i] <= '\u{7f}' by {
            assert(33 <= t[i] as int <= 126);
        }
    }
    vstd::utf8::is_ascii_chars_encode_utf8(t);
    let b = encode_utf8(t);
    assert forall|i: int| 0 <= i < t.len() implies 33 <= (#[trigger] b[i]) <= 126 && b[i]
        != COLON by {
        assert(t[i] as u8 == b[i]);
        assert(33 <= t[i] as int <= 126 && t[i] != ':');
    }
}

/// The text `GET` is a plain token.
proof fn lemma_get_plain()
    ensures
        plain_token("GET"@),
{
    reveal_strlit("GET");
    let t = "GET"@;
    assert forall|i: int| 0 <= i < t.len() implies 33 <= (#[trigger] t[i]) as int <= 126 && t[i]
        != ':' by {
        if i == 0 {
        } else if i == 1 {
        } else {
        }
    }
}

/// The text `POST` is a plain token.
proof fn lemma_post_plain()
    ensures
        plain_token("POST"@),
{
    reveal_strlit("POST");
    let t = "POST"@;
    assert forall|i: int| 0 <= i < t.len() implies 33 <= (#[trigger] t[i]) as int <= 126 && t[i]
        != ':' by {
        if i == 0 {
        } else if i == 1 {
        } else if i == 2 {
        } else {
        }
    }
}

/// The text `PUT` is a plain token.
proof fn lemma_put_plain()
    ensures
        plain_token("PUT"@),
{
    reveal_strlit("PUT");
    let t = "PUT"@;
    assert forall|i: int| 0 <= i < t.len() implies 33 <= (#[trigger] t[i]) as int <= 126 && t[i]
        != ':' by {
        if i == 0 {
        } else if i == 1 {
        } else {
        }
    }
}

/// The text `PATCH` is a plain token.
proof fn lemma_patch_plain()
    ensures
        plain_token("PATCH"@),
{
    reveal_strlit("PATCH");
    let t = "PATCH"@;
    assert forall|i: int| 0 <= i < t.len() implies 33 <= (#[trigger] t[i]) as int <= 126 && t[i]
        != ':' by {
        if i == 0 {
        } else if i == 1 {
        } else if i == 2 {
        } else if i == 3 {
        } else {
        }
    }
}

/// The text `DELETE` is a plain token.
proof fn lemma_delete_plain()
    ensures
        plain_token("DELETE"@),
{
    reveal_strlit("DELETE");
    let t = "DELETE"@;
    assert forall|i: int| 0 <= i < t.len() implies 33 <= (#[trigger] t[i]) as int <= 126 && t[i]
        != ':' by {
        if i == 0 {
        } else if i == 1 {
        } else if i == 2 {
        } else if i == 3 {
        } else if i == 4 {
        } else {
        }
    }
}

/// The text `HEAD` is a plain token.
proof fn lemma_head_plain()
    ensures
        plain_token("HEAD"@),
{
    reveal_strlit("HEAD");
    let t = "HEAD"@;
    assert forall|i: int| 0 <= i < t.len() implies 33 <= (#[trigger] t[i]) as int <= 126 && t[i]
        != ':' by {
        if i == 0 {
        } else if i == 1 {
        } else if i == 2 {
        } else {
        }
    }
}

/// The text `CONNECT` is a plain token.
proof fn lemma_connect_plain()
    ensures
        plain_token("CONNECT"@),
{
    reveal_strlit("CONNECT");
    let t = "CONNECT"@;
    assert forall|i: int| 0 <= i < t.len() implies 33 <= (#[trigger] t[i]) as int <= 126 && t[i]
        != ':' by {
        if i == 0 {
        } else if i == 1 {
        } else if i == 2 {
        } else if i == 3 {
        } else if i == 4 {
        } else if i == 5 {
        } else {
        }
    }
}

/// The text `OPTIONS` is a plain token.
proof fn lemma_options_plain()
    ensures
        plain_token("OPTIONS"@),
{
    reveal_strlit("OPTIONS");
    let t = "OPTIONS"@;
    assert forall|i: int| 0 <= i < t.len() implies 33 <= (#[trigger] t[i]) as int <= 126 && t[i]
        != ':' by {
        if i == 0 {
        } else if i == 1 {
        } else if i == 2 {
        } else if i == 3 {
        } else if i == 4 {
        } else if i == 5 {
        } else {
        }
    }
}

/// The text `HTTP/1.1` is a plain token.
proof fn lemma_version_plain()
    ensures
        plain_token("HTTP/1.1"@),
{
    reveal_strlit("HTTP/1.1");
    let t = "HTTP/1.1"@;
    assert forall|i: int| 0 <= i < t.len() implies 33 <= (#[trigger] t[i]) as int <= 126 && t[i]
        != ':' by {
        if i == 0 {
        } else if i == 1 {
        } else if i == 2 {
        } else if i == 3 {
        } else if i == 4 {
        } else if i == 5 {
        } else if i == 6 {
        } else {
        }
    }
}

/// The text `Content-Length` is a plain token.
proof fn lemma_content_length_plain()
    ensures
        plain_token("Content-Length"@),
{
    reveal_strlit("Content-Length");
    let t = "Content-Length"@;
    assert forall|i: int| 0 <= i < t.len() implies 33 <= (#[trigger] t[i]) as int <= 126 && t[i]
        != ':' by {
        if i == 0 {
        } else if i == 1 {
        } else if i == 2 {
        } else if i == 3 {
        } else if i == 4 {
        } else if i == 5 {
        } else if i == 6 {
        } else if i == 7 {
        } else if i == 8 {
        } else if i == 9 {
        } else if i == 10 {
        } else if i == 11 {
        } else if i == 12 {
        } else {
        }
    }
}

/// The token of every method is a plain token.
proof fn lemma_method_name_plain(m: Methods)
    ensures
        plain_token(method_name(m)),
{
    match m {
        Methods::GET => lemma_get_plain(),
        Methods::POST => lemma_post_plain(),
        Methods::PUT => lemma_put_plain(),
        Methods::PATCH => lemma_patch_plain(),
        Methods::DELETE => lemma_delete_plain(),
        Methods::HEAD => lemma_head_plain(),
        Methods::CONNECT => lemma_connect_plain(),
        Methods::OPTIONS => lemma_options_plain(),
    }
}

/// Two stretches without the pair `a`, `b` hold none when joined, unless the
/// pair forms where they meet.
pub proof fn lemma_free_of_pair_concat(x: Seq<u8>, y: Seq<u8>, a: u8, b: u8)
    requires
        free_of_pair(x, a, b),
        free_of_pair(y, a, b),
        x.len() == 0 || y.len() == 0 || x.last() != a || y[0] != b,
    ensures
        free_of_pair(x + y, a, b),
{
    let z = x + y;
    assert forall|j: int| !pair_at(z, a, b, j) by {
        if 0 <= j && j + 1 < z.len() {
            if j + 1 < x.len() {
                assert(z[j] == x[j] && z[j + 1] == x[j + 1]);
                assert(!pair_at(x, a, b, j));
            } else if j >= x.len() {
                assert(z[j] == y[j - x.len()] && z[j + 1] == y[j + 1 - x.len()]);
                assert(!pair_at(y, a, b, j - x.len()));
            } else {
                assert(z[j] == x.last());
                assert(z[j + 1] == y[0]);
            }
        }
    }
}

/// Methods with the same token are the same method.
pub proof fn lemma_method_name_injective(a: Methods, b: Methods)
    requires
        method_name(a) == method_name(b),
    ensures
        a == b,
{
    lemma_method_name_shape(a);
    lemma_method_name_shape(b);
}

/// The length and the first letter of a method's token.
proof fn lemma_method_name_shape(m: Methods)
    ensures
        method_name(m).len() == (match m {
            Methods::GET | Methods::PUT => 3nat,
            Methods::POST | Methods::HEAD => 4nat,
            Methods::PATCH => 5nat,
            Methods::DELETE => 6nat,
            Methods::CONNECT | Methods::OPTIONS => 7nat,
        }),
        method_name(m)[0] == (match m {
            Methods::GET => 'G',
            Methods::POST | Methods::PUT | Methods::PATCH => 'P',
            Methods::DELETE => 'D',
            Methods::HEAD => 'H',
            Methods::CONNECT => 'C',
            Methods::OPTIONS => 'O',
        }),
{
    reveal_strlit("GET");
    reveal_strlit("POST");
    reveal_strlit("PUT");
    reveal_strlit("PATCH");
    reveal_strlit("DELETE");
    reveal_strlit("HEAD");
    reveal_strlit("CONNECT");
    reveal_strlit("OPTIONS");
}

/// A request line tells its method and its route: two request lines that
/// are the same bytes were written for the same method and the same route.
pub proof fn lemma_request_line_injective(
    method: Methods,
    route: Seq<char>,
    other_method: Methods,
    other_route: Seq<char>,
)
    requires
        request_line(method, route) == request_line(other_method, other_route),
    ensures
        method == other_method,
        route == other_route,
{
    let line = request_line(method, route);
    let t1 = encode_utf8(method_name(method));
    let t2 = encode_utf8(method_name(other_method));
    let r1 = encode_utf8(route);
    let r2 = encode_utf8(other_route);
    let vb = encode_utf8("HTTP/1.1"@);
    let sp = seq![SPACE];
    lemma_method_name_plain(method);
    lemma_method_name_plain(other_method);
    lemma_plain_token_bytes(method_name(method));
    lemma_plain_token_bytes(method_name(other_method));
    let l1 = t1 + sp + r1 + sp + vb + crlf();
    let l2 = t2 + sp + r2 + sp + vb + crlf();
    assert(line == l1);
    assert(line == l2);
    assert(l1[t1.len() as int] == SPACE);
    assert(l2[t2.len() as int] == SPACE);
    if t1.len() < t2.len() {
        assert(l2[t1.len() as int] == t2[t1.len() as int]);
        assert(false);
    }
    if t2.len() < t1.len() {
        assert(l1[t2.len() as int] == t1[t2.len() as int]);
        assert(false);
    }
    assert(t1 =~= t2) by {
        assert forall|i: int| 0 <= i < t1.len() implies t1[i] == t2[i] by {
            assert(l1[i] == t1[i]);
            assert(l2[i] == t2[i]);
        }
    }
    crate::https::text::lemma_same_bytes_same_text(method_name(method), method_name(other_method));
    lemma_method_name_injective(method, other_method);
    assert(l1.len() == l2.len());
    assert(r1.len() == r2.len());
    assert(r1 =~= r2) by {
        assert forall|i: int| 0 <= i < r1.len() implies r1[i] == r2[i] by {
            assert(l1[t1.len() + 1 + i] == r1[i]);
            assert(l2[t2.len() + 1 + i] == r2[i]);
        }
    }
    crate::https::text::lemma_same_bytes_same_text(route, other_route);
}

/// Whether a message with these headers and no body reads back with no body:
/// a `Content-Length`, where there is one, says zero, and without one there
/// is no `Transfer-Encoding`.
pub open spec fn reads_as_empty(h: Entries) -> bool {
    match lookup(h, content_length_name()) {
        Some(text) => parse_unsigned(encode_utf8(text), 10, usize::MAX as int) == Some(0int),
        None => lookup(h, transfer_encoding_name()) is None,
    }
}

/// The request line ends at the first CRLF of a request.
proof fn lemma_request_line_is_first(method: Methods, route: Seq<char>, rest: Seq<u8>)
    requires
        free_of_pair(encode_utf8(route), CR, LF),
    ensures
        find_crlf(request_line(method, route) + rest, 0) == request_line(method, route).len() - 2,
{
    let mb = encode_utf8(method_name(method));
    let rb = encode_utf8(route);
    let vb = encode_utf8("HTTP/1.1"@);
    let sp = seq![SPACE];
    lemma_method_name_plain(method);
    lemma_version_plain();
    lemma_plain_token_bytes(method_name(method));
    lemma_plain_token_bytes("HTTP/1.1"@);
    reveal_strlit("HTTP/1.1");
    assert(free_of_pair(sp, CR, LF));
    lemma_free_of_pair_concat(mb, sp, CR, LF);
    lemma_free_of_pair_concat(mb + sp, rb, CR, LF);
    lemma_free_of_pair_concat(mb + sp + rb, sp, CR, LF);
    assert(vb[0] != LF);
    lemma_free_of_pair_concat(mb + sp + rb + sp, vb, CR, LF);
    let content = mb + sp + rb + sp + vb;
    let d = request_line(method, route) + rest;
    assert(request_line(method, route) =~= content + crlf());
    assert(d.subrange(0, content.len() as int) =~= content);
    assert(pair_at(d, CR, LF, content.len() as int));
    lemma_find_pair_after(d, CR, LF, 0, content);
}

/// An encoded request reads back. Its first line, up to the first CRLF, is
/// the method's token, the route and the version. The lines that follow read
/// back as the headers that the request was sent with, which are those of
/// the builder with `Content-Length` set to the body's length where the body
/// is not empty. What follows the blank line frames as the body.
///
/// Left out are only requests that cannot read back: a route, a header name
/// or a header value that holds a CRLF; a header name that holds a colon and
/// a space; and, with an empty body, headers that announce a body.
pub proof fn lemma_request_round_trip(m: RequestModel)
    requires
        distinct_names(m.headers),
        headers_safe(m.headers),
        free_of_pair(encode_utf8(wire_route(m)), CR, LF),
        wire_body(m).len() <= usize::MAX,
        wire_body(m).len() == 0 ==> reads_as_empty(m.headers),
    ensures
        ({
            let wire = request_wire(m);
            let line = request_line(wire_method(m), wire_route(m));
            let head = (line.len() + header_block(wire_headers(m)).len() + 2) as int;
            &&& wire.subrange(0, line.len() as int) == line
            &&& find_crlf(wire, 0) == line.len() - 2
            &&& parse_headers(wire, line.len() as int, Seq::empty()) == Ok::<
                (Entries, int),
                HttpResponseError,
            >((wire_headers(m), head))
            &&& frame_body(wire, wire_headers(m), head) == Ok::<Seq<u8>, HttpResponseError>(
                wire_body(m),
            )
        }),
        forall|name: Seq<char>|
            name != content_length_name() ==> lookup(wire_headers(m), name) == lookup(
                m.headers,
                name,
            ),
        wire_body(m).len() > 0 ==> lookup(wire_headers(m), content_length_name()) == Some(
            decimal_text(wire_body(m).len()),
        ),
        wire_body(m).len() == 0 ==> wire_headers(m) == m.headers,
{
    let wire = request_wire(m);
    let line = request_line(wire_method(m), wire_route(m));
    let e = wire_headers(m);
    let body = wire_body(m);
    let n = body.len();
    let head = (line.len() + header_block(e).len() + 2) as int;
    let digits = number_digits(n, 10);
    lemma_digits_are_plain(n, 10);
    vstd::utf8::decode_utf8_encode_utf8(digits);
    let after_line = header_block(e) + crlf() + body;
    assert(wire =~= line + after_line);
    lemma_request_line_is_first(wire_method(m), wire_route(m), after_line);
    assert(wire.subrange(0, line.len() as int) =~= line);
    if n > 0 {
        lemma_upsert(m.headers, content_length_name(), decimal_text(n));
        lemma_content_length_plain();
        lemma_plain_token_bytes(content_length_name());
        lemma_name_index(m.headers, content_length_name(), 0);
        assert forall|i: int| 0 <= i < e.len() implies header_safe(#[trigger] e[i]) by {
            let at = name_index(m.headers, content_length_name(), 0);
            if i == at {
                assert(e[i] == (content_length_name(), decimal_text(n)));
            } else {
                assert(e[i] == m.headers[i]);
            }
        }
        lemma_parse_number_digits(n, 10, usize::MAX as int);
    }
    assert(e.take(0) =~= Seq::<(Seq<char>, Seq<char>)>::empty());
    assert(header_block(e.take(0)) =~= Seq::<u8>::empty());
    lemma_header_block_reads_back(line, e, 0, body);
    assert(wire =~= line + header_block(e) + crlf() + body);
    assert(wire.subrange(head, head + n) =~= body);
    assert(wire.subrange(head, wire.len() as int) =~= body);
}

/// Whether headers announce exactly the body `body` without chunks: a
/// `Content-Length`, where there is one, says the body's length, and without
/// one there is no `Transfer-Encoding`.
pub open spec fn frames_whole(h: Entries, body: Seq<u8>) -> bool {
    match lookup(h, content_length_name()) {
        Some(text) => parse_unsigned(encode_utf8(text), 10, usize::MAX as int) == Some(
            body.len() as int,
        ),
        None => lookup(h, transfer_encoding_name()) is None,
    }
}

/// A response that is written as a status line, its headers, a blank line
/// and its body decodes to the status code, the headers and the body.
pub proof fn lemma_response_round_trip(
    status_line: Seq<u8>,
    code: u16,
    headers: Entries,
    body: Seq<u8>,
)
    requires
        status_line.len() >= 12,
        free_of_pair(status_line, CR, LF),
        vstd::utf8::valid_utf8(status_line),
        parse_unsigned(status_line.subrange(9, 12), 10, 65535) == Some(code as int),
        distinct_names(headers),
        headers_safe(headers),
        frames_whole(headers, body),
    ensures
        parse_response(status_line + crlf() + header_block(headers) + crlf() + body) == Ok::<
            ResponseModel,
            HttpResponseError,
        >(ResponseModel { status_code: code, headers, content: body }),
{
    let first = status_line + crlf();
    let d = first + header_block(headers) + crlf() + body;
    assert(d.subrange(0, status_line.len() as int) =~= status_line);
    assert(pair_at(d, CR, LF, status_line.len() as int));
    lemma_find_pair_after(d, CR, LF, 0, status_line);
    assert(d.subrange(9, 12) =~= status_line.subrange(9, 12));
    assert(parse_status(d) == Ok::<(u16, int), HttpResponseError>((code, first.len() as int)));
    assert(headers.take(0) =~= Seq::<(Seq<char>, Seq<char>)>::empty());
    assert(header_block(headers.take(0)) =~= Seq::<u8>::empty());
    lemma_header_block_reads_back(first, headers, 0, body);
    let start = (first.len() + header_block(headers).len() + 2) as int;
    assert(d.subrange(start, start + body.len()) =~= body);
    assert(d.subrange(start, d.len() as int) =~= body);
}

/// A response whose body is written as chunks decodes to the status code,
/// the headers and the payloads of the chunks, one after the other; what
/// follows the last chunk is ignored. The headers name the chunked framing
/// and no length, and every chunk holds at least one byte.
pub proof fn lemma_chunked_response_round_trip(
    status_line: Seq<u8>,
    code: u16,
    headers: Entries,
    chunks: Seq<Seq<u8>>,
    after: Seq<u8>,
)
    requires
        status_line.len() >= 12,
        free_of_pair(status_line, CR, LF),
        vstd::utf8::valid_utf8(status_line),
        parse_unsigned(status_line.subrange(9, 12), 10, 65535) == Some(code as int),
        distinct_names(headers),
        headers_safe(headers),
        lookup(headers, content_length_name()) is None,
        lookup(headers, transfer_encoding_name()) == Some(chunked_token()),
        forall|i: int| 0 <= i < chunks.len() ==> 0 < (#[trigger] chunks[i]).len() <= usize::MAX,
    ensures
        parse_response(
            status_line + crlf() + header_block(headers) + crlf() + chunked_wire(chunks) + after,
        ) == Ok::<ResponseModel, HttpResponseError>(
            ResponseModel { status_code: code, headers, content: joined(chunks) },
        ),
{
    let first = status_line + crlf();
    let rest = chunked_wire(chunks) + after;
    let head = first + header_block(headers) + crlf();
    let d = head + chunked_wire(chunks) + after;
    assert(d =~= first + header_block(headers) + crlf() + rest);
    assert(d.subrange(0, status_line.len() as int) =~= status_line);
    assert(pair_at(d, CR, LF, status_line.len() as int));
    lemma_find_pair_after(d, CR, LF, 0, status_line);
    assert(d.subrange(9, 12) =~= status_line.subrange(9, 12));
    assert(parse_status(d) == Ok::<(u16, int), HttpResponseError>((code, first.len() as int)));
    assert(headers.take(0) =~= Seq::<(Seq<char>, Seq<char>)>::empty());
    assert(header_block(headers.take(0)) =~= Seq::<u8>::empty());
    lemma_header_block_reads_back(first, headers, 0, rest);
    lemma_chunks_round_trip(head, chunks, after, Seq::empty());
    assert(Seq::<u8>::empty() + joined(chunks) =~= joined(chunks));
}

} // verus!
