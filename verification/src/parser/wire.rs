//! The text of a request as it is written on the wire, and the law that the
//! parser reads back what was written.

use crate::parser::error::ErrorView;
use crate::parser::fields::{distinct, lookup, put, put_all, Entries};
use crate::parser::method::Method;
use crate::parser::request::{parsed_bytes, parsed_text, query_of, read_headers, RequestView};
use crate::parser::version::HttpVersion;
use crate::text::{
    cut, ends_span, is_word, lacks, lemma_lines_first, lemma_span,
    lemma_trim_after_space, lemma_trim_nonblank, lemma_words_first, lines, span, trim, words,
    Class,
};
use vstd::prelude::*;
use vstd::utf8::{decode_utf8, encode_utf8, valid_utf8};

verus! {

/// The line that is written for a header: its name, a colon, a space, its
/// value, and the end of the line.
pub open spec fn header_line(h: (Seq<char>, Seq<char>)) -> Seq<char> {
    h.0 + seq![':', ' '] + h.1 + seq!['\r', '\n']
}

/// The lines that are written for headers, one after another.
pub open spec fn header_block(hs: Entries) -> Seq<char>
    decreases hs.len(),
{
    if hs.len() == 0 {
        Seq::empty()
    } else {
        header_line(hs[0]) + header_block(hs.drop_first())
    }
}

/// The block of some headers and one more is the block of these headers and
/// the line of that one.
pub proof fn lemma_header_block_push(hs: Entries, h: (Seq<char>, Seq<char>))
    ensures
        header_block(hs.push(h)) == header_block(hs) + header_line(h),
    decreases hs.len(),
{
    let all = hs.push(h);
    if hs.len() == 0 {
        assert(all[0] == h);
        assert(all.drop_first() =~= hs);
        assert(header_block(all) == header_line(h) + header_block(hs));
        assert(header_block(all) =~= header_line(h));
        assert(header_block(hs) + header_line(h) =~= header_line(h));
    } else {
        assert(all[0] == hs[0]);
        assert(all.drop_first() =~= hs.drop_first().push(h));
        lemma_header_block_push(hs.drop_first(), h);
        assert(header_block(all) =~= header_block(hs) + header_line(h));
    }
}

/// The line of each header stands in the block of the headers, after the
/// lines of those before it and before the lines of those after it.
pub proof fn lemma_header_block_split(hs: Entries, i: int)
    requires
        0 <= i < hs.len(),
    ensures
        header_block(hs) == header_block(hs.take(i)) + header_line(hs[i]) + header_block(
            hs.skip(i + 1),
        ),
    decreases hs.len(),
{
    if i == 0 {
        assert(hs.take(0) =~= Seq::<(Seq<char>, Seq<char>)>::empty());
        assert(hs.skip(1) =~= hs.drop_first());
        assert(header_block(hs.take(0)) + header_line(hs[0]) + header_block(hs.skip(1))
            =~= header_line(hs[0]) + header_block(hs.drop_first()));
    } else {
        let rest = hs.drop_first();
        lemma_header_block_split(rest, i - 1);
        assert(rest.take(i - 1) =~= hs.take(i).drop_first());
        assert(rest.skip(i) =~= hs.skip(i + 1));
        assert(hs.take(i)[0] == hs[0]);
        assert(header_block(hs) =~= header_block(hs.take(i)) + header_line(hs[i]) + header_block(
            hs.skip(i + 1),
        ));
    }
}

/// The text of a request without a body: the request line, the header
/// lines, and an empty line.
pub open spec fn request_text(
    method: Method,
    path: Seq<char>,
    version: HttpVersion,
    headers: Entries,
) -> Seq<char> {
    method.token() + seq![' '] + path + seq![' '] + version.token() + seq!['\r', '\n']
        + header_block(headers) + seq!['\r', '\n']
}

/// A header that is read back as it was written: neither part has a line
/// feed, the name has no colon, and trimming changes neither.
pub open spec fn plain_header(h: (Seq<char>, Seq<char>)) -> bool {
    &&& lacks(h.0, '\n')
    &&& lacks(h.0, ':')
    &&& trim(h.0) == h.0
    &&& lacks(h.1, '\n')
    &&& trim(h.1) == h.1
}

/// Every header of `hs` is plain.
pub open spec fn plain_headers(hs: Entries) -> bool {
    forall|i: int| 0 <= i < hs.len() ==> plain_header(#[trigger] hs[i])
}

/// The token of each method is a word.
pub proof fn lemma_method_token_is_word(m: Method)
    ensures
        is_word(m.token()),
{
    reveal_strlit("GET");
    reveal_strlit("POST");
    reveal_strlit("PUT");
    reveal_strlit("DELETE");
    reveal_strlit("HEAD");
    reveal_strlit("OPTIONS");
    reveal_strlit("PATCH");
}

/// The token of each version is a word.
pub proof fn lemma_version_token_is_word(v: HttpVersion)
    ensures
        is_word(v.token()),
{
    reveal_strlit("HTTP/1.0");
    reveal_strlit("HTTP/1.1");
    reveal_strlit("HTTP/2");
}

/// Three words with a space between them are read as these three words.
pub proof fn lemma_request_line_words(a: Seq<char>, b: Seq<char>, c: Seq<char>)
    requires
        is_word(a),
        is_word(b),
        is_word(c),
    ensures
        words(a + seq![' '] + b + seq![' '] + c) == seq![a, b, c],
{
    let tail_c = seq![' '] + c;
    let tail_b = seq![' '] + (b + tail_c);
    assert(a + seq![' '] + b + seq![' '] + c =~= a + tail_b);
    lemma_words_first(a, tail_b);
    lemma_trim_after_space(' ', b + tail_c);
    lemma_words_first(b, tail_c);
    lemma_trim_after_space(' ', c);
    assert(c + Seq::<char>::empty() =~= c);
    lemma_words_first(c, Seq::empty());
    assert(seq![a] + (seq![b] + (seq![c] + Seq::<Seq<char>>::empty())) =~= seq![a, b, c]);
}

/// The line of a plain header, without the end of the line, is cut into the
/// header again, and it is not blank.
pub proof fn lemma_header_line(h: (Seq<char>, Seq<char>))
    requires
        plain_header(h),
    ensures
        ({
            let line = h.0 + seq![':', ' '] + h.1;
            &&& lacks(line, '\n')
            &&& trim(line).len() > 0
            &&& cut(line, ':') == Some((h.0, seq![' '] + h.1))
            &&& trim(seq![' '] + h.1) == h.1
        }),
{
    let line = h.0 + seq![':', ' '] + h.1;
    let n = h.0.len() as int;
    assert forall|i: int| 0 <= i < line.len() implies #[trigger] line[i] != '\n' by {
        if i < n {
            assert(line[i] == h.0[i]);
        } else if i >= n + 2 {
            assert(line[i] == h.1[i - n - 2]);
        }
    }
    assert(line[n] == ':');
    lemma_trim_nonblank(line, n);
    lemma_span(line, Class::Until(':'));
    assert(ends_span(line, Class::Until(':'), n)) by {
        assert forall|i: int| 0 <= i < n implies Class::Until(':').has(#[trigger] line[i]) by {
            assert(line[i] == h.0[i]);
        }
    }
    assert(line.take(n) =~= h.0);
    assert(line.skip(n + 1) =~= seq![' '] + h.1);
    lemma_trim_after_space(' ', h.1);
}

/// The lines of a block of plain headers and the empty line after it give,
/// written to `acc`, these headers.
pub proof fn lemma_read_header_block(acc: Entries, hs: Entries)
    requires
        plain_headers(hs),
    ensures
        read_headers(acc, lines(header_block(hs) + seq!['\r', '\n'])) == Some(put_all(acc, hs)),
    decreases hs.len(),
{
    let end = seq!['\r', '\n'];
    if hs.len() == 0 {
        assert(header_block(hs) + end =~= Seq::<char>::empty() + end + Seq::<char>::empty());
        lemma_lines_first(Seq::empty(), Seq::empty());
        let ls = lines(header_block(hs) + end);
        assert(ls[0] =~= Seq::<char>::empty());
        assert(span(ls[0], Class::Space) == 0);
        assert(trim(ls[0]) =~= Seq::<char>::empty());
    } else {
        let h = hs[0];
        let rest = hs.drop_first();
        let line = h.0 + seq![':', ' '] + h.1;
        let after = header_block(rest) + end;
        assert(plain_header(h));
        assert(plain_headers(rest)) by {
            assert forall|i: int| 0 <= i < rest.len() implies plain_header(#[trigger] rest[i]) by {
                assert(rest[i] == hs[i + 1]);
            }
        }
        lemma_header_line(h);
        assert(header_block(hs) + end =~= line + end + after);
        lemma_lines_first(line, after);
        let ls = lines(header_block(hs) + end);
        assert(ls[0] == line);
        assert(ls.drop_first() =~= lines(after));
        lemma_read_header_block(put(acc, h.0, h.1), rest);
    }
}

/// What is read back from the text of a request.
pub open spec fn read_back(
    method: Method,
    path: Seq<char>,
    version: HttpVersion,
    headers: Entries,
) -> RequestView {
    RequestView {
        method,
        path,
        version,
        headers: put_all(Seq::empty(), headers),
        body: Seq::empty(),
        query_params: query_of(path),
    }
}

/// Whether the text of a request with these parts can be parsed: the path is
/// a word, the headers are plain, and a request of version 1.1 has a `Host`
/// header.
pub open spec fn writable(path: Seq<char>, version: HttpVersion, headers: Entries) -> bool {
    &&& is_word(path)
    &&& plain_headers(headers)
    &&& version == HttpVersion::Http11 ==> lookup(
        true,
        put_all(Seq::empty(), headers),
        "Host"@,
    ) is Some
}

/// Parsing reads back what was written: from the text of a request the
/// parser recovers the method, the path, the version and the headers, a
/// later header taking the place of an earlier one of the same name.
pub proof fn lemma_parse_round_trip(
    method: Method,
    path: Seq<char>,
    version: HttpVersion,
    headers: Entries,
)
    requires
        writable(path, version, headers),
    ensures
        parsed_text(request_text(method, path, version, headers)) == Ok::<RequestView, ErrorView>(
            read_back(method, path, version, headers),
        ),
{
    let end = seq!['\r', '\n'];
    let m = method.token();
    let v = version.token();
    let first = m + seq![' '] + path + seq![' '] + v;
    let after = header_block(headers) + end;
    let s = request_text(method, path, version, headers);
    lemma_method_token_is_word(method);
    lemma_version_token_is_word(version);
    assert(lacks(first, '\n')) by {
        assert forall|i: int| 0 <= i < first.len() implies #[trigger] first[i] != '\n' by {
            let a = m.len() as int;
            let b = a + 1 + path.len();
            if i < a {
                assert(first[i] == m[i]);
            } else if i == a {
            } else if i < b {
                assert(first[i] == path[i - a - 1]);
            } else if i == b {
            } else {
                assert(first[i] == v[i - b - 1]);
            }
        }
    }
    assert(s =~= first + end + after);
    lemma_lines_first(first, after);
    let ls = lines(s);
    assert(ls[0] == first);
    assert(ls.drop_first() =~= lines(after));
    lemma_request_line_words(m, path, v);
    method.lemma_parse_token();
    version.lemma_parse_token();
    lemma_read_header_block(Seq::empty(), headers);
}

/// Parsing reads back what was written, from bytes: the same as
/// `lemma_parse_round_trip`, for the UTF-8 encoding of the text.
pub proof fn lemma_parse_round_trip_bytes(
    method: Method,
    path: Seq<char>,
    version: HttpVersion,
    headers: Entries,
)
    requires
        writable(path, version, headers),
    ensures
        parsed_bytes(encode_utf8(request_text(method, path, version, headers))) == Ok::<
            RequestView,
            ErrorView,
        >(read_back(method, path, version, headers)),
{
    let s = request_text(method, path, version, headers);
    let b = encode_utf8(s);
    vstd::utf8::encode_utf8_valid_utf8(s);
    vstd::utf8::encode_utf8_decode_utf8(s);
    lemma_parse_round_trip(method, path, version, headers);
    if b.len() == 0 {
        assert(decode_utf8(b) =~= Seq::<char>::empty());
        assert(s.len() > 0);
    }
}

/// Headers whose names are distinct are read back one for one, in their
/// order.
pub proof fn lemma_distinct_headers_read_back(headers: Entries)
    requires
        distinct(headers),
    ensures
        put_all(Seq::empty(), headers) == headers,
{
    assert(Seq::<(Seq<char>, Seq<char>)>::empty() + headers =~= headers);
    crate::parser::fields::lemma_put_all_distinct(Seq::empty(), headers);
}

/// Reading header lines keeps the names of a table distinct.
pub proof fn lemma_read_headers_distinct(acc: Entries, ls: Seq<Seq<char>>)
    requires
        distinct(acc),
    ensures
        read_headers(acc, ls) is Some ==> distinct(read_headers(acc, ls).unwrap()),
    decreases ls.len(),
{
    if ls.len() == 0 || trim(ls[0]).len() == 0 {
    } else {
        match cut(ls[0], ':') {
            None => {},
            Some((name, value)) => {
                crate::parser::fields::lemma_put_distinct(acc, trim(name), trim(value));
                lemma_read_headers_distinct(put(acc, trim(name), trim(value)), ls.drop_first());
            },
        }
    }
}

/// What holds of every request that the parser gives: its path is a word,
/// its query parameters are those of its path, its body is empty, no header
/// and no query parameter occurs twice, and a request of version 1.1 has a
/// `Host` header.
pub proof fn lemma_parsed_request(s: Seq<char>)
    ensures
        match parsed_text(s) {
            Ok(request) => {
                &&& is_word(request.path)
                &&& request.query_params == query_of(request.path)
                &&& request.body == Seq::<u8>::empty()
                &&& distinct(request.headers)
                &&& distinct(request.query_params)
                &&& request.version == HttpVersion::Http11 ==> lookup(
                    true,
                    request.headers,
                    "Host"@,
                ) is Some
            },
            Err(e) => !(e is JsonError) && !(e is InvalidPath),
        },
{
    let ls = lines(s);
    if ls.len() > 0 {
        let w = words(ls[0]);
        crate::text::lemma_words_are_words(ls[0]);
        if w.len() == 3 {
            assert(is_word(w[1]));
            lemma_read_headers_distinct(Seq::empty(), ls.drop_first());
            match cut(w[1], '?') {
                Some((_, q)) => {
                    crate::parser::fields::lemma_put_all_keeps_distinct(
                        Seq::empty(),
                        crate::parser::request::query_pairs(q),
                    );
                },
                None => {},
            }
        }
    }
}

/// The same of every request that the parser gives for bytes. A request is
/// given only for bytes that are UTF-8.
pub proof fn lemma_parsed_bytes(b: Seq<u8>)
    ensures
        match parsed_bytes(b) {
            Ok(request) => valid_utf8(b) && parsed_text(decode_utf8(b)) == Ok::<
                RequestView,
                ErrorView,
            >(request),
            Err(e) => !(e is JsonError) && !(e is InvalidPath),
        },
{
    if b.len() > 0 && valid_utf8(b) {
        lemma_parsed_request(decode_utf8(b));
    }
}

/// A header of a request is found under its name whatever the case of the
/// letters that the name is asked for with.
pub proof fn lemma_header_lookup_ignores_case(headers: Entries, a: Seq<char>, b: Seq<char>)
    requires
        crate::chars::folded(a) == crate::chars::folded(b),
    ensures
        lookup(true, headers, a) == lookup(true, headers, b),
{
    crate::parser::fields::lemma_same_key(true, headers, a, b);
}

} // verus!
