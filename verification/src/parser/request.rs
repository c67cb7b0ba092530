//! Requests, and the parser that reads one from bytes.

use crate::chars::{from_chars, starts_with, to_chars};
use crate::parser::error::{ErrorView, ParserError};
use crate::parser::fields::{lookup, put, put_all, Entries, Headers, QueryParams};
use crate::parser::method::Method;
use crate::parser::version::HttpVersion;
use crate::text::{
    cut, lines, scan, span, split_lines, split_once, split_words, trim, trimmed, views, words,
    Class,
};
use vstd::prelude::*;
use vstd::slice::slice_subrange;
use vstd::utf8::{decode_utf8, encode_utf8, valid_utf8};

verus! {

/// A request.
#[derive(Debug)]
pub struct HttpRequest {
    /// The method.
    pub method: Method,
    /// The path as it was written, with its query string if it has one.
    pub path: String,
    /// The protocol version.
    pub version: HttpVersion,
    /// The headers.
    pub headers: Headers,
    /// The body.
    pub body: Vec<u8>,
    /// The parameters of the path's query string.
    pub query_params: QueryParams,
}

/// The model of a request.
pub struct RequestView {
    pub method: Method,
    pub path: Seq<char>,
    pub version: HttpVersion,
    pub headers: Entries,
    pub body: Seq<u8>,
    pub query_params: Entries,
}

impl View for HttpRequest {
    type V = RequestView;

    open spec fn view(&self) -> RequestView {
        RequestView {
            method: self.method,
            path: self.path@,
            version: self.version,
            headers: self.headers@,
            body: self.body@,
            query_params: self.query_params@,
        }
    }
}

impl Clone for HttpRequest {
    fn clone(&self) -> (r: Self)
        ensures
            r@ == self@,
    {
        HttpRequest {
            method: self.method,
            path: self.path.clone(),
            version: self.version,
            headers: self.headers.clone(),
            body: self.body.clone(),
            query_params: self.query_params.clone(),
        }
    }
}

/// The name and value that one piece of a query string stands for: what is
/// before and after its first `=`, or the piece and the empty value.
pub open spec fn query_pair(piece: Seq<char>) -> (Seq<char>, Seq<char>) {
    match cut(piece, '=') {
        Some((name, value)) => (name, value),
        None => (piece, Seq::empty()),
    }
}

/// The names and values of a query string, in order: one for each piece
/// between `&` that is not empty.
pub open spec fn query_pairs(q: Seq<char>) -> Entries
    decreases q.len(),
{
    if q.len() == 0 {
        Seq::empty()
    } else {
        let i = span(q, Class::Until('&')) as int;
        let rest = if i < q.len() {
            query_pairs(q.skip(i + 1))
        } else {
            Seq::empty()
        };
        if i == 0 {
            rest
        } else {
            seq![query_pair(q.take(i))] + rest
        }
    }
}

/// The query parameters of a path: those of what follows its first `?`,
/// where a later value of a name replaces an earlier one.
pub open spec fn query_of(path: Seq<char>) -> Entries {
    match cut(path, '?') {
        Some((_, q)) => put_all(Seq::empty(), query_pairs(q)),
        None => Seq::empty(),
    }
}

/// Writing a first pair and then the others is writing them all.
pub proof fn lemma_put_all_first(e: Entries, p: (Seq<char>, Seq<char>), rest: Entries)
    ensures
        put_all(e, seq![p] + rest) == put_all(put(e, p.0, p.1), rest),
{
    let all = seq![p] + rest;
    assert(all[0] == p);
    assert(all.drop_first() =~= rest);
}

/// Reads the query parameters of `path`.
pub fn parse_query(path: &[char]) -> (params: QueryParams)
    ensures
        params@ == query_of(path@),
{
    let mut params = QueryParams::new();
    let query: &[char] = match split_once(path, '?') {
        Some((_, q)) => q,
        None => {
            return params;
        },
    };
    let mut rest: &[char] = query;
    while rest.len() > 0
        invariant
            put_all(Seq::empty(), query_pairs(query@)) == put_all(params@, query_pairs(rest@)),
        decreases rest@.len(),
    {
        let i: usize = scan(rest, &Class::Until('&'));
        let piece = slice_subrange(rest, 0, i);
        let next = if i < rest.len() {
            slice_subrange(rest, i + 1, rest.len())
        } else {
            slice_subrange(rest, i, rest.len())
        };
        let ghost tail = query_pairs(next@);
        if i > 0 {
            let (name, value) = match split_once(piece, '=') {
                Some((k, v)) => (from_chars(k), from_chars(v)),
                None => (from_chars(piece), String::new()),
            };
            proof {
                assert(query_pairs(rest@) == seq![query_pair(piece@)] + tail);
                lemma_put_all_first(params@, query_pair(piece@), tail);
            }
            params.insert(name, value);
        } else {
            assert(query_pairs(rest@) == tail);
        }
        rest = next;
    }
    params
}

/// The headers that the lines `ls` give when they are written to `acc` one
/// after another: each line up to the first that is empty once trimmed is
/// cut at its first colon into a name and a value, both trimmed. `None` if
/// one of these lines has no colon.
pub open spec fn read_headers(acc: Entries, ls: Seq<Seq<char>>) -> Option<Entries>
    decreases ls.len(),
{
    if ls.len() == 0 || trim(ls[0]).len() == 0 {
        Some(acc)
    } else {
        match cut(ls[0], ':') {
            None => None,
            Some((name, value)) => read_headers(
                put(acc, trim(name), trim(value)),
                ls.drop_first(),
            ),
        }
    }
}

/// What parsing the text `s` gives.
pub open spec fn parsed_text(s: Seq<char>) -> Result<RequestView, ErrorView> {
    let ls = lines(s);
    if ls.len() == 0 {
        Err(ErrorView::EmptyRequest)
    } else {
        let w = words(ls[0]);
        if w.len() != 3 {
            Err(ErrorView::MalformedRequestLine(ls[0]))
        } else {
            match Method::parse(w[0]) {
                None => Err(ErrorView::InvalidMethod(w[0])),
                Some(method) => if w[1].len() == 0 {
                    Err(ErrorView::InvalidPath)
                } else {
                    match HttpVersion::parse(w[2]) {
                        None => Err(ErrorView::InvalidVersion(w[2])),
                        Some(version) => match read_headers(Seq::empty(), ls.drop_first()) {
                            None => Err(ErrorView::InvalidHeaderFormat),
                            Some(headers) => if version == HttpVersion::Http11 && lookup(
                                true,
                                headers,
                                "Host"@,
                            ) is None {
                                Err(ErrorView::MissingHeader("Host"@))
                            } else {
                                Ok(
                                    RequestView {
                                        method,
                                        path: w[1],
                                        version,
                                        headers,
                                        body: Seq::empty(),
                                        query_params: query_of(w[1]),
                                    },
                                )
                            },
                        },
                    }
                },
            }
        }
    }
}

/// What parsing the bytes `b` gives: nothing to parse if there are none, an
/// error if they are not UTF-8, else what parsing their text gives.
pub open spec fn parsed_bytes(b: Seq<u8>) -> Result<RequestView, ErrorView> {
    if b.len() == 0 {
        Err(ErrorView::EmptyRequest)
    } else if !valid_utf8(b) {
        Err(ErrorView::MalformedRequestLine("Invalid UTF-8"@))
    } else {
        parsed_text(decode_utf8(b))
    }
}

/// The model of a parser's result.
pub open spec fn result_view(r: Result<HttpRequest, ParserError>) -> Result<
    RequestView,
    ErrorView,
> {
    match r {
        Ok(request) => Ok(request@),
        Err(e) => Err(e@),
    }
}

/// Reads the header lines of `ls`, from the line at `from` on.
fn parse_headers(ls: &Vec<&[char]>, from: usize) -> (r: Option<Headers>)
    requires
        from <= ls@.len(),
    ensures
        match r {
            Some(h) => read_headers(Seq::empty(), views(ls@).skip(from as int)) == Some(h@),
            None => read_headers(Seq::empty(), views(ls@).skip(from as int)) is None,
        },
{
    let mut headers = Headers::new();
    let mut i: usize = from;
    let ghost all = views(ls@);
    while i < ls.len()
        invariant
            from <= i <= ls@.len(),
            all == views(ls@),
            read_headers(Seq::empty(), all.skip(from as int)) == read_headers(
                headers@,
                all.skip(i as int),
            ),
        ensures
            read_headers(Seq::empty(), all.skip(from as int)) == Some(headers@),
        decreases ls@.len() - i,
    {
        let line: &[char] = ls[i];
        assert(all.skip(i as int)[0] == line@);
        assert(all.skip(i as int).drop_first() =~= all.skip(i + 1));
        if trimmed(line).len() == 0 {
            break ;
        }
        match split_once(line, ':') {
            None => {
                return None;
            },
            Some((name, value)) => {
                headers.insert(from_chars(trimmed(name)), from_chars(trimmed(value)));
            },
        }
        i += 1;
    }
    Some(headers)
}

/// Parses the text of a request.
pub fn parse_text(text: &str) -> (r: Result<HttpRequest, ParserError>)
    ensures
        result_view(r) == parsed_text(text@),
{
    let chars = to_chars(text);
    let ls = split_lines(chars.as_slice());
    if ls.len() == 0 {
        return Err(ParserError::EmptyRequest);
    }
    let line: &[char] = ls[0];
    assert(views(ls@)[0] == line@);
    let w = split_words(line);
    if w.len() != 3 {
        return Err(ParserError::MalformedRequestLine(from_chars(line)));
    }
    assert(views(w@)[0] == w@[0]@ && views(w@)[1] == w@[1]@ && views(w@)[2] == w@[2]@);
    let method = match Method::from_str(from_chars(w[0]).as_str()) {
        Ok(m) => m,
        Err(e) => {
            return Err(e);
        },
    };
    let path = from_chars(w[1]);
    if w[1].len() == 0 {
        return Err(ParserError::InvalidPath);
    }
    let version = match HttpVersion::from_str(from_chars(w[2]).as_str()) {
        Ok(v) => v,
        Err(e) => {
            return Err(e);
        },
    };
    assert(views(ls@).skip(1) =~= views(ls@).drop_first());
    let headers = match parse_headers(&ls, 1) {
        Some(h) => h,
        None => {
            return Err(ParserError::InvalidHeaderFormat);
        },
    };
    if version == HttpVersion::Http11 && !headers.contains_key("Host") {
        return Err(ParserError::MissingHeader(String::from_str("Host")));
    }
    let query_params = parse_query(w[1]);
    Ok(HttpRequest { method, path, version, headers, body: Vec::new(), query_params })
}

/// `core::str::from_utf8` of std: the text that `bytes` encode, where they
/// are UTF-8, and nothing where they are not. The text's encoding is `bytes`
/// again. Taken from std's documentation, not proved.
#[verifier::external_body]
fn text_of(bytes: &[u8]) -> (r: Option<&str>)
    ensures
        r is Some <==> valid_utf8(bytes@),
        r is Some ==> encode_utf8(r.unwrap()@) == bytes@,
{
    match core::str::from_utf8(bytes) {
        Ok(s) => Some(s),
        Err(_) => None,
    }
}

/// Parses a request from the bytes that were received.
///
/// The bytes must be UTF-8: other input is refused as a malformed request
/// line. The body of the result is empty, whatever follows the headers.
pub fn parse_request(input: &[u8]) -> (r: Result<HttpRequest, ParserError>)
    ensures
        result_view(r) == parsed_bytes(input@),
{
    if input.len() == 0 {
        return Err(ParserError::EmptyRequest);
    }
    match text_of(input) {
        None => Err(ParserError::MalformedRequestLine(String::from_str("Invalid UTF-8"))),
        Some(text) => {
            proof {
                vstd::utf8::encode_utf8_decode_utf8(text@);
            }
            parse_text(text)
        },
    }
}

/// `serde_json::from_slice`: the value that the JSON text in `bytes` stands
/// for, or why there is none. Nothing is claimed of the result.
#[verifier::external_body]
fn decode_json<T: serde::de::DeserializeOwned>(bytes: &[u8]) -> (r: Result<T, serde_json::Error>) {
    serde_json::from_slice(bytes)
}

/// What `json` returns for what the decoder gave: the value, or the
/// decoder's error as a `JsonError`.
pub fn json_outcome<T>(decoded: Result<T, serde_json::Error>) -> (r: Result<T, ParserError>)
    ensures
        match decoded {
            Ok(v) => r == Ok::<T, ParserError>(v),
            Err(e) => r == Err::<T, ParserError>(ParserError::JsonError(e)),
        },
{
    match decoded {
        Ok(v) => Ok(v),
        Err(e) => Err(ParserError::JsonError(e)),
    }
}

impl RequestView {
    /// Whether the headers announce a JSON body: the value of `Content-Type`
    /// begins with `application/json`.
    pub open spec fn is_json(self) -> bool {
        match lookup(true, self.headers, "Content-Type"@) {
            Some(v) => "application/json"@.is_prefix_of(v),
            None => false,
        }
    }
}

impl HttpRequest {
    /// A request without a body. Its query parameters are those of `path`.
    pub fn new(method: Method, path: String, version: HttpVersion, headers: Headers) -> (r: Self)
        ensures
            r@ == (RequestView {
                method,
                path: path@,
                version,
                headers: headers@,
                body: Seq::empty(),
                query_params: query_of(path@),
            }),
    {
        let chars = to_chars(path.as_str());
        let query_params = parse_query(chars.as_slice());
        HttpRequest { method, path, version, headers, body: Vec::new(), query_params }
    }

    /// A request with a body. Its query parameters are those of `path`.
    pub fn with_body(
        method: Method,
        path: String,
        version: HttpVersion,
        headers: Headers,
        body: Vec<u8>,
    ) -> (r: Self)
        ensures
            r@ == (RequestView {
                method,
                path: path@,
                version,
                headers: headers@,
                body: body@,
                query_params: query_of(path@),
            }),
    {
        let mut request = HttpRequest::new(method, path, version, headers);
        request.body = body;
        request
    }

    /// The value of the header `name`, whatever the case of its letters.
    pub fn get_header(&self, name: &str) -> (r: Option<&String>)
        ensures
            match r {
                Some(v) => lookup(true, self@.headers, name@) == Some(v@),
                None => lookup(true, self@.headers, name@) is None,
            },
    {
        self.headers.get(name)
    }

    /// Whether there is a header `name`, whatever the case of its letters.
    pub fn has_header(&self, name: &str) -> (r: bool)
        ensures
            r == lookup(true, self@.headers, name@).is_some(),
    {
        self.get_header(name).is_some()
    }

    /// Whether the headers announce a JSON body.
    pub fn is_json(&self) -> (r: bool)
        ensures
            r == self@.is_json(),
    {
        match self.get_header("Content-Type") {
            Some(content_type) => {
                let value = to_chars(content_type.as_str());
                let wanted = to_chars("application/json");
                starts_with(value.as_slice(), wanted.as_slice())
            },
            None => false,
        }
    }

    /// The value that the body stands for as JSON.
    ///
    /// Without a JSON content type nothing is decoded and the header is
    /// reported as missing. With it the decoder decides: its value is
    /// returned, or its error as a `JsonError` (see `json_outcome`).
    pub fn json<T: serde::de::DeserializeOwned>(&self) -> (r: Result<T, ParserError>)
        ensures
            !self@.is_json() ==> r is Err && r->Err_0@ == ErrorView::MissingHeader(
                "Content-Type: application/json"@,
            ),
            self@.is_json() ==> r is Ok || r->Err_0@ is JsonError,
    {
        if !self.is_json() {
            return Err(
                ParserError::MissingHeader(String::from_str("Content-Type: application/json")),
            );
        }
        json_outcome(decode_json(self.body.as_slice()))
    }

    /// The value of the query parameter `name`.
    pub fn get_query_param(&self, name: &str) -> (r: Option<&String>)
        ensures
            match r {
                Some(v) => lookup(false, self@.query_params, name@) == Some(v@),
                None => lookup(false, self@.query_params, name@) is None,
            },
    {
        self.query_params.get(name)
    }

    /// Whether there is a query parameter `name`.
    pub fn has_query_param(&self, name: &str) -> (r: bool)
        ensures
            r == lookup(false, self@.query_params, name@).is_some(),
    {
        self.query_params.contains_key(name)
    }
}

} // verus!
