//! Status codes and responses, and the bytes that a response is sent as.

use crate::chars::{decimal, from_chars, push_decimal};
use crate::chars::folded;
use crate::parser::fields::{lemma_lookup_put, lookup, put, Entries, Headers};
use crate::server::error::ServerError;
use crate::parser::wire::{header_block, header_line, lemma_header_block_push};
use vstd::prelude::*;
use vstd::utf8::encode_utf8;

verus! {

/// The status codes that a response can carry.
#[derive(Debug, Clone, Copy, PartialEq, Eq, Structural)]
pub enum StatusCode {
    OK,
    Created,
    Accepted,
    NoContent,
    BadRequest,
    Unauthorized,
    Forbidden,
    NotFound,
    MethodNotAllowed,
    InternalServerError,
    NotImplemented,
    BadGateway,
    ServiceUnavailable,
}

impl StatusCode {
    /// The number of the status.
    pub open spec fn number(self) -> nat {
        match self {
            StatusCode::OK => 200,
            StatusCode::Created => 201,
            StatusCode::Accepted => 202,
            StatusCode::NoContent => 204,
            StatusCode::BadRequest => 400,
            StatusCode::Unauthorized => 401,
            StatusCode::Forbidden => 403,
            StatusCode::NotFound => 404,
            StatusCode::MethodNotAllowed => 405,
            StatusCode::InternalServerError => 500,
            StatusCode::NotImplemented => 501,
            StatusCode::BadGateway => 502,
            StatusCode::ServiceUnavailable => 503,
        }
    }

    /// The reason phrase of the status.
    pub open spec fn reason(self) -> Seq<char> {
        match self {
            StatusCode::OK => "OK"@,
            StatusCode::Created => "Created"@,
            StatusCode::Accepted => "Accepted"@,
            StatusCode::NoContent => "No Content"@,
            StatusCode::BadRequest => "Bad Request"@,
            StatusCode::Unauthorized => "Unauthorized"@,
            StatusCode::Forbidden => "Forbidden"@,
            StatusCode::NotFound => "Not Found"@,
            StatusCode::MethodNotAllowed => "Method Not Allowed"@,
            StatusCode::InternalServerError => "Internal Server Error"@,
            StatusCode::NotImplemented => "Not Implemented"@,
            StatusCode::BadGateway => "Bad Gateway"@,
            StatusCode::ServiceUnavailable => "Service Unavailable"@,
        }
    }

    /// The number of the status.
    pub fn code(&self) -> (n: u16)
        ensures
            n == self.number(),
    {
        match self {
            StatusCode::OK => 200,
            StatusCode::Created => 201,
            StatusCode::Accepted => 202,
            StatusCode::NoContent => 204,
            StatusCode::BadRequest => 400,
            StatusCode::Unauthorized => 401,
            StatusCode::Forbidden => 403,
            StatusCode::NotFound => 404,
            StatusCode::MethodNotAllowed => 405,
            StatusCode::InternalServerError => 500,
            StatusCode::NotImplemented => 501,
            StatusCode::BadGateway => 502,
            StatusCode::ServiceUnavailable => 503,
        }
    }

    /// The reason phrase of the status.
    pub fn reason_phrase(&self) -> (s: &'static str)
        ensures
            s@ == self.reason(),
    {
        match self {
            StatusCode::OK => "OK",
            StatusCode::Created => "Created",
            StatusCode::Accepted => "Accepted",
            StatusCode::NoContent => "No Content",
            StatusCode::BadRequest => "Bad Request",
            StatusCode::Unauthorized => "Unauthorized",
            StatusCode::Forbidden => "Forbidden",
            StatusCode::NotFound => "Not Found",
            StatusCode::MethodNotAllowed => "Method Not Allowed",
            StatusCode::InternalServerError => "Internal Server Error",
            StatusCode::NotImplemented => "Not Implemented",
            StatusCode::BadGateway => "Bad Gateway",
            StatusCode::ServiceUnavailable => "Service Unavailable",
        }
    }
}

/// A response.
#[derive(Debug)]
pub struct HttpResponse {
    /// The status.
    pub status: StatusCode,
    /// The headers.
    pub headers: Headers,
    /// The body.
    pub body: Vec<u8>,
}

/// The model of a response.
pub struct ResponseView {
    pub status: StatusCode,
    pub headers: Entries,
    pub body: Seq<u8>,
}

impl View for HttpResponse {
    type V = ResponseView;

    open spec fn view(&self) -> ResponseView {
        ResponseView { status: self.status, headers: self.headers@, body: self.body@ }
    }
}

impl ResponseView {
    /// A response without a body, which names the server.
    pub open spec fn fresh(status: StatusCode) -> ResponseView {
        ResponseView {
            status,
            headers: seq![("Server"@, "microhttp-rs"@)],
            body: Seq::empty(),
        }
    }

    /// The response with one header written.
    pub open spec fn header(self, name: Seq<char>, value: Seq<char>) -> ResponseView {
        ResponseView { headers: put(self.headers, name, value), ..self }
    }

    /// The response with `body` as its body and the length of `body`, in
    /// bytes, as its `Content-Length`.
    pub open spec fn body_bytes(self, body: Seq<u8>) -> ResponseView {
        ResponseView {
            body,
            headers: put(self.headers, "Content-Length"@, decimal(body.len())),
            ..self
        }
    }

    /// The response with the JSON text `json` as its body.
    pub open spec fn json_bytes(self, json: Seq<u8>) -> ResponseView {
        self.header("Content-Type"@, "application/json"@).body_bytes(json)
    }

    /// The status line, the header lines and the empty line after them.
    pub open spec fn head(self) -> Seq<char> {
        "HTTP/1.1 "@ + decimal(self.status.number()) + seq![' '] + self.status.reason()
            + seq!['\r', '\n'] + header_block(self.headers) + seq!['\r', '\n']
    }

    /// The bytes that the response is sent as: the head in UTF-8, then the
    /// body.
    pub open spec fn wire(self) -> Seq<u8> {
        encode_utf8(self.head()) + self.body
    }
}

impl ResponseView {
    /// Whether a header names the server.
    pub open spec fn names_server(self) -> bool {
        lookup(true, self.headers, "Server"@) is Some
    }
}

/// A new response names the server, and writing a header or setting a body
/// leaves a response that names the server one that does.
pub proof fn lemma_server_is_named(
    r: ResponseView,
    status: StatusCode,
    name: Seq<char>,
    value: Seq<char>,
    body: Seq<u8>,
)
    ensures
        ResponseView::fresh(status).names_server(),
        r.names_server() ==> r.header(name, value).names_server(),
        r.names_server() ==> r.body_bytes(body).names_server(),
        r.names_server() ==> r.json_bytes(body).names_server(),
{
    let server = "Server"@;
    let fresh = ResponseView::fresh(status).headers;
    assert(fresh[0].0 == server);
    lemma_lookup_put(true, r.headers, name, value, server);
    lemma_lookup_put(true, r.headers, "Content-Length"@, decimal(body.len()), server);
    let typed = r.header("Content-Type"@, "application/json"@);
    lemma_lookup_put(true, r.headers, "Content-Type"@, "application/json"@, server);
    lemma_lookup_put(true, typed.headers, "Content-Length"@, decimal(body.len()), server);
}

/// Setting a body leaves the body's length, in bytes and as a decimal
/// numeral, under `Content-Length`, whatever the case that the name is asked
/// for with; a JSON body also leaves `application/json` under
/// `Content-Type`.
pub proof fn lemma_body_sets_length(r: ResponseView, body: Seq<u8>, name: Seq<char>)
    ensures
        r.body_bytes(body).body == body,
        folded(name) == folded("Content-Length"@) ==> lookup(
            true,
            r.body_bytes(body).headers,
            name,
        ) == Some(decimal(body.len())),
        folded(name) == folded("Content-Length"@) ==> lookup(
            true,
            r.json_bytes(body).headers,
            name,
        ) == Some(decimal(body.len())),
        lookup(true, r.json_bytes(body).headers, "Content-Type"@) == Some("application/json"@),
{
    reveal_strlit("Content-Length");
    reveal_strlit("Content-Type");
    let typed = r.header("Content-Type"@, "application/json"@);
    lemma_lookup_put(true, r.headers, "Content-Length"@, decimal(body.len()), name);
    lemma_lookup_put(true, typed.headers, "Content-Length"@, decimal(body.len()), name);
    lemma_lookup_put(true, r.headers, "Content-Type"@, "application/json"@, "Content-Type"@);
    lemma_lookup_put(
        true,
        typed.headers,
        "Content-Length"@,
        decimal(body.len()),
        "Content-Type"@,
    );
    assert(folded("Content-Type"@) != folded("Content-Length"@)) by {
        assert(folded("Content-Type"@)[8] != folded("Content-Length"@)[8]);
    }
}

/// The bytes that a response is sent as depend on nothing but its status,
/// its headers and its body: a response is sent as the same bytes each time.
pub proof fn lemma_wire_repeats(a: HttpResponse, b: HttpResponse)
    requires
        a@ == b@,
    ensures
        a@.wire() == b@.wire(),
{
}

/// `serde_json::to_vec`: the JSON text of `value`, or why there is none.
/// Nothing is claimed of the result.
#[verifier::external_body]
fn encode_json<T: serde::Serialize>(value: &T) -> (r: Result<Vec<u8>, serde_json::Error>) {
    serde_json::to_vec(value)
}

impl Clone for HttpResponse {
    fn clone(&self) -> (r: Self)
        ensures
            r@ == self@,
    {
        HttpResponse {
            status: self.status,
            headers: self.headers.clone(),
            body: self.body.clone(),
        }
    }
}

impl HttpResponse {
    /// A response with the given status, no body, and the header that names
    /// the server.
    pub fn new(status: StatusCode) -> (r: Self)
        ensures
            r@ == ResponseView::fresh(status),
    {
        let mut headers = Headers::new();
        headers.insert(String::from_str("Server"), String::from_str("microhttp-rs"));
        let r = HttpResponse { status, headers, body: Vec::new() };
        proof {
            let e = Seq::<(Seq<char>, Seq<char>)>::empty();
            assert(put(e, "Server"@, "microhttp-rs"@) =~= seq![("Server"@, "microhttp-rs"@)]);
        }
        r
    }

    /// Writes a header, in place of an earlier one of that very name.
    pub fn with_header(self, name: &str, value: &str) -> (r: Self)
        ensures
            r@ == self@.header(name@, value@),
    {
        let mut r = self;
        r.headers.insert(String::from_str(name), String::from_str(value));
        r
    }

    /// Writes the `Content-Type` header.
    pub fn with_content_type(self, content_type: &str) -> (r: Self)
        ensures
            r@ == self@.header("Content-Type"@, content_type@),
    {
        self.with_header("Content-Type", content_type)
    }

    /// Sets the body, and `Content-Length` to its length in bytes.
    pub fn with_body_bytes(self, body: Vec<u8>) -> (r: Self)
        ensures
            r@ == self@.body_bytes(body@),
    {
        let mut digits: Vec<char> = Vec::new();
        push_decimal(&mut digits, body.len());
        assert(digits@ =~= decimal(body@.len()));
        let length = from_chars(digits.as_slice());
        let mut r = self;
        r.body = body;
        r.headers.insert(String::from_str("Content-Length"), length);
        r
    }

    /// Sets the body to the UTF-8 bytes of `body`, and `Content-Length` to
    /// their number.
    pub fn with_body_string(self, body: &str) -> (r: Self)
        ensures
            r@ == self@.body_bytes(encode_utf8(body@)),
    {
        self.with_body_bytes(body.as_bytes_vec())
    }

    /// Sets the body to the JSON text `json`, and the content type to JSON.
    pub fn with_json_bytes(self, json: Vec<u8>) -> (r: Self)
        ensures
            r@ == self@.json_bytes(json@),
    {
        self.with_header("Content-Type", "application/json").with_body_bytes(json)
    }

    /// What `with_json` returns for what the encoder gave: the response with
    /// the JSON text as its body, or the encoder's error as a `JsonError`.
    pub fn json_response(self, encoded: Result<Vec<u8>, serde_json::Error>) -> (r: Result<
        Self,
        ServerError,
    >)
        ensures
            match encoded {
                Ok(json) => r is Ok && r->Ok_0@ == self@.json_bytes(json@),
                Err(e) => r is Err && r->Err_0 == ServerError::JsonError(e),
            },
    {
        match encoded {
            Ok(json) => Ok(self.with_json_bytes(json)),
            Err(e) => Err(ServerError::JsonError(e)),
        }
    }

    /// Sets the body to the JSON text of `value`, and the content type to
    /// JSON.
    ///
    /// The encoder decides whether there is such a text: with one, the
    /// response is that of `with_json_bytes`; without, the encoder's error is
    /// returned as a `JsonError` (see `json_response`).
    pub fn with_json<T: serde::Serialize>(self, value: &T) -> (r: Result<Self, ServerError>)
        ensures
            match r {
                Ok(response) => exists|json: Seq<u8>|
                    response@ == #[trigger] self@.json_bytes(json),
                Err(e) => e@ is JsonError,
            },
    {
        self.json_response(encode_json(value))
    }

    /// The bytes that the response is sent as: the status line, a line for
    /// each header in the order of the table, an empty line, and the body.
    pub fn to_bytes(&self) -> (bytes: Vec<u8>)
        ensures
            bytes@ == self@.wire(),
    {
        proof {
            reveal_strlit(" ");
            reveal_strlit(": ");
            reveal_strlit("\r\n");
        }
        let mut digits: Vec<char> = Vec::new();
        push_decimal(&mut digits, self.status.code() as usize);
        assert(digits@ =~= decimal(self.status.number()));
        let mut head = String::from_str("HTTP/1.1 ");
        head.append(from_chars(digits.as_slice()).as_str());
        head.append(" ");
        head.append(self.status.reason_phrase());
        head.append("\r\n");
        let ghost start = head@;
        let ghost hs = self.headers@;
        assert(start =~= "HTTP/1.1 "@ + decimal(self.status.number()) + seq![' ']
            + self.status.reason() + seq!['\r', '\n']);
        assert(hs.take(0) =~= Seq::<(Seq<char>, Seq<char>)>::empty());
        assert(start + header_block(hs.take(0)) =~= start);
        let n: usize = self.headers.len();
        let mut i: usize = 0;
        while i < n
            invariant
                n == hs.len(),
                hs == self.headers@,
                i <= n,
                head@ == start + header_block(hs.take(i as int)),
                ": "@ == seq![':', ' '],
                "\r\n"@ == seq!['\r', '\n'],
            decreases n - i,
        {
            let ghost before = head@;
            head.append(self.headers.name_at(i).as_str());
            head.append(": ");
            head.append(self.headers.value_at(i).as_str());
            head.append("\r\n");
            proof {
                assert(head@ =~= before + header_line(hs[i as int]));
                assert(hs.take(i + 1) =~= hs.take(i as int).push(hs[i as int]));
                lemma_header_block_push(hs.take(i as int), hs[i as int]);
                assert(head@ =~= start + header_block(hs.take(i + 1)));
            }
            i += 1;
        }
        assert(hs.take(n as int) =~= hs);
        head.append("\r\n");
        assert(head@ =~= self@.head());
        let mut bytes = head.as_str().as_bytes_vec();
        let ghost encoded = bytes@;
        bytes.extend_from_slice(self.body.as_slice());
        assert(bytes@ =~= encoded + self.body@);
        bytes
    }
}

} // verus!
