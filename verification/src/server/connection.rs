//! What is done with one connection: the reaction to what was read from it,
//! and the replies that the server itself writes.

use crate::parser::error::ParserError;
use crate::parser::method::Method;
use crate::parser::request::{parse_request, parsed_bytes, HttpRequest, RequestView};
use crate::server::error::{ServerError, ServerErrorView};
use crate::server::response::{HttpResponse, ResponseView, StatusCode};
use crate::server::router::{resolve, Resolution, RouteOutcome, RouteTable, RouteView};
use vstd::prelude::*;
use vstd::utf8::encode_utf8;

verus! {

/// The tokens of `ms`, with a comma and a space between them.
pub open spec fn joined(ms: Seq<Method>) -> Seq<char>
    decreases ms.len(),
{
    if ms.len() == 0 {
        Seq::empty()
    } else if ms.len() == 1 {
        ms[0].token()
    } else {
        joined(ms.drop_last()) + seq![',', ' '] + ms.last().token()
    }
}

/// Executable `joined`.
pub fn join_methods(ms: &Vec<Method>) -> (s: String)
    ensures
        s@ == joined(ms@),
{
    let mut s = String::new();
    let mut i: usize = 0;
    proof {
        reveal_strlit(", ");
        assert(ms@.take(0) =~= Seq::<Method>::empty());
    }
    while i < ms.len()
        invariant
            i <= ms@.len(),
            s@ == joined(ms@.take(i as int)),
            ", "@ == seq![',', ' '],
        decreases ms@.len() - i,
    {
        let ghost before = s@;
        if i > 0 {
            s.append(", ");
        }
        s.append(ms[i].as_str());
        proof {
            let t = ms@.take(i + 1);
            assert(t.drop_last() =~= ms@.take(i as int));
            assert(t.last() == ms@[i as int]);
            if i == 0 {
                assert(s@ =~= t[0].token());
            }
        }
        i += 1;
    }
    assert(ms@.take(ms@.len() as int) =~= ms@);
    s
}

/// A reply in plain text.
pub open spec fn plain_reply(status: StatusCode, text: Seq<char>) -> ResponseView {
    ResponseView::fresh(status).header("Content-Type"@, "text/plain"@).body_bytes(
        encode_utf8(text),
    )
}

/// The reply to a request that could not be parsed; `message` says why.
pub open spec fn bad_request_reply(message: Seq<char>) -> ResponseView {
    plain_reply(StatusCode::BadRequest, "Error parsing request: "@ + message)
}

/// The reply to a request for a path that no route has.
pub open spec fn not_found_reply(path: Seq<char>) -> ResponseView {
    plain_reply(StatusCode::NotFound, "Not found: "@ + path)
}

/// The reply to a request whose method no route with its path accepts. Its
/// `Allow` header lists the methods that are accepted.
pub open spec fn method_not_allowed_reply(
    method: Method,
    path: Seq<char>,
    allowed: Seq<Method>,
) -> ResponseView {
    ResponseView::fresh(StatusCode::MethodNotAllowed).header("Allow"@, joined(allowed)).header(
        "Content-Type"@,
        "text/plain"@,
    ).body_bytes(
        encode_utf8(
            "Method "@ + method.token() + " not allowed for path: "@ + path
                + ". Allowed methods: "@ + joined(allowed),
        ),
    )
}

/// The reply to a request whose handler failed; `message` says how.
pub open spec fn handler_failure_reply(message: Seq<char>) -> ResponseView {
    plain_reply(StatusCode::InternalServerError, "Internal server error: "@ + message)
}

/// The reply to a connection that is refused because too many are open.
pub open spec fn overload_reply() -> ResponseView {
    plain_reply(
        StatusCode::ServiceUnavailable,
        "Server is at capacity, please try again later"@,
    )
}

/// A reply in plain text.
fn plain_response(status: StatusCode, text: &str) -> (r: HttpResponse)
    ensures
        r@ == plain_reply(status, text@),
{
    HttpResponse::new(status).with_content_type("text/plain").with_body_string(text)
}

/// The reply to a request that could not be parsed.
pub fn bad_request_response(e: &ParserError) -> (r: HttpResponse)
    ensures
        e@ !is JsonError ==> r@ == bad_request_reply(e@.text()),
        exists|message: Seq<char>|
            e@.prefix().is_prefix_of(message) && r@ == #[trigger] bad_request_reply(message),
{
    let message = e.message();
    let text = String::from_str("Error parsing request: ").concat(message.as_str());
    let r = plain_response(StatusCode::BadRequest, text.as_str());
    assert(r@ == bad_request_reply(message@));
    r
}

/// The reply to a request for a path that no route has.
pub fn not_found_response(path: &str) -> (r: HttpResponse)
    ensures
        r@ == not_found_reply(path@),
{
    let text = String::from_str("Not found: ").concat(path);
    plain_response(StatusCode::NotFound, text.as_str())
}

/// The reply to a request whose method no route with its path accepts.
pub fn method_not_allowed_response(method: Method, path: &str, allowed: &Vec<Method>) -> (r:
    HttpResponse)
    ensures
        r@ == method_not_allowed_reply(method, path@, allowed@),
{
    let list = join_methods(allowed);
    let text = String::from_str("Method ").concat(method.as_str()).concat(
        " not allowed for path: ",
    ).concat(path).concat(". Allowed methods: ").concat(list.as_str());
    HttpResponse::new(StatusCode::MethodNotAllowed).with_header(
        "Allow",
        list.as_str(),
    ).with_content_type("text/plain").with_body_string(text.as_str())
}

/// The reply to a request whose handler failed.
pub fn handler_failure_response(e: &ServerError) -> (r: HttpResponse)
    ensures
        e@.known() ==> r@ == handler_failure_reply(e@.text()),
        exists|message: Seq<char>|
            e@.prefix().is_prefix_of(message) && r@ == #[trigger] handler_failure_reply(message),
{
    let message = e.message();
    let text = String::from_str("Internal server error: ").concat(message.as_str());
    let r = plain_response(StatusCode::InternalServerError, text.as_str());
    assert(r@ == handler_failure_reply(message@));
    r
}

/// The reply to a connection that is refused because too many are open.
pub fn overload_response() -> (r: HttpResponse)
    ensures
        r@ == overload_reply(),
{
    plain_response(StatusCode::ServiceUnavailable, "Server is at capacity, please try again later")
}

/// What is done after the one read of a connection.
pub enum Reaction<'a, H> {
    /// Nothing was read: the peer has closed, and nothing is written.
    Closed,
    /// These bytes are written, and the error is reported to the caller.
    Reply(Vec<u8>, ServerError),
    /// The handler is called with the request.
    Call(&'a H, HttpRequest),
}

/// The model of a `Reaction`; a handler is named by the index of its route.
pub enum ReactionView {
    Closed,
    Reply(Seq<u8>, ServerErrorView),
    Call(int, RequestView),
}

/// The reaction to the bytes `input`, read from a connection, of a server
/// with the given routes.
///
/// A request's path is held against the routes as it was written, with its
/// query string if it has one.
pub open spec fn reaction(routes: Seq<RouteView>, input: Seq<u8>) -> ReactionView {
    if input.len() == 0 {
        ReactionView::Closed
    } else {
        match parsed_bytes(input) {
            Err(e) => ReactionView::Reply(
                bad_request_reply(e.text()).wire(),
                ServerErrorView::ParseError(e),
            ),
            Ok(request) => match resolve(routes, request.path, request.method) {
                Resolution::Matched(i) => ReactionView::Call(i, request),
                Resolution::MethodNotAllowed(allowed) => ReactionView::Reply(
                    method_not_allowed_reply(request.method, request.path, allowed).wire(),
                    ServerErrorView::MethodNotAllowed(request.method, request.path),
                ),
                Resolution::NotFound => ReactionView::Reply(
                    not_found_reply(request.path).wire(),
                    ServerErrorView::NotFound(request.path),
                ),
            },
        }
    }
}

/// Decides what is done with a connection from which `input` was read.
pub fn on_read<'a, H>(table: &'a RouteTable<H>, input: &[u8]) -> (r: Reaction<'a, H>)
    ensures
        match r {
            Reaction::Closed => reaction(table@, input@) == ReactionView::Closed,
            Reaction::Reply(bytes, e) => reaction(table@, input@) == ReactionView::Reply(
                bytes@,
                e@,
            ),
            Reaction::Call(h, request) => exists|i: int|
                reaction(table@, input@) == ReactionView::Call(i, request@) && *h
                    == #[trigger] table.handler_at(i),
        },
{
    if input.len() == 0 {
        return Reaction::Closed;
    }
    let request = match parse_request(input) {
        Ok(request) => request,
        Err(e) => {
            let bytes = bad_request_response(&e).to_bytes();
            return Reaction::Reply(bytes, ServerError::ParseError(e));
        },
    };
    match table.resolve(&request) {
        RouteOutcome::Matched(h) => Reaction::Call(h, request),
        RouteOutcome::MethodNotAllowed(allowed) => {
            let bytes = method_not_allowed_response(
                request.method,
                request.path.as_str(),
                &allowed,
            ).to_bytes();
            Reaction::Reply(bytes, ServerError::MethodNotAllowed(request.method, request.path))
        },
        RouteOutcome::NotFound => {
            let bytes = not_found_response(request.path.as_str()).to_bytes();
            Reaction::Reply(bytes, ServerError::NotFound(request.path))
        },
    }
}

/// What is written and reported once the handler has returned: its response,
/// or for its error the reply that names the error, and the error itself.
pub fn on_handled(outcome: Result<HttpResponse, ServerError>) -> (r: (
    Vec<u8>,
    Result<(), ServerError>,
))
    ensures
        match outcome {
            Ok(response) => r.0@ == response@.wire() && r.1 is Ok,
            Err(e) => {
                &&& r.1 == Err::<(), ServerError>(e)
                &&& e@.known() ==> r.0@ == handler_failure_reply(e@.text()).wire()
                &&& exists|message: Seq<char>|
                    e@.prefix().is_prefix_of(message) && r.0@ == (#[trigger] handler_failure_reply(
                        message,
                    )).wire()
            },
        },
{
    match outcome {
        Ok(response) => (response.to_bytes(), Ok(())),
        Err(e) => {
            let bytes = handler_failure_response(&e).to_bytes();
            (bytes, Err(e))
        },
    }
}

} // verus!
