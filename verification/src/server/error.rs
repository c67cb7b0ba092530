//! What can go wrong while a connection is served.

use crate::parser::error::{ErrorView, ParserError};
use crate::parser::method::Method;
use vstd::prelude::*;

verus! {

/// The error type of std's I/O, carried as it is.
#[verifier::external_type_specification]
#[verifier::external_body]
pub struct ExIoError(std::io::Error);

/// Errors of the server.
#[derive(Debug)]
pub enum ServerError {
    /// The request could not be parsed.
    ParseError(ParserError),
    /// Reading or writing failed.
    IoError(std::io::Error),
    /// No route has the path.
    NotFound(String),
    /// Routes have the path, but none of them accepts the method.
    MethodNotAllowed(Method, String),
    /// A handler failed.
    InternalError(String),
    /// A value could not be written as JSON.
    JsonError(serde_json::Error),
}

/// The model of a `ServerError`: the variant and its text.
pub enum ServerErrorView {
    ParseError(ErrorView),
    IoError,
    NotFound(Seq<char>),
    MethodNotAllowed(Method, Seq<char>),
    InternalError(Seq<char>),
    JsonError,
}

impl View for ServerError {
    type V = ServerErrorView;

    open spec fn view(&self) -> ServerErrorView {
        match self {
            ServerError::ParseError(e) => ServerErrorView::ParseError(e@),
            ServerError::IoError(_) => ServerErrorView::IoError,
            ServerError::NotFound(p) => ServerErrorView::NotFound(p@),
            ServerError::MethodNotAllowed(m, p) => ServerErrorView::MethodNotAllowed(*m, p@),
            ServerError::InternalError(s) => ServerErrorView::InternalError(s@),
            ServerError::JsonError(_) => ServerErrorView::JsonError,
        }
    }
}

impl ServerErrorView {
    /// The words that the message begins with.
    pub open spec fn prefix(self) -> Seq<char> {
        match self {
            ServerErrorView::ParseError(_) => "Parse error: "@,
            ServerErrorView::IoError => "I/O error: "@,
            ServerErrorView::NotFound(_) => "Not found: "@,
            ServerErrorView::MethodNotAllowed(_, _) => "Method "@,
            ServerErrorView::InternalError(_) => "Internal server error: "@,
            ServerErrorView::JsonError => "JSON error: "@,
        }
    }

    /// Whether the whole message is fixed by the model: it is, unless the
    /// error wraps one of another library.
    pub open spec fn known(self) -> bool {
        match self {
            ServerErrorView::ParseError(e) => !(e is JsonError),
            ServerErrorView::IoError => false,
            ServerErrorView::JsonError => false,
            _ => true,
        }
    }

    /// The message, where it is known.
    pub open spec fn text(self) -> Seq<char> {
        match self {
            ServerErrorView::ParseError(e) => "Parse error: "@ + e.text(),
            ServerErrorView::NotFound(p) => "Not found: "@ + p,
            ServerErrorView::MethodNotAllowed(m, p) => "Method "@ + m.token()
                + " not allowed for path: "@ + p,
            ServerErrorView::InternalError(s) => "Internal server error: "@ + s,
            _ => self.prefix(),
        }
    }

    /// Whether the failure is one of reading or writing.
    pub open spec fn is_io(self) -> bool {
        self is IoError
    }
}

impl ServerError {
    /// The message for a reader. It begins with the variant's words; what
    /// follows them is the variant's text, or the message of the error that
    /// is wrapped.
    pub fn message(&self) -> (s: String)
        ensures
            self@.prefix().is_prefix_of(s@),
            self@.known() ==> s@ == self@.text(),
    {
        let s = match self {
            ServerError::ParseError(e) => String::from_str("Parse error: ").concat(
                e.message().as_str(),
            ),
            ServerError::IoError(e) => String::from_str("I/O error: ").concat(
                e.to_string().as_str(),
            ),
            ServerError::NotFound(p) => String::from_str("Not found: ").concat(p.as_str()),
            ServerError::MethodNotAllowed(m, p) => String::from_str("Method ").concat(
                m.as_str(),
            ).concat(" not allowed for path: ").concat(p.as_str()),
            ServerError::InternalError(t) => String::from_str("Internal server error: ").concat(
                t.as_str(),
            ),
            ServerError::JsonError(e) => String::from_str("JSON error: ").concat(
                e.to_string().as_str(),
            ),
        };
        assert(s@.subrange(0, self@.prefix().len() as int) =~= self@.prefix());
        s
    }

    /// Whether the failure is one of reading or writing.
    pub fn is_io(&self) -> (r: bool)
        ensures
            r == self@.is_io(),
    {
        match self {
            ServerError::IoError(_) => true,
            _ => false,
        }
    }
}

} // verus!
