//! What can go wrong while a request is parsed or its body is decoded.

use vstd::prelude::*;

verus! {

/// The error type of `serde_json`, carried as it is.
#[verifier::external_type_specification]
#[verifier::external_body]
pub struct ExJsonError(serde_json::Error);

/// Errors of the request parser.
#[derive(Debug)]
pub enum ParserError {
    /// The method token is none of the supported methods.
    InvalidMethod(String),
    /// The path is empty.
    InvalidPath,
    /// The request line does not have exactly three tokens, or the input is
    /// not text.
    MalformedRequestLine(String),
    /// The version token is none of the supported versions.
    InvalidVersion(String),
    /// A header that must be there is not.
    MissingHeader(String),
    /// A header line has no colon.
    InvalidHeaderFormat,
    /// There is no input.
    EmptyRequest,
    /// The body is not the JSON that was asked for.
    JsonError(serde_json::Error),
}

/// The model of a `ParserError`: the variant and its text.
pub enum ErrorView {
    InvalidMethod(Seq<char>),
    InvalidPath,
    MalformedRequestLine(Seq<char>),
    InvalidVersion(Seq<char>),
    MissingHeader(Seq<char>),
    InvalidHeaderFormat,
    EmptyRequest,
    JsonError,
}

impl View for ParserError {
    type V = ErrorView;

    open spec fn view(&self) -> ErrorView {
        match self {
            ParserError::InvalidMethod(s) => ErrorView::InvalidMethod(s@),
            ParserError::InvalidPath => ErrorView::InvalidPath,
            ParserError::MalformedRequestLine(s) => ErrorView::MalformedRequestLine(s@),
            ParserError::InvalidVersion(s) => ErrorView::InvalidVersion(s@),
            ParserError::MissingHeader(s) => ErrorView::MissingHeader(s@),
            ParserError::InvalidHeaderFormat => ErrorView::InvalidHeaderFormat,
            ParserError::EmptyRequest => ErrorView::EmptyRequest,
            ParserError::JsonError(_) => ErrorView::JsonError,
        }
    }
}

impl ErrorView {
    /// The fixed part of the message, which stands before the variant's text.
    pub open spec fn prefix(self) -> Seq<char> {
        match self {
            ErrorView::InvalidMethod(_) => "Invalid HTTP method: "@,
            ErrorView::InvalidPath => "Invalid HTTP path"@,
            ErrorView::MalformedRequestLine(_) => "Malformed request line: "@,
            ErrorView::InvalidVersion(_) => "Invalid HTTP version: "@,
            ErrorView::MissingHeader(_) => "Required header is missing: "@,
            ErrorView::InvalidHeaderFormat => "Invalid header format"@,
            ErrorView::EmptyRequest => "Empty request"@,
            ErrorView::JsonError => "JSON parsing error: "@,
        }
    }

    /// The variant's text, for the variants that carry one.
    pub open spec fn detail(self) -> Seq<char> {
        match self {
            ErrorView::InvalidMethod(s) => s,
            ErrorView::MalformedRequestLine(s) => s,
            ErrorView::InvalidVersion(s) => s,
            ErrorView::MissingHeader(s) => s,
            _ => Seq::empty(),
        }
    }
}

impl ErrorView {
    /// The message, where the model fixes it: the variant's words, then its
    /// text.
    pub open spec fn text(self) -> Seq<char> {
        self.prefix() + self.detail()
    }
}

impl ParserError {
    /// The message for a reader: the variant's fixed words, then its text.
    /// For a JSON error the text is the one that `serde_json` gives.
    pub fn message(&self) -> (s: String)
        ensures
            self@ !is JsonError ==> s@ == self@.text(),
            self@ is JsonError ==> self@.prefix().is_prefix_of(s@),
    {
        match self {
            ParserError::InvalidMethod(t) => String::from_str("Invalid HTTP method: ").concat(
                t.as_str(),
            ),
            ParserError::InvalidPath => {
                let s = String::from_str("Invalid HTTP path");
                assert(s@ + Seq::<char>::empty() =~= s@);
                s
            },
            ParserError::MalformedRequestLine(t) => String::from_str(
                "Malformed request line: ",
            ).concat(t.as_str()),
            ParserError::InvalidVersion(t) => String::from_str("Invalid HTTP version: ").concat(
                t.as_str(),
            ),
            ParserError::MissingHeader(t) => String::from_str(
                "Required header is missing: ",
            ).concat(t.as_str()),
            ParserError::InvalidHeaderFormat => {
                let s = String::from_str("Invalid header format");
                assert(s@ + Seq::<char>::empty() =~= s@);
                s
            },
            ParserError::EmptyRequest => {
                let s = String::from_str("Empty request");
                assert(s@ + Seq::<char>::empty() =~= s@);
                s
            },
            ParserError::JsonError(e) => {
                let text = e.to_string();
                let s = String::from_str("JSON parsing error: ").concat(text.as_str());
                assert(s@.subrange(0, "JSON parsing error: "@.len() as int)
                    =~= "JSON parsing error: "@);
                s
            },
        }
    }
}

} // verus!
