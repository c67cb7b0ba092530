//! Protocol versions.

use crate::chars::same_text;
use crate::parser::error::{ErrorView, ParserError};
use vstd::prelude::*;

verus! {

/// The protocol versions that the parser accepts.
#[derive(Debug, Clone, Copy, PartialEq, Eq, Structural)]
pub enum HttpVersion {
    Http10,
    Http11,
    Http20,
}

impl HttpVersion {
    /// The token that is written for the version.
    pub open spec fn token(self) -> Seq<char> {
        match self {
            HttpVersion::Http10 => "HTTP/1.0"@,
            HttpVersion::Http11 => "HTTP/1.1"@,
            HttpVersion::Http20 => "HTTP/2"@,
        }
    }

    /// The version that `s` stands for. `HTTP/2` and `HTTP/2.0` are one
    /// version.
    pub open spec fn parse(s: Seq<char>) -> Option<HttpVersion> {
        if s == "HTTP/1.0"@ {
            Some(HttpVersion::Http10)
        } else if s == "HTTP/1.1"@ {
            Some(HttpVersion::Http11)
        } else if s == "HTTP/2"@ || s == "HTTP/2.0"@ {
            Some(HttpVersion::Http20)
        } else {
            None
        }
    }

    /// Reads a version from its token; any other text is an `InvalidVersion`
    /// that carries the text.
    pub fn from_str(s: &str) -> (r: Result<HttpVersion, ParserError>)
        ensures
            match r {
                Ok(v) => HttpVersion::parse(s@) == Some(v),
                Err(e) => HttpVersion::parse(s@) is None && e@ == ErrorView::InvalidVersion(s@),
            },
    {
        if same_text(s, "HTTP/1.0") {
            Ok(HttpVersion::Http10)
        } else if same_text(s, "HTTP/1.1") {
            Ok(HttpVersion::Http11)
        } else if same_text(s, "HTTP/2") || same_text(s, "HTTP/2.0") {
            Ok(HttpVersion::Http20)
        } else {
            Err(ParserError::InvalidVersion(String::from_str(s)))
        }
    }

    /// The version's token.
    pub fn as_str(&self) -> (s: &'static str)
        ensures
            s@ == self.token(),
    {
        match self {
            HttpVersion::Http10 => "HTTP/1.0",
            HttpVersion::Http11 => "HTTP/1.1",
            HttpVersion::Http20 => "HTTP/2",
        }
    }

    /// The version's token, as an owned string.
    pub fn to_string(&self) -> (s: String)
        ensures
            s@ == self.token(),
    {
        String::from_str(self.as_str())
    }

    /// A version's token stands for that version.
    pub proof fn lemma_parse_token(self)
        ensures
            HttpVersion::parse(self.token()) == Some(self),
    {
        reveal_strlit("HTTP/1.0");
        reveal_strlit("HTTP/1.1");
        reveal_strlit("HTTP/2");
        match self {
            HttpVersion::Http10 => {},
            HttpVersion::Http11 => {
                assert("HTTP/1.1"@[7] != "HTTP/1.0"@[7]);
            },
            HttpVersion::Http20 => {
                assert("HTTP/2"@.len() == 6);
            },
        }
    }
}

} // verus!
