//! Request methods.

use crate::chars::same_text;
use crate::parser::error::{ErrorView, ParserError};
use vstd::prelude::*;

verus! {

/// The request methods that the parser accepts.
#[derive(Debug, Clone, Copy, PartialEq, Eq, Hash, Structural)]
pub enum Method {
    GET,
    POST,
    PUT,
    DELETE,
    HEAD,
    OPTIONS,
    PATCH,
}

impl Method {
    /// The token that stands for the method on the wire.
    pub open spec fn token(self) -> Seq<char> {
        match self {
            Method::GET => "GET"@,
            Method::POST => "POST"@,
            Method::PUT => "PUT"@,
            Method::DELETE => "DELETE"@,
            Method::HEAD => "HEAD"@,
            Method::OPTIONS => "OPTIONS"@,
            Method::PATCH => "PATCH"@,
        }
    }

    /// The method that `s` stands for: `s` must be a method's token, letter for
    /// letter.
    pub open spec fn parse(s: Seq<char>) -> Option<Method> {
        if s == "GET"@ {
            Some(Method::GET)
        } else if s == "POST"@ {
            Some(Method::POST)
        } else if s == "PUT"@ {
            Some(Method::PUT)
        } else if s == "DELETE"@ {
            Some(Method::DELETE)
        } else if s == "HEAD"@ {
            Some(Method::HEAD)
        } else if s == "OPTIONS"@ {
            Some(Method::OPTIONS)
        } else if s == "PATCH"@ {
            Some(Method::PATCH)
        } else {
            None
        }
    }

    /// Reads a method from its token; any other text is an `InvalidMethod`
    /// that carries the text.
    pub fn from_str(s: &str) -> (r: Result<Method, ParserError>)
        ensures
            match r {
                Ok(m) => Method::parse(s@) == Some(m),
                Err(e) => Method::parse(s@) is None && e@ == ErrorView::InvalidMethod(s@),
            },
    {
        if same_text(s, "GET") {
            Ok(Method::GET)
        } else if same_text(s, "POST") {
            Ok(Method::POST)
        } else if same_text(s, "PUT") {
            Ok(Method::PUT)
        } else if same_text(s, "DELETE") {
            Ok(Method::DELETE)
        } else if same_text(s, "HEAD") {
            Ok(Method::HEAD)
        } else if same_text(s, "OPTIONS") {
            Ok(Method::OPTIONS)
        } else if same_text(s, "PATCH") {
            Ok(Method::PATCH)
        } else {
            Err(ParserError::InvalidMethod(String::from_str(s)))
        }
    }

    /// The method's token.
    pub fn as_str(&self) -> (s: &'static str)
        ensures
            s@ == self.token(),
    {
        match self {
            Method::GET => "GET",
            Method::POST => "POST",
            Method::PUT => "PUT",
            Method::DELETE => "DELETE",
            Method::HEAD => "HEAD",
            Method::OPTIONS => "OPTIONS",
            Method::PATCH => "PATCH",
        }
    }

    /// The method's token, as an owned string.
    pub fn to_string(&self) -> (s: String)
        ensures
            s@ == self.token(),
    {
        String::from_str(self.as_str())
    }

    /// A method's token stands for that method.
    pub proof fn lemma_parse_token(self)
        ensures
            Method::parse(self.token()) == Some(self),
    {
        reveal_strlit("GET");
        reveal_strlit("POST");
        reveal_strlit("PUT");
        reveal_strlit("DELETE");
        reveal_strlit("HEAD");
        reveal_strlit("OPTIONS");
        reveal_strlit("PATCH");
        match self {
            Method::GET => {},
            Method::POST => {
                assert("POST"@.len() != "GET"@.len());
            },
            Method::PUT => {
                assert("PUT"@[0] != "GET"@[0]);
                assert("PUT"@.len() != "POST"@.len());
            },
            Method::DELETE => {
                assert("DELETE"@.len() == 6);
            },
            Method::HEAD => {
                assert("HEAD"@.len() == 4);
                assert("HEAD"@[0] != "POST"@[0]);
            },
            Method::OPTIONS => {
                assert("OPTIONS"@.len() == 7);
            },
            Method::PATCH => {
                assert("PATCH"@.len() == 5);
            },
        }
    }
}

} // verus!
