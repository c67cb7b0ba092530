//! The request parser and its value types.

pub mod error;
pub mod fields;
pub mod method;
pub mod request;
pub mod version;
pub mod wire;

pub use error::ParserError;
pub use fields::{Headers, QueryParams};
pub use method::Method;
pub use request::{parse_request, parse_text, HttpRequest};
pub use version::HttpVersion;
