//! A small HTTP/1.x request parser with the value types, routing rules and
//! admission rules of a server built on it.
//!
//! `parse_request` reads a request from the bytes that were received.
//! `RouteTable` chooses the handler for a request, `on_read` and `on_handled`
//! say what is written back on a connection, and `Coordinator` decides which
//! connections are served and when a server that shuts down may return.
//! Sockets, tasks and timers are left to the program that uses the library.

pub mod chars;
pub mod parser;
pub mod server;
pub mod text;

pub use parser::{
    parse_request, Headers, HttpRequest, HttpVersion, Method, ParserError, QueryParams,
};
pub use server::{
    Coordinator, HttpResponse, Route, RouteOutcome, RouteTable, ServerConfig, ServerError,
    StatusCode,
};
