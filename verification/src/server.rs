//! Responses, routing and the rules of the server.

pub mod config;
pub mod connection;
pub mod coordinator;
pub mod error;
pub mod response;
pub mod router;

pub use config::ServerConfig;
pub use connection::{on_handled, on_read, Reaction};
pub use coordinator::{AcceptFailure, Action, Coordinator, Event, Phase};
pub use error::ServerError;
pub use response::{HttpResponse, StatusCode};
pub use router::{Route, RouteOutcome, RouteTable};
