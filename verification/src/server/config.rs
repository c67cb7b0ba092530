//! The configuration of a server.

use vstd::prelude::*;

verus! {

/// What a server is started with.
#[derive(Debug)]
pub struct ServerConfig {
    /// The address to listen on, as text, such as `127.0.0.1:8080`.
    pub addr: String,
    /// The most connections that are served at a time.
    pub max_connections: usize,
    /// The most bytes that are read from a connection.
    pub read_buffer_size: usize,
}

impl Default for ServerConfig {
    fn default() -> (r: Self)
        ensures
            r.addr@ == "127.0.0.1:8080"@,
            r.max_connections == 1024,
            r.read_buffer_size == 8192,
    {
        ServerConfig {
            addr: String::from_str("127.0.0.1:8080"),
            max_connections: 1024,
            read_buffer_size: 8192,
        }
    }
}

impl Clone for ServerConfig {
    fn clone(&self) -> (r: Self)
        ensures
            r.addr@ == self.addr@,
            r.max_connections == self.max_connections,
            r.read_buffer_size == self.read_buffer_size,
    {
        ServerConfig {
            addr: self.addr.clone(),
            max_connections: self.max_connections,
            read_buffer_size: self.read_buffer_size,
        }
    }
}

} // verus!
