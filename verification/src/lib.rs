//! Streaming gateway between a list-conversion worker and an HTTP client.
//!
//! The worker answers one request per connection with a small framed
//! protocol. This library holds everything that is decided about that
//! exchange: how a frame is cut out of the byte stream, what its payload
//! means, how far a session has come, and which event the client is sent for
//! each row. It opens no connection and writes no response itself.

pub mod srv_io;
pub mod types;
pub mod utils;
