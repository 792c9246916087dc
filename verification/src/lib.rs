//! A gateway in front of a server with the Responses API.
//!
//! The gateway waits until the server is ready, then passes requests on to it and
//! answers back. This library decides what is passed on, what is asked of the
//! server and what the gateway answers itself; reading, sending and waiting are
//! left to its caller.

pub mod config;
pub mod error;
pub mod headers;
pub mod json;
pub mod launch;
pub mod proxy;
pub mod server;
pub mod text;
