//! Server-Sent Events: the incremental parser and the client-side decisions.

pub mod client;
pub mod parser;
