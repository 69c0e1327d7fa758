//! A live-reloading development server, reduced to the decisions it makes.
//!
//! The crate holds the rules of the reload pipeline: how a request path is
//! resolved below the served directory, when the reload snippet is appended to
//! a response, which file-system events cause a reload, and which connected
//! clients are told about it. Sockets, file reads and the file watcher are the
//! caller's business; they hand plain values in and take plain values back.

pub mod config;
pub mod decimal;
pub mod media;
pub mod notifier;
pub mod paths;
pub mod responder;
pub mod snippet;
