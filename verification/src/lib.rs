//! The decisions of a server for resumable uploads.

pub mod codec;
pub mod config;
pub mod cors;
pub mod errors;
pub mod fields;
pub mod file_info;
pub mod greeting;
pub mod guarantees;
pub mod laws;
pub mod middleware;
pub mod notifiers;
pub mod paths;
pub mod protocol;
pub mod routes;
pub mod server;
pub mod text;
pub mod utils;
