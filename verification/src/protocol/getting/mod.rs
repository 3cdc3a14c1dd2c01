//! Download of uploads.

pub mod routes;
