//! Removal of uploads.

pub mod routes;
