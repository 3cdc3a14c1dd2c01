//! Creation of uploads.

pub mod metadata;
pub mod routes;
