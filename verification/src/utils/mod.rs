//! Helpers.

pub mod hashes;
pub mod headers;
