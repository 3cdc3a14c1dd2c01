//! The requests that every server answers.

pub mod get_info;
pub mod server_info;
pub mod write_bytes;
