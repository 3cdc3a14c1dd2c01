//! The protocol for resumable uploads.

pub mod base;
pub mod creation;
pub mod exchange;
pub mod extensions;
pub mod getting;
pub mod reading;
pub mod routing;
pub mod storing;
pub mod termination;
