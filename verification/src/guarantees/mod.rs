//! What clients, listeners and operators can count on, told in terms of header fields, settings and
//! what is stored.

pub mod addresses;
pub mod checksums;
pub mod creation;
pub mod final_uploads;
pub mod lookup;
pub mod metadata;
pub mod removal;
pub mod requests;
pub mod settings;
pub mod writing;
