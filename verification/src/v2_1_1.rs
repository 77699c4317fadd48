//! The OCPI 2.1.1 enums whose value sets differ from the later versions.

pub mod cdrs;
pub mod commands;
pub mod sessions;
