//! Errors and text formatting.

pub mod error;
pub mod format;
