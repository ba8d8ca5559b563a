//! Utilities: alert hash generation.

pub mod format;
