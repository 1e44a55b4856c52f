//! Agent definitions and application configuration.

pub mod config;
