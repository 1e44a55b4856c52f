//! Chat API data model, client settings and stream decoding.

pub mod types;
pub mod deepseek;
pub mod stream;
