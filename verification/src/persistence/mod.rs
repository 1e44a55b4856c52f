//! Conversation persistence: what the library decides about saved
//! conversations and preferences. The SQLite store belongs to the program.

pub mod db;
