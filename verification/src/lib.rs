//! Verified core of the Nezha terminal assistant: conversation state, the
//! update state machine, stream accumulation, text utilities and themes.

pub mod action;
pub mod agent;
pub mod api;
pub mod app;
pub mod input;
pub mod persistence;
pub mod text;
pub mod tools;
pub mod ui;
