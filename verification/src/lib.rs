//! Loomis: the verified core of a terminal coding agent.

pub mod app;
pub mod compact;
pub mod hooks;
pub mod json;
pub mod memory;
pub mod sandbox;
pub mod text;
pub mod text_laws;
pub mod tools;
pub mod tui;
