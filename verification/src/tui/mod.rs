//! The terminal interface: state, key handling and the lines to be drawn.

pub mod agent_event;
pub mod app;
pub mod chat_laws;
pub mod command_laws;
pub mod debug;
pub mod editor;
pub mod event;
pub mod event_laws;
pub mod frame;
pub mod handle;
pub mod input;
pub mod input_view;
pub mod intervene;
pub mod key_laws;
pub mod keyboard;
pub mod messages;
pub mod overlay;
pub mod paste;
pub mod resume;
pub mod screen_laws;
pub mod selection;
pub mod shell_exec;
pub mod slash;
pub mod span;
pub mod status;
pub mod theme;
pub mod typing_laws;
pub mod ui;
pub mod view_laws;
pub mod welcome;
pub mod width;
pub mod wrap;
