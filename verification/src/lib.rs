//! Decision logic of a status-bar plugin that mirrors pane titles onto tabs.
//!
//! Everything here is pure: the host's events come in as plain values, and what
//! the host is to do about them goes out as a list of actions.

pub mod click;
pub mod config;
pub mod effects;
pub mod event;
pub mod flash;
pub mod laws;
pub mod model;
pub mod rename_guard;
pub mod rename_laws;
pub mod session;
pub mod settings;
pub mod state;
pub mod tab_pane_map;
pub mod text;
pub mod titles;
