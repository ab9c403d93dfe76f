//! Persistence of terminals: their table, the layout of the panel that holds them, and the tmux
//! sessions to which they are attached.
//!
//! - [`terminal_source`], [`native_path`] and [`terminal_db`]: what a saved terminal shows, where
//!   it works, and the table of saved terminals.
//! - [`layout`], [`saved`] and [`serialize`]: the split tree of a panel, its saved form, and how
//!   the one becomes the other.
//! - [`restore`] and [`panel_restore`]: how a saved panel is restored, step by step.
//! - [`layout_laws`] and [`window_laws`]: what saving and restoring do together, and what the steps
//!   of a restoration do to a window.
//! - [`view_laws`]: that the views over which the contracts are stated show everything.
//! - [`panel_key`] and [`cleanup`]: how rows that nothing refers to any more are found and
//!   deleted.
//! - [`remote_tmux`] and [`register_zed_scheme`]: the dialog that attaches a session, and the
//!   links that the application handles.

pub mod cleanup;
pub mod layout;
pub mod layout_laws;
pub mod native_path;
pub mod panel_key;
pub mod panel_restore;
pub mod register_zed_scheme;
pub mod remote_tmux;
pub mod restore;
pub mod saved;
pub mod serialize;
pub mod terminal_db;
pub mod terminal_source;
pub mod view_laws;
pub mod window_laws;
