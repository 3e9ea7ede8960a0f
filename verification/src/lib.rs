//! Status detection for terminal agent sessions, centered list scrolling and
//! key/mouse input decisions for a session-manager TUI.

pub mod text;
pub mod ansi;
pub mod detection;
pub mod scroll_state;
pub mod input;
