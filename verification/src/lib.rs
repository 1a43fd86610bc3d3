//! Verified core of a status-bar plugin that shows the key hints of the
//! current input mode: which keys to show for each mode, how to draw them as
//! styled segments, and how to fit the resulting line into a maximum width.
pub mod actions;
pub mod ansi;
pub mod color;
pub mod config;
pub mod hints;
pub mod keys;
pub mod modes;
pub mod plugin;
pub mod text;
