//! Document and navigation model of a terminal notes browser: a line-oriented
//! edit buffer, a note tree with its sidebar projection, and the focus and
//! dialog state machines that route key presses.

pub mod app;
pub mod buffer;
pub mod chars;
pub mod config;
pub mod focus;
pub mod history;
pub mod paths;
pub mod screen;
pub mod sidebar;
pub mod title;
pub mod tree;
