//! Choosing a tmux pane: the pane records, the parser for tmux's pane listing,
//! the rule that picks the most recently used pane, and the decisions of the
//! interactive picker. Everything here is a function from values to values;
//! running tmux and driving the terminal is left to the program that uses it.

pub mod driver;
pub mod fetch;
pub mod keys;
pub mod pane;
pub mod render;
pub mod resolve;
pub mod selector;
pub mod text;
