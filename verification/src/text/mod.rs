//! Text handling for tmux replies, option values and command lines.

pub mod fields;
pub mod map;
pub mod numbers;
pub mod strings;
