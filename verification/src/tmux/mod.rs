//! What the sidebar asks of tmux, and how it reads the answers.

pub mod options;
pub mod panes;
pub mod step;
