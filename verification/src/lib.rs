//! State, layout and command decisions of an agent sidebar that lives in tmux panes.

pub mod adapter;
pub mod app;
pub mod cli;
pub mod clock;
pub mod event;
pub mod json;
pub mod runtime;
pub mod shared_snapshot;
pub mod state;
pub mod text;
pub mod tmux;
pub mod ui;
pub mod version;
