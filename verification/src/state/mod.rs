//! What a sidebar knows and shows.

pub mod app_state;
pub mod filter;
pub mod geometry;
pub mod global;
pub mod layout;
pub mod timers;
