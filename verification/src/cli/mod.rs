//! The command line: sidebar creation, width keeping, closing and agent hooks.

pub mod create;
pub mod hook;
pub mod toggle;
pub mod width;
pub mod windows;
