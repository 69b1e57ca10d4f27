//! Adapters from the agents' hook payloads to events.

pub mod traex;
