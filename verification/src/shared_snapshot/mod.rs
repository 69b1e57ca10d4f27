//! The snapshot of a tmux server that its sidebars share through a daemon.
//!
//! Every sidebar is a process of its own, but what it shows is the same for the
//! whole server and costly to find out. The first sidebar starts a daemon, and
//! all of them read what the daemon has last found out.

use vstd::prelude::*;

pub mod cache;
pub mod client;
pub mod daemon;
pub mod request;
pub mod visibility;

verus! {

/// Age at which what tmux said is asked again.
pub const TMUX_FALLBACK_REFRESH_INTERVAL: u64 = 2_000_000_000;

/// Age at which the process tree is scanned again. Some agents start and stop
/// without a word, so this keeps pace with the refreshes of a visible sidebar.
pub const PROCESS_REFRESH_INTERVAL: u64 = 2_000_000_000;

/// Age at which ports are scanned again.
pub const PORT_REFRESH_INTERVAL: u64 = 60_000_000_000;

/// Time without a request after which the daemon ends.
pub const DAEMON_IDLE_TIMEOUT: u64 = 300_000_000_000;

/// Longest wait of a sidebar for the daemon.
pub const CLIENT_TIMEOUT: u64 = 2_000_000_000;

} // verus!
