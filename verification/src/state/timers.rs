//! When things last happened.

use vstd::prelude::*;

verus! {

/// Times that gate periodic work, on the sidebar's monotonic clock.
#[derive(Debug, Clone, Copy)]
pub struct RefreshTimers {
    /// Last click that the filter bar took.
    pub last_filter_click: u64,
    /// Last scan of ports and commands.
    pub last_port_refresh: u64,
    /// Last scan of the whole process tree.
    pub last_process_refresh: u64,
    /// Whether ports have been scanned at all; the first scan does not wait.
    pub port_scan_initialized: bool,
    /// Whether the process tree has been scanned at all.
    pub process_scan_initialized: bool,
    /// Last sweep of dead background shells.
    pub last_bg_shell_sweep: Option<u64>,
}

impl RefreshTimers {
    /// Timers that start at `now`, with nothing scanned yet.
    pub open spec fn started(now: u64) -> RefreshTimers {
        RefreshTimers {
            last_filter_click: now,
            last_port_refresh: now,
            last_process_refresh: now,
            port_scan_initialized: false,
            process_scan_initialized: false,
            last_bg_shell_sweep: None,
        }
    }

    /// Timers that start now, with nothing scanned yet.
    pub fn new(now: u64) -> (timers: RefreshTimers)
        ensures
            timers == Self::started(now),
    {
        RefreshTimers {
            last_filter_click: now,
            last_port_refresh: now,
            last_process_refresh: now,
            port_scan_initialized: false,
            process_scan_initialized: false,
            last_bg_shell_sweep: None,
        }
    }
}

/// Timers start with the sidebar, and neither ports nor processes count as
/// scanned then.
pub proof fn timers_start_with_nothing_scanned(now: u64)
    ensures
        ({
            let timers = RefreshTimers::started(now);
            &&& timers.last_filter_click == now
            &&& timers.last_port_refresh == now
            &&& timers.last_process_refresh == now
            &&& !timers.port_scan_initialized
            &&& !timers.process_scan_initialized
            &&& timers.last_bg_shell_sweep is None
        }),
{
}

} // verus!
