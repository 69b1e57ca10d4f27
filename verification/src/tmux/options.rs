//! Names of the tmux options that the sidebar reads and writes.

use vstd::prelude::*;

verus! {

/// Role of a pane; the sidebar's own panes carry `sidebar`.
pub const PANE_ROLE: &'static str = "@pane_role";

/// Status filter shared by all sidebars of a server.
pub const SIDEBAR_FILTER: &'static str = "@sidebar_filter";

/// Repository filter shared by all sidebars of a server.
pub const SIDEBAR_REPO_FILTER: &'static str = "@sidebar_repo_filter";

/// Side of the window on which the sidebar is created.
pub const SIDEBAR_POSITION: &'static str = "@sidebar_position";

/// Height of the bottom panel; 0 turns it off.
pub const SIDEBAR_BOTTOM_HEIGHT: &'static str = "@sidebar_bottom_height";

/// Whether the pet is shown.
pub const SIDEBAR_PET: &'static str = "@sidebar_pet";

/// Width of the sidebar, in columns or as a percentage of the window.
pub const SIDEBAR_WIDTH: &'static str = "@sidebar_width";

/// Smallest width to which the sidebar may be set.
pub const SIDEBAR_MIN_WIDTH: &'static str = "@sidebar_min_width";

/// Largest width to which the sidebar may be set.
pub const SIDEBAR_MAX_WIDTH: &'static str = "@sidebar_max_width";

/// Largest share of the window, in percent, to which the sidebar may be dragged.
pub const SIDEBAR_MAX_WIDTH_PERCENT: &'static str = "@sidebar_max_width_percent";

/// Columns that the rest of the window must keep.
pub const SIDEBAR_MAIN_MIN_WIDTH: &'static str = "@sidebar_main_min_width";

/// Window width below which sidebars are not created by hooks.
pub const SIDEBAR_AUTO_CREATE_MIN_WIDTH: &'static str = "@sidebar_auto_create_min_width";

/// Marks a window whose sidebar was hidden for lack of room.
pub const SIDEBAR_AUTO_HIDDEN: &'static str = "@sidebar_auto_hidden";

/// Working directory with which a hidden sidebar comes back.
pub const SIDEBAR_AUTO_HIDDEN_PATH: &'static str = "@sidebar_auto_hidden_path";

/// Width that an automatic resize is about to produce.
pub const SIDEBAR_ADJUSTING_WIDTH: &'static str = "@sidebar_adjusting_width";

} // verus!
