//! Everything that one sidebar holds between frames.

use vstd::prelude::*;

use crate::state::filter::PaneStatus;
use crate::state::geometry::Rect;
use crate::state::global::GlobalState;
use crate::state::layout::FrameLayout;
use crate::state::timers::RefreshTimers;
use crate::ui;

verus! {

/// Where keyboard input goes.
#[derive(Clone, Copy, Debug, PartialEq, Eq, Structural)]
pub enum Focus {
    Filter,
    Panes,
    ActivityLog,
}

/// One agent's pane.
#[derive(Clone, Debug)]
pub struct AgentPane {
    pub pane_id: String,
    pub status: PaneStatus,
}

/// The agents of one repository.
#[derive(Clone, Debug)]
pub struct RepoGroup {
    pub name: String,
    pub panes: Vec<AgentPane>,
}

/// A popup: whether it is open, and where it was last drawn.
#[derive(Clone, Copy, Debug, PartialEq, Eq, Structural)]
pub struct Popup {
    pub open: bool,
    pub area: Option<Rect>,
}

/// The popups, in the order in which they take clicks.
#[derive(Clone, Copy, Debug, PartialEq, Eq, Structural)]
pub struct Popups {
    pub notices: Popup,
    pub repo: Popup,
    /// Number of entries in the repository popup.
    pub repo_count: usize,
    pub spawn_input: Popup,
    pub remove_confirm: Popup,
}

impl Popup {
    /// A popup that is closed and was never drawn.
    pub open spec fn closed() -> Popup {
        Popup { open: false, area: None }
    }
}

impl Popups {
    /// No popup was ever open.
    pub open spec fn closed() -> Popups {
        Popups {
            notices: Popup::closed(),
            repo: Popup::closed(),
            repo_count: 0,
            spawn_input: Popup::closed(),
            remove_confirm: Popup::closed(),
        }
    }
}

/// The state of one sidebar.
pub struct AppState {
    /// Pane in which this sidebar runs.
    pub tmux_pane: String,
    pub global: GlobalState,
    pub repo_groups: Vec<RepoGroup>,
    pub layout: FrameLayout,
    pub timers: RefreshTimers,
    pub popups: Popups,
    /// Column of the notices button in the secondary header, while it is shown.
    pub notices_button_col: Option<u16>,
    /// First line of the agent list that is on screen.
    pub panes_offset: usize,
    pub focus: Focus,
    pub pet_enabled: bool,
    /// Rows of the bottom panel; 0 turns it off.
    pub bottom_panel_height: u16,
    /// Whether the user has shown or hidden the bottom panel by hand.
    pub bottom_override: Option<bool>,
    /// Whether the last frame was compact, once there was one.
    pub last_compact: Option<bool>,
    /// Rows of the last frame.
    pub last_viewport_height: u16,
}

impl AppState {
    /// A fresh sidebar in a pane.
    pub fn new(tmux_pane: String, now: u64) -> (state: AppState)
        ensures
            state.tmux_pane == tmux_pane,
            state.global == GlobalState::initial(),
            state.repo_groups@.len() == 0,
            state.layout.is_blank(),
            state.timers == RefreshTimers::started(now),
            state.popups == Popups::closed(),
            state.notices_button_col is None,
            state.panes_offset == 0,
            state.focus == Focus::Panes,
            !state.pet_enabled,
            state.bottom_panel_height == ui::BOTTOM_PANEL_HEIGHT,
            state.bottom_override is None,
            state.last_compact is None,
            state.last_viewport_height == 0,
    {
        let closed = Popup { open: false, area: None };
        AppState {
            tmux_pane,
            global: GlobalState::new(),
            repo_groups: Vec::new(),
            layout: FrameLayout::new(),
            timers: RefreshTimers::new(now),
            popups: Popups {
                notices: closed,
                repo: closed,
                repo_count: 0,
                spawn_input: closed,
                remove_confirm: closed,
            },
            notices_button_col: None,
            panes_offset: 0,
            focus: Focus::Panes,
            pet_enabled: false,
            bottom_panel_height: ui::BOTTOM_PANEL_HEIGHT,
            bottom_override: None,
            last_compact: None,
            last_viewport_height: 0,
        }
    }
}

} // verus!
