use tmux_agent_sidebar::state::app_state::AgentPane;
use tmux_agent_sidebar::state::app_state::AppState;
use tmux_agent_sidebar::state::app_state::Popup;
use tmux_agent_sidebar::state::app_state::RepoGroup;
use tmux_agent_sidebar::state::filter::PaneStatus;
use tmux_agent_sidebar::state::filter::RepoFilter;
use tmux_agent_sidebar::state::filter::StatusFilter;
use tmux_agent_sidebar::state::geometry::point_in_rect;
use tmux_agent_sidebar::state::geometry::Rect;
use tmux_agent_sidebar::state::layout::Effect;
use tmux_agent_sidebar::state::layout::RepoSpawnTarget;
use tmux_agent_sidebar::state::layout::SpawnRemoveTarget;
use tmux_agent_sidebar::state::layout::StatusCounts;

const LATER: u64 = 1_000_000_000;

fn counts() -> StatusCounts {
    StatusCounts { all: 12, running: 3, background: 0, waiting: 4, idle: 105, error: 0 }
}

fn show(effects: Vec<Effect>) -> Vec<String> {
    effects.iter().map(show_one).collect()
}

fn show_one(effect: &Effect) -> String {
    match effect {
        Effect::SaveFilter => "save filter".to_string(),
        Effect::SaveRepoFilter => "save repo filter".to_string(),
        Effect::ScrollBottom { delta } => format!("scroll bottom {delta}"),
        Effect::ScrollPanes { delta } => format!("scroll panes {delta}"),
        Effect::ToggleNoticesPopup => "toggle notices".to_string(),
        Effect::ToggleRepoPopup => "toggle repo".to_string(),
        Effect::CopyNoticesAt { row, col } => format!("copy {row} {col}"),
        Effect::CloseNoticesPopup => "close notices".to_string(),
        Effect::ConfirmRepo { index } => format!("confirm {index}"),
        Effect::CloseRepoPopup => "close repo".to_string(),
        Effect::CloseSpawnInput => "close spawn".to_string(),
        Effect::CloseRemoveConfirm => "close remove".to_string(),
        Effect::OpenSpawnInput { repo_name, repo_root, anchor_y } => {
            format!("spawn {repo_name} {repo_root} {anchor_y}")
        }
        Effect::OpenRemoveConfirm { pane_id } => format!("remove {pane_id}"),
        Effect::ActivateSelectedPane => "activate".to_string(),
    }
}

fn pane(id: &str, status: PaneStatus) -> AgentPane {
    AgentPane { pane_id: id.to_string(), status }
}

fn state() -> AppState {
    let mut state = AppState::new("%99".to_string(), 0);
    state.repo_groups = vec![
        RepoGroup {
            name: "one".to_string(),
            panes: vec![pane("%1", PaneStatus::Running), pane("%2", PaneStatus::Idle)],
        },
        RepoGroup {
            name: "two".to_string(),
            panes: vec![pane("%3", PaneStatus::Idle), pane("%4", PaneStatus::Error)],
        },
    ];
    state
}

fn rows(state: &AppState) -> Vec<&str> {
    state.layout.pane_row_targets.iter().map(|row| row.pane_id.as_str()).collect()
}

fn popup(x: u16, y: u16, width: u16, height: u16) -> Popup {
    Popup { open: true, area: Some(Rect { x, y, width, height }) }
}

#[test]
fn rows_are_the_panes_that_both_filters_admit() {
    let mut state = state();
    assert!(show(state.rebuild_row_targets()).is_empty());
    assert_eq!(rows(&state), vec!["%1", "%2", "%3", "%4"]);
    state.global.status_filter = StatusFilter::Idle;
    state.rebuild_row_targets();
    assert_eq!(rows(&state), vec!["%2", "%3"]);
    state.global.repo_filter = RepoFilter::Repo("two".to_string());
    state.rebuild_row_targets();
    assert_eq!(rows(&state), vec!["%3"]);
}

#[test]
fn the_cursor_stays_on_a_row() {
    let mut state = state();
    state.global.selected_pane_row = 9;
    state.rebuild_row_targets();
    assert_eq!(state.global.selected_pane_row, 3);
    state.repo_groups.clear();
    state.rebuild_row_targets();
    assert_eq!(state.global.selected_pane_row, 3);
}

#[test]
fn a_filter_for_a_repository_that_is_gone_is_dropped_and_saved() {
    let mut state = state();
    state.global.repo_filter = RepoFilter::Repo("gone".to_string());
    assert_eq!(show(state.rebuild_row_targets()), vec!["save repo filter"]);
    assert!(matches!(state.global.repo_filter, RepoFilter::All));
    assert_eq!(rows(&state).len(), 4);
    assert!(show(state.rebuild_row_targets()).is_empty());
}

#[test]
fn the_wheel_goes_to_the_panel_under_the_pointer() {
    let state = state();
    let scroll = |row, height, bottom| {
        show_one(&state.handle_mouse_scroll(row, height, bottom, -3))
    };
    assert_eq!(scroll(29, 50, 20), "scroll panes -3");
    assert_eq!(scroll(30, 50, 20), "scroll bottom -3");
    assert_eq!(scroll(0, 10, 20), "scroll bottom -3");
    assert_eq!(scroll(49, 50, 0), "scroll panes -3");
}

#[test]
fn each_filter_is_selected_in_its_cell() {
    // " S12  R3  B0  W4  I105  E0"
    let expected = [
        (1, 3, StatusFilter::All),
        (6, 7, StatusFilter::Running),
        (10, 11, StatusFilter::Background),
        (14, 15, StatusFilter::Waiting),
        (18, 21, StatusFilter::Idle),
        (24, 25, StatusFilter::Error),
    ];
    for col in 0..40 {
        let mut state = state();
        state.global.status_filter = StatusFilter::All;
        let effects = show(state.handle_filter_click(col, counts(), LATER));
        let cell = expected.iter().find(|(from, to, _)| *from <= col && col <= *to);
        match cell {
            Some((_, _, filter)) => {
                assert_eq!(state.global.status_filter, *filter);
                assert_eq!(effects, vec!["save filter"]);
            }
            None => assert!(effects.is_empty(), "column {col}"),
        }
        assert_eq!(state.timers.last_filter_click, LATER);
    }
}

#[test]
fn clicks_in_quick_succession_are_ignored() {
    let mut state = state();
    assert!(state.handle_filter_click(6, counts(), 149_999_999).is_empty());
    assert_eq!(state.global.status_filter, StatusFilter::All);
    assert_eq!(state.timers.last_filter_click, 0);
    assert_eq!(state.handle_filter_click(6, counts(), 150_000_000).len(), 1);
    assert_eq!(rows(&state), vec!["%1"]);
}

#[test]
fn the_header_has_two_buttons() {
    let mut state = state();
    assert!(state.handle_secondary_header_click(5).is_empty());
    state.notices_button_col = Some(5);
    state.layout.repo_button_col = Some(20);
    assert_eq!(show(state.handle_secondary_header_click(5)), vec!["toggle notices"]);
    assert!(state.handle_secondary_header_click(19).is_empty());
    assert_eq!(show(state.handle_secondary_header_click(20)), vec!["toggle repo"]);
    assert_eq!(show(state.handle_secondary_header_click(40)), vec!["toggle repo"]);
}

#[test]
fn an_open_popup_takes_every_click() {
    let mut state = state();
    state.popups.notices = popup(2, 2, 10, 5);
    state.popups.repo = popup(2, 2, 10, 5);
    let click = |state: &mut AppState, row, col| {
        show(state.handle_mouse_click(row, col, counts(), LATER))
    };
    assert_eq!(click(&mut state, 3, 3), vec!["copy 3 3"]);
    assert_eq!(click(&mut state, 0, 6), vec!["close notices"]);
    state.popups.notices.open = false;
    state.popups.repo_count = 2;
    assert!(click(&mut state, 2, 3).is_empty());
    assert_eq!(click(&mut state, 3, 3), vec!["confirm 0"]);
    assert_eq!(click(&mut state, 4, 3), vec!["confirm 1"]);
    assert!(click(&mut state, 5, 3).is_empty());
    assert_eq!(click(&mut state, 7, 3), vec!["close repo"]);
    state.popups.repo.open = false;
    state.popups.spawn_input = popup(0, 5, 4, 4);
    assert!(click(&mut state, 5, 3).is_empty());
    assert_eq!(click(&mut state, 5, 4), vec!["close spawn"]);
    state.popups.spawn_input.open = false;
    state.popups.remove_confirm = Popup { open: true, area: None };
    assert_eq!(click(&mut state, 5, 4), vec!["close remove"]);
    state.popups.remove_confirm = popup(0, 5, 5, 4);
    assert!(click(&mut state, 5, 4).is_empty());
    assert_eq!(state.global.status_filter, StatusFilter::All);
}

#[test]
fn clicks_below_the_headers_go_to_the_list() {
    let mut state = state();
    let rect = Rect { x: 20, y: 4, width: 3, height: 1 };
    state.layout.line_to_row = vec![None, Some(0), Some(0), Some(1)];
    state.layout.repo_spawn_targets = vec![
        RepoSpawnTarget {
            rect,
            repo_name: "one".to_string(),
            repo_root: "/one".to_string(),
        },
        RepoSpawnTarget {
            rect,
            repo_name: "two".to_string(),
            repo_root: "/two".to_string(),
        },
    ];
    state.layout.spawn_remove_targets = vec![SpawnRemoveTarget {
        rect: Rect { x: 19, y: 4, width: 2, height: 1 },
        pane_id: "%2".to_string(),
    }];
    state.global.selected_pane_row = 3;
    let click = |state: &mut AppState, row, col| {
        show(state.handle_mouse_click(row, col, counts(), LATER))
    };
    assert_eq!(click(&mut state, 4, 20), vec!["spawn one /one 4"]);
    assert_eq!(click(&mut state, 4, 19), vec!["remove %2"]);
    assert!(click(&mut state, 2, 0).is_empty());
    assert_eq!(state.global.selected_pane_row, 3);
    assert_eq!(click(&mut state, 4, 0), vec!["activate"]);
    assert_eq!(state.global.selected_pane_row, 0);
    state.panes_offset = 1;
    assert_eq!(click(&mut state, 4, 0), vec!["activate"]);
    assert_eq!(state.global.selected_pane_row, 1);
    assert!(click(&mut state, 5, 0).is_empty());
    state.panes_offset = usize::MAX;
    assert!(click(&mut state, 4, 0).is_empty());
    assert_eq!(click(&mut state, 0, 6), vec!["save filter"]);
    state.notices_button_col = Some(6);
    assert_eq!(click(&mut state, 1, 6), vec!["toggle notices"]);
}

#[test]
fn a_cell_is_inside_up_to_the_edges() {
    let rect = Rect { x: 3, y: 5, width: 2, height: 1 };
    assert!(point_in_rect(5, 3, rect));
    assert!(point_in_rect(5, 4, rect));
    assert!(!point_in_rect(5, 5, rect));
    assert!(!point_in_rect(5, 2, rect));
    assert!(!point_in_rect(6, 3, rect));
    assert!(!point_in_rect(4, 3, rect));
    let last = Rect { x: 65535, y: 65534, width: 9, height: 9 };
    assert!(!point_in_rect(65534, 65535, last));
    let wide = Rect { x: 65530, y: 65530, width: 9, height: 9 };
    assert!(point_in_rect(65534, 65534, wide));
    assert!(!point_in_rect(65535, 65534, wide));
}
