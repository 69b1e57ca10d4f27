use tmux_agent_sidebar::cli::toggle::any_sidebar_pane;
use tmux_agent_sidebar::cli::toggle::auto_create_blocked_by_width;
use tmux_agent_sidebar::cli::toggle::drag_width_range;
use tmux_agent_sidebar::cli::toggle::resolve_sidebar_width;
use tmux_agent_sidebar::cli::toggle::responsive_sidebar_fits;
use tmux_agent_sidebar::cli::toggle::should_kill_window;
use tmux_agent_sidebar::cli::toggle::sidebar_panes;
use tmux_agent_sidebar::cli::toggle::sidebar_width_changed;
use tmux_agent_sidebar::cli::toggle::split_window_flags;
use tmux_agent_sidebar::cli::toggle::target_pane_for_position;
use tmux_agent_sidebar::cli::toggle::unique_window_paths;
use tmux_agent_sidebar::cli::toggle::SidebarPosition;

#[test]
fn auto_create_width_gate() {
    // Below the minimum → skip.
    assert!(auto_create_blocked_by_width(149, 100));
    assert!(auto_create_blocked_by_width(149, 148));
    // At or above the minimum → allow.
    assert!(!auto_create_blocked_by_width(149, 149));
    assert!(!auto_create_blocked_by_width(149, 320));
    // Unknown width (query failed → 0) → do not block.
    assert!(!auto_create_blocked_by_width(149, 0));
}

#[test]
fn sidebar_width_resolves_columns_and_percentages() {
    assert_eq!(resolve_sidebar_width("48", 160), Some(48));
    assert_eq!(resolve_sidebar_width("15%", 200), Some(30));
    assert_eq!(resolve_sidebar_width("1%", 40), Some(1));
    assert_eq!(resolve_sidebar_width("0%", 200), None);
    assert_eq!(resolve_sidebar_width("15%", 0), None);
    assert_eq!(resolve_sidebar_width("invalid", 200), None);
}

#[test]
fn sidebar_width_is_restored_after_shrink_or_growth() {
    assert!(sidebar_width_changed("12", 48));
    assert!(!sidebar_width_changed("48", 48));
    assert!(sidebar_width_changed("60", 48));
    assert!(!sidebar_width_changed("invalid", 48));
}

#[test]
fn responsive_sidebar_reserves_main_content_width_and_border() {
    assert!(!responsive_sidebar_fits(148, 48, 100));
    assert!(responsive_sidebar_fits(149, 48, 100));
    assert!(responsive_sidebar_fits(200, 48, 100));
}

#[test]
fn drag_width_range_combines_absolute_percentage_and_main_area_caps() {
    assert_eq!(drag_width_range(110, 36, 64, 30, 80), None);
    assert_eq!(drag_width_range(120, 36, 64, 30, 80), Some(36..=36));
    assert_eq!(drag_width_range(140, 36, 64, 30, 80), Some(36..=42));
    assert_eq!(drag_width_range(160, 36, 64, 30, 80), Some(36..=48));
    assert_eq!(drag_width_range(200, 36, 64, 30, 80), Some(36..=60));
    assert_eq!(drag_width_range(240, 36, 64, 30, 80), Some(36..=64));
    assert_eq!(drag_width_range(320, 36, 64, 30, 80), Some(36..=64));
}

#[test]
fn any_sidebar_pane_detects_sidebar_anywhere() {
    let output = "%1|pane\n%2|sidebar\n%3|pane";
    assert!(any_sidebar_pane(output));
}

#[test]
fn any_sidebar_pane_returns_false_without_sidebar() {
    let output = "%1|pane\n%2|main";
    assert!(!any_sidebar_pane(output));
}

#[test]
fn sidebar_panes_returns_every_duplicate_for_reconciliation() {
    let output = "%1|sidebar\n%2|main\n%3|sidebar\nmalformed";
    assert_eq!(
        sidebar_panes(output),
        vec!["%1".to_string(), "%3".to_string()]
    );
}

#[test]
fn unique_window_paths_deduplicates_windows_and_keeps_spaces() {
    let output = "%1|/Users/me/My Project\n%1|/Users/me/My Project\n%2|/tmp/another project";
    assert_eq!(
        unique_window_paths(output),
        vec![
            ("%1".to_string(), "/Users/me/My Project".to_string()),
            ("%2".to_string(), "/tmp/another project".to_string()),
        ]
    );
}

#[test]
fn unique_window_paths_skips_malformed_lines() {
    let output = "bad-line\n%1|/tmp";
    assert_eq!(
        unique_window_paths(output),
        vec![("%1".to_string(), "/tmp".to_string())]
    );
}

// sidebar placement

#[test]
fn sidebar_position_parses_right_only() {
    assert_eq!(
        SidebarPosition::from_setting("right"),
        SidebarPosition::Right
    );
    assert_eq!(
        SidebarPosition::from_setting(" RIGHT "),
        SidebarPosition::Right
    );
    assert_eq!(SidebarPosition::from_setting("left"), SidebarPosition::Left);
    assert_eq!(SidebarPosition::from_setting(""), SidebarPosition::Left);
    assert_eq!(
        SidebarPosition::from_setting("invalid"),
        SidebarPosition::Left
    );
}

#[test]
fn target_pane_for_left_position_uses_leftmost_pane() {
    let output = "40 80 %3\n0 20 %1\n20 20 %2";

    assert_eq!(
        target_pane_for_position(output, SidebarPosition::Left),
        Some("%1".to_string())
    );
}

#[test]
fn target_pane_for_right_position_uses_largest_right_edge() {
    let output = "0 20 %1\n20 20 %2\n40 80 %3";

    assert_eq!(
        target_pane_for_position(output, SidebarPosition::Right),
        Some("%3".to_string())
    );
}

#[test]
fn target_pane_for_position_skips_malformed_lines() {
    let output = "bad-line\n0 nope %1\n12 30 %2";

    assert_eq!(
        target_pane_for_position(output, SidebarPosition::Left),
        Some("%2".to_string())
    );
    assert_eq!(target_pane_for_position("", SidebarPosition::Right), None);
}

#[test]
fn split_window_flags_match_tmux_side_semantics() {
    assert_eq!(split_window_flags(SidebarPosition::Left), "-hfb");
    assert_eq!(split_window_flags(SidebarPosition::Right), "-hf");
}

// should_kill_window

#[test]
fn should_kill_window_kills_when_only_sidebar_and_other_windows_exist() {
    // Classic intended path: sidebar alone in a window, session has
    // other windows to fall back on. Attached-client count is
    // irrelevant because killing this window does not end the
    // session.
    assert!(should_kill_window(Some("sidebar"), Some(2), None));
    assert!(should_kill_window(Some("sidebar"), Some(2), Some(0)));
    assert!(should_kill_window(Some("sidebar"), Some(2), Some(5)));
}

#[test]
fn should_kill_window_skips_when_non_sidebar_pane_remains() {
    // Another pane with `@pane_role` explicitly set to something
    // non-sidebar (e.g. a spawn-marked pane) keeps the window alive.
    assert!(!should_kill_window(Some("sidebar\npane"), Some(5), Some(1)));
    // `@pane_role` unset renders as an empty line — that pane is
    // a regular user pane, not a sidebar, so the window must stay.
    // The real tmux output for [sidebar pane, regular pane] is
    // "sidebar\n\n" (sidebar's role, then the regular pane's empty
    // role followed by the final record separator).
    assert!(!should_kill_window(Some("sidebar\n\n"), Some(5), Some(1)));
    assert!(!should_kill_window(Some("\nsidebar\n"), Some(5), Some(1)));
}

#[test]
fn should_kill_window_skips_when_list_panes_failed() {
    // A failed `list-panes` says nothing of the window.
    assert!(!should_kill_window(None, Some(5), Some(1)));
}

#[test]
fn should_kill_window_skips_when_list_panes_empty() {
    // Whitespace-only output (e.g. window already gone) must not
    // trigger a kill either.
    assert!(!should_kill_window(Some(""), Some(5), Some(1)));
    assert!(!should_kill_window(Some("   \n"), Some(5), Some(1)));
}

#[test]
fn should_kill_window_kills_last_window_when_single_client_attached() {
    // One client attached to a single-window session: destroying
    // the session only detaches the same client that just kept the
    // session alive, which matches tmux's standard `exit` behaviour
    // on the last pane — the user expects the sidebar to go with it.
    assert!(should_kill_window(Some("sidebar"), Some(1), Some(1)));
}

#[test]
fn should_kill_window_kills_last_window_when_detached() {
    // No clients attached: killing the session harms no one, and
    // a stranded sidebar in a detached session is pointless anyway.
    assert!(should_kill_window(Some("sidebar"), Some(1), Some(0)));
}

#[test]
fn should_kill_window_preserves_last_window_when_multiple_clients_attached() {
    // Killing the last window of a session drops every attached client.
    assert!(!should_kill_window(Some("sidebar"), Some(1), Some(2)));
    assert!(!should_kill_window(Some("sidebar"), Some(1), Some(7)));
}

#[test]
fn should_kill_window_preserves_last_window_when_attached_query_failed() {
    // Without knowing how many clients are attached we cannot prove
    // the kill is safe. Better a lingering sidebar pane than a
    // mass-disconnect.
    assert!(!should_kill_window(Some("sidebar"), Some(1), None));
}

#[test]
fn should_kill_window_skips_when_session_windows_query_failed() {
    // If we cannot prove the session has other windows, err on the
    // side of preservation. Better to leave a lingering sidebar
    // pane than to destroy a live workspace.
    assert!(!should_kill_window(Some("sidebar"), None, Some(1)));
    assert!(!should_kill_window(Some("sidebar"), Some(0), Some(1)));
}
