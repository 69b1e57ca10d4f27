use tmux_agent_sidebar::state::app_state::AppState;
use tmux_agent_sidebar::state::geometry::Rect;

fn state_with_bottom(height: u16) -> AppState {
    let mut s = AppState::new("%99".into(), 0);
    s.bottom_panel_height = height;
    s
}

#[test]
fn tall_window_shows_both_by_default() {
    let s = state_with_bottom(20);
    // 50 >= 20 + COMPACT_LIST_MIN(10) -> not compact, shown.
    assert_eq!(s.bottom_visibility(50), (false, true));
}

#[test]
fn short_window_auto_hides_bottom() {
    let s = state_with_bottom(20);
    // Threshold is 20 + 10 = 30: below it is compact + hidden, at/above
    // it is roomy + shown.
    assert_eq!(s.bottom_visibility(29), (true, false));
    assert_eq!(s.bottom_visibility(30), (false, true));
}

#[test]
fn zero_height_option_always_hidden() {
    let s = state_with_bottom(0);
    assert_eq!(s.bottom_visibility(100), (false, false));
}

#[test]
fn toggle_reveals_on_short_but_is_noop_on_tall() {
    let mut s = state_with_bottom(20);

    // Short window: hidden by default, toggle reveals then hides again.
    s.last_viewport_height = 25;
    assert!(!s.bottom_panel_visible());
    s.toggle_bottom_panel();
    assert!(s.bottom_panel_visible());
    s.toggle_bottom_panel();
    assert!(!s.bottom_panel_visible());

    // Tall window: always shown, and the toggle can't hide it.
    s.bottom_override = None;
    s.last_viewport_height = 60;
    assert!(s.bottom_panel_visible());
    s.toggle_bottom_panel();
    assert!(s.bottom_panel_visible());
    assert_eq!(s.bottom_override, None);
}

#[test]
fn crossing_the_threshold_resets_the_override() {
    let mut s = state_with_bottom(20);

    // Peek the panel in on a short window.
    s.last_viewport_height = 25;
    s.sync_bottom_regime(true);
    s.toggle_bottom_panel();
    assert!(s.bottom_panel_visible());

    // Growing to a tall window re-shows it and clears the override.
    s.sync_bottom_regime(false);
    assert_eq!(s.bottom_override, None);
    s.last_viewport_height = 60;
    assert!(s.bottom_panel_visible());

    // Shrinking back to compact re-hides it (override cleared again).
    s.sync_bottom_regime(true);
    s.last_viewport_height = 25;
    assert!(!s.bottom_panel_visible());
}

#[test]
fn clicking_the_drawer_handle_toggles_the_panel() {
    let mut s = state_with_bottom(20);
    s.last_viewport_height = 14;
    s.sync_bottom_regime(true);
    // The renderer publishes the handle rect on the compact window's last row.
    s.layout.bottom_toggle_target = Some(Rect { x: 0, y: 13, width: 28, height: 1 });

    assert!(!s.bottom_panel_visible());
    assert!(s.handle_bottom_toggle_click(13, 5), "click hit the handle");
    assert!(s.bottom_panel_visible());
    assert!(s.handle_bottom_toggle_click(13, 5));
    assert!(!s.bottom_panel_visible());

    // A click anywhere off the handle row is not consumed.
    assert!(!s.handle_bottom_toggle_click(2, 5));
    assert!(!s.bottom_panel_visible());
}

#[test]
fn toggle_is_noop_when_panel_disabled() {
    let mut s = state_with_bottom(0);
    s.last_viewport_height = 100;
    s.toggle_bottom_panel();
    assert_eq!(s.bottom_override, None);
    assert!(!s.bottom_panel_visible());
}
