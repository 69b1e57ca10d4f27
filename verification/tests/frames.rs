use tmux_agent_sidebar::state::app_state::AppState;
use tmux_agent_sidebar::state::app_state::Focus;
use tmux_agent_sidebar::state::geometry::Rect;
use tmux_agent_sidebar::state::layout::HyperlinkOverlay;
use tmux_agent_sidebar::ui::draw;
use tmux_agent_sidebar::ui::draw_panel_handle;
use tmux_agent_sidebar::ui::DrawPlan;

fn area(height: u16) -> Rect {
    Rect { x: 0, y: 0, width: 28, height }
}

fn rows(y: u16, height: u16) -> Rect {
    Rect { x: 0, y, width: 28, height }
}

#[test]
fn a_compact_window_has_a_handle_in_its_last_row() {
    let mut state = AppState::new("%99".to_string(), 0);
    state.focus = Focus::ActivityLog;
    state.layout.hyperlink_overlays.push(HyperlinkOverlay {
        x: 0,
        y: 0,
        text: "#1".to_string(),
        url: "https://example.com".to_string(),
    });
    let plan = draw(&mut state, area(14));
    assert_eq!(
        plan,
        DrawPlan::Compact { body: rows(0, 13), handle: rows(13, 1), shown: false }
    );
    assert_eq!(state.layout.bottom_toggle_target, Some(rows(13, 1)));
    assert!(state.layout.hyperlink_overlays.is_empty());
    assert_eq!(state.focus, Focus::Panes);
    assert!(state.handle_bottom_toggle_click(13, 0));
    let plan = draw(&mut state, area(14));
    assert_eq!(
        plan,
        DrawPlan::Compact { body: rows(0, 13), handle: rows(13, 1), shown: true }
    );
    assert_eq!(state.focus, Focus::ActivityLog);
    // A resize forgets the choice both ways.
    assert!(matches!(draw(&mut state, area(30)), DrawPlan::Stacked { .. }));
    assert_eq!(state.layout.bottom_toggle_target, None);
    assert_eq!(state.focus, Focus::ActivityLog);
    assert!(matches!(draw(&mut state, area(29)), DrawPlan::Compact { shown: false, .. }));
    assert_eq!(state.focus, Focus::Panes);
}

#[test]
fn a_window_without_rows_has_no_handle() {
    let mut state = AppState::new("%99".to_string(), 0);
    assert_eq!(
        draw(&mut state, area(0)),
        DrawPlan::Compact { body: rows(0, 0), handle: rows(0, 0), shown: false }
    );
}

#[test]
fn a_panel_of_no_height_leaves_the_list_alone() {
    let mut state = AppState::new("%99".to_string(), 0);
    state.bottom_panel_height = 0;
    state.focus = Focus::ActivityLog;
    assert_eq!(draw(&mut state, area(14)), DrawPlan::ListOnly { area: area(14) });
    assert_eq!(state.layout.bottom_toggle_target, None);
    assert_eq!(state.focus, Focus::Panes);
}

#[test]
fn a_tall_window_is_split_exactly() {
    for pet in [false, true] {
        let scene = if pet { 5 } else { 1 };
        for bottom in [1, 2, 7, 20, 33, 100] {
            for extra in [10, 11, 12, 13, 17, 40, 41, 250] {
                let mut state = AppState::new("%99".to_string(), 0);
                state.pet_enabled = pet;
                state.bottom_panel_height = bottom;
                let height = bottom + extra;
                for y in [0, 3] {
                    let area = Rect { x: 2, y, width: 28, height };
                    let part = |y, height| Rect { x: 2, y, width: 28, height };
                    assert_eq!(
                        draw(&mut state, area),
                        DrawPlan::Stacked {
                            list: part(y, extra - scene),
                            scene: part(y + extra - scene, scene),
                            bottom: part(y + extra, bottom),
                            pet,
                        }
                    );
                }
            }
        }
    }
}

#[test]
fn the_handle_pushes_its_key_to_the_right() {
    let handle = draw_panel_handle(rows(13, 1), false, 1).unwrap();
    assert_eq!(handle.marker, "▸");
    assert_eq!(handle.label, "Activity / Git");
    assert_eq!(handle.hint, "[b]");
    // 28 columns less 1 + 1 + 1 + 14 + 3 + 1.
    assert_eq!(handle.gap, 7);
    let handle = draw_panel_handle(rows(13, 1), true, 2).unwrap();
    assert_eq!(handle.marker, "▾");
    assert_eq!(handle.gap, 6);
    let narrow = Rect { x: 0, y: 0, width: 21, height: 1 };
    assert_eq!(draw_panel_handle(narrow, true, 1).unwrap().gap, 0);
    let narrower = Rect { x: 0, y: 0, width: 5, height: 1 };
    assert_eq!(draw_panel_handle(narrower, true, 1).unwrap().gap, 0);
    assert!(draw_panel_handle(rows(0, 0), true, 1).is_none());
    assert!(draw_panel_handle(Rect { x: 0, y: 0, width: 0, height: 1 }, true, 1).is_none());
}

#[test]
fn a_window_that_lacks_rows_is_split_within_itself() {
    for (y, height, bottom) in [(0, 65535, 65530), (0, 65535, 65535), (65500, 100, 60)] {
        let mut state = AppState::new("%99".to_string(), 0);
        state.pet_enabled = true;
        state.bottom_panel_height = bottom;
        let area = Rect { x: 0, y, width: 28, height };
        let DrawPlan::Stacked { list, scene, bottom, pet } = draw(&mut state, area) else {
            panic!("expected a split window");
        };
        assert!(pet);
        let end = u32::from(y.saturating_add(height));
        for part in [list, scene, bottom] {
            assert_eq!((part.x, part.width), (0, 28));
            assert!(part.y >= y);
            assert!(u32::from(part.y) + u32::from(part.height) <= end);
        }
    }
}
