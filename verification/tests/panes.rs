use tmux_agent_sidebar::tmux::panes::find_active_pane;
use tmux_agent_sidebar::tmux::panes::focused_pane_path;
use tmux_agent_sidebar::tmux::panes::get_pane_path;
use tmux_agent_sidebar::tmux::panes::get_sidebar_pane_info;
use tmux_agent_sidebar::tmux::panes::pane_path_request;
use tmux_agent_sidebar::tmux::panes::pick_active_pane;
use tmux_agent_sidebar::tmux::panes::query_active_window_panes;
use tmux_agent_sidebar::tmux::step::Step;

// Tuples are (pane_id, pane_active, pane_last, path).
#[test]
fn pick_active_pane_returns_active_non_sidebar() {
    let panes = vec![
        ("%1".into(), false, false, "/home".into()),
        ("%2".into(), true, false, "/work".into()),
        ("%3".into(), false, false, "/tmp".into()),
    ];
    assert_eq!(
        pick_active_pane("%99", &panes),
        Some(("%2".into(), "/work".into()))
    );
}

#[test]
fn pick_active_pane_falls_back_to_last_when_sidebar_active() {
    // The sidebar pane %99 is active, so the pane that was active before it
    // (%2) is picked.
    let panes = vec![
        ("%99".into(), true, false, "/sidebar".into()),
        ("%1".into(), false, false, "/home".into()),
        ("%2".into(), false, true, "/work".into()),
    ];
    assert_eq!(
        pick_active_pane("%99", &panes),
        Some(("%2".into(), "/work".into()))
    );
}

#[test]
fn pick_active_pane_prefers_active_over_last() {
    let panes = vec![
        ("%1".into(), true, false, "/active".into()),
        ("%2".into(), false, true, "/last".into()),
    ];
    assert_eq!(
        pick_active_pane("%99", &panes),
        Some(("%1".into(), "/active".into()))
    );
}

#[test]
fn pick_active_pane_skips_sidebar_even_when_marked_active() {
    let panes = vec![("%99".into(), true, false, "/a".into())];
    assert!(pick_active_pane("%99", &panes).is_none());
}

#[test]
fn pick_active_pane_skips_panes_with_empty_path() {
    let panes = vec![
        ("%1".into(), true, false, "".into()),
        ("%2".into(), true, false, "/ok".into()),
    ];
    assert_eq!(
        pick_active_pane("%99", &panes),
        Some(("%2".into(), "/ok".into()))
    );
}

#[test]
fn pick_active_pane_returns_none_for_empty_list() {
    assert!(pick_active_pane("%99", &[]).is_none());
}

#[test]
fn pick_active_pane_returns_none_when_no_active_or_last() {
    let panes = vec![
        ("%1".into(), false, false, "/x".into()),
        ("%2".into(), false, false, "/y".into()),
    ];
    assert!(pick_active_pane("%99", &panes).is_none());
}

#[test]
fn pane_info_falls_back_on_a_default_size() {
    assert_eq!(get_sidebar_pane_info("1 0 2 40 50"), (true, false, true, 40, 50));
    assert_eq!(get_sidebar_pane_info("0 1 0 x 70000"), (false, true, false, 28, 24));
    assert_eq!(get_sidebar_pane_info("1 1  40 50"), (true, true, false, 40, 50));
    assert_eq!(get_sidebar_pane_info("1 1 1 40"), (false, false, false, 28, 24));
    assert_eq!(get_sidebar_pane_info(""), (false, false, false, 28, 24));
}

#[test]
fn panes_are_read_from_complete_lines() {
    let output = "%1|1|0|/a|b\nbad|1|1\n%2|0|1|/c\n";
    assert_eq!(
        query_active_window_panes(Some(output)),
        vec![
            ("%1".to_string(), true, false, "/a|b".to_string()),
            ("%2".to_string(), false, true, "/c".to_string()),
        ]
    );
    assert!(query_active_window_panes(None).is_empty());
    assert_eq!(
        find_active_pane("%1", Some(output)),
        Some(("%2".to_string(), "/c".to_string()))
    );
    assert_eq!(focused_pane_path("%2", Some(output)), Some("/a|b".to_string()));
    assert_eq!(focused_pane_path("%2", None), None);
    assert_eq!(get_pane_path(String::new()), None);
    assert_eq!(get_pane_path("/a".to_string()), Some("/a".to_string()));
}

#[test]
fn a_pane_is_asked_for_its_directory() {
    match pane_path_request("%4") {
        Step::Display { target, format } => {
            assert_eq!((target.as_str(), format.as_str()), ("%4", "#{pane_current_path}"))
        }
        _ => panic!("expected a format"),
    }
}
