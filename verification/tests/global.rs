use tmux_agent_sidebar::state::filter::PaneStatus;
use tmux_agent_sidebar::state::filter::RepoFilter;
use tmux_agent_sidebar::state::filter::StatusFilter;
use tmux_agent_sidebar::state::global::GlobalState;
use tmux_agent_sidebar::state::timers::RefreshTimers;
use tmux_agent_sidebar::text::map::TextMap;
use tmux_agent_sidebar::tmux::options;
use tmux_agent_sidebar::tmux::step::Step;

fn command(step: Step) -> Vec<String> {
    match step {
        Step::Tmux { args } => args,
        _ => panic!("expected a tmux command"),
    }
}

fn opts(status: Option<&str>, repo: Option<&str>) -> TextMap<String> {
    let mut opts = TextMap::new();
    if let Some(status) = status {
        opts.insert(options::SIDEBAR_FILTER.to_string(), status.to_string());
    }
    if let Some(repo) = repo {
        opts.insert(options::SIDEBAR_REPO_FILTER.to_string(), repo.to_string());
    }
    opts
}

#[test]
fn filters_read_back_from_their_labels() {
    for filter in [
        StatusFilter::All,
        StatusFilter::Running,
        StatusFilter::Background,
        StatusFilter::Waiting,
        StatusFilter::Idle,
        StatusFilter::Error,
    ] {
        assert_eq!(StatusFilter::from_label(filter.as_str()), filter);
    }
    assert_eq!(StatusFilter::from_label("what"), StatusFilter::All);
    assert!(StatusFilter::Error.matches(&PaneStatus::Error));
    assert!(!StatusFilter::Error.matches(&PaneStatus::Unknown));
    assert!(StatusFilter::All.matches(&PaneStatus::Unknown));
    assert_eq!(RepoFilter::from_label("repo").as_str(), "repo");
    assert_eq!(RepoFilter::from_label("").as_str(), "all");
    assert!(RepoFilter::from_label("all").matches_group("repo"));
    assert!(!RepoFilter::from_label("other").matches_group("repo"));
}

#[test]
fn a_saved_filter_is_announced_once_writes_go_quiet() {
    let mut state = GlobalState::new();
    state.status_filter = StatusFilter::Waiting;
    assert_eq!(command(state.save_filter()), ["set", "-g", "@sidebar_filter", "waiting"]);
    state.filter_written(true, 100);
    assert!(!state.flush_pending_broadcast(150, 249));
    state.repo_filter = RepoFilter::Repo("repo".to_string());
    assert_eq!(
        command(state.save_repo_filter()),
        ["set", "-g", "@sidebar_repo_filter", "repo"]
    );
    state.repo_filter_written(true, 200);
    assert!(!state.flush_pending_broadcast(150, 300));
    assert!(state.flush_pending_broadcast(150, 350));
    assert!(!state.flush_pending_broadcast(150, 500));
}

#[test]
fn a_failed_write_keeps_the_choice() {
    let mut state = GlobalState::new();
    state.status_filter = StatusFilter::Waiting;
    state.filter_written(false, 100);
    assert!(!state.flush_pending_broadcast(0, 1000));
    state.apply_all(&opts(Some("all"), Some("all")));
    assert_eq!(state.status_filter, StatusFilter::Waiting);
    state.repo_filter = RepoFilter::Repo("repo".to_string());
    state.repo_filter_written(false, 100);
    state.apply_all(&opts(None, None));
    assert_eq!(state.repo_filter.as_str(), "repo");
}

#[test]
fn filters_of_other_sidebars_are_taken_over() {
    let mut state = GlobalState::default();
    state.selected_pane_row = 4;
    state.apply_all(&opts(Some("idle"), Some("repo")));
    assert_eq!(state.status_filter, StatusFilter::Idle);
    assert_eq!(state.repo_filter.as_str(), "repo");
    assert_eq!(state.selected_pane_row, 4);
    // What was read counts as saved, so that it does not overrule a choice.
    state.status_filter = StatusFilter::Error;
    state.apply_all(&opts(Some("idle"), Some("repo")));
    assert_eq!(state.status_filter, StatusFilter::Error);
}

#[test]
fn timers_start_with_nothing_scanned() {
    let timers = RefreshTimers::new(9);
    assert_eq!(timers.last_filter_click, 9);
    assert_eq!(timers.last_process_refresh, 9);
    assert!(!timers.port_scan_initialized);
    assert!(!timers.process_scan_initialized);
    assert_eq!(timers.last_bg_shell_sweep, None);
}
