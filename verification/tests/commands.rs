use tmux_agent_sidebar::cli::create::cmd_toggle;
use tmux_agent_sidebar::cli::create::Toggle;
use tmux_agent_sidebar::cli::width::cmd_maintain_width;
use tmux_agent_sidebar::cli::width::cmd_remember_width;
use tmux_agent_sidebar::cli::width::MaintainWidth;
use tmux_agent_sidebar::cli::width::RememberWidth;
use tmux_agent_sidebar::cli::windows::cmd_auto_close;
use tmux_agent_sidebar::cli::windows::cmd_toggle_all;
use tmux_agent_sidebar::cli::windows::AutoClose;
use tmux_agent_sidebar::cli::windows::ToggleAll;
use tmux_agent_sidebar::tmux::step::Step;

fn show(step: &Step) -> String {
    match step {
        Step::Lock { window_id } => format!("lock {window_id}"),
        Step::Display { target, format } => format!("display {target} {format}"),
        Step::Tmux { args } => args.join(" "),
        Step::SetPaneOption { pane_id, option, value } => {
            format!("set-pane {pane_id} {option} {value}")
        }
        Step::CurrentExe => "exe".to_string(),
        Step::Toggle { args } => format!("toggle {}", args.join(" ")),
        Step::Done => "done".to_string(),
    }
}

fn drive<S>(
    mut state: S,
    step: fn(&S) -> Step,
    resume: fn(S, Option<String>) -> S,
    answers: &[(&str, &str)],
) -> Vec<String> {
    let mut log = vec![];
    loop {
        let next = show(&step(&state));
        assert_eq!(step(&state).exit_code(), if next == "done" { Some(0) } else { None });
        if next == "done" {
            return log;
        }
        let answer = answers
            .iter()
            .find(|(question, _)| *question == next)
            .map(|(_, answer)| answer.to_string());
        log.push(next);
        assert!(log.len() < 100, "the command does not end");
        state = resume(state, answer);
    }
}

fn args(list: &[&str]) -> Vec<String> {
    list.iter().map(|arg| arg.to_string()).collect()
}

fn toggle(list: &[&str], answers: &[(&str, &str)]) -> Vec<String> {
    drive(cmd_toggle(&args(list)), Toggle::step, Toggle::resume, answers)
}

fn maintain(list: &[&str], answers: &[(&str, &str)]) -> Vec<String> {
    drive(
        cmd_maintain_width(&args(list)),
        MaintainWidth::step,
        MaintainWidth::resume,
        answers,
    )
}

fn remember(list: &[&str], answers: &[(&str, &str)]) -> Vec<String> {
    drive(
        cmd_remember_width(&args(list)),
        RememberWidth::step,
        RememberWidth::resume,
        answers,
    )
}

const ROLES: &str = "list-panes -t @1 -F #{pane_id}|#{@pane_role}";
const GEOMETRY: &str = "list-panes -t @1 -F #{pane_left} #{pane_width} #{pane_id}";
const WIDTHS: &str = "list-panes -t @1 -F #{pane_id}|#{pane_width}|#{@pane_role}";

#[test]
fn toggle_creates_a_sidebar_at_the_outer_edge() {
    let log = toggle(
        &["@1", "/work"],
        &[
            ("lock @1", ""),
            ("display @1 #{window_width}", "200"),
            (GEOMETRY, "40 160 %3\n0 39 %2"),
            ("display @1 #{pane_id}", "%3"),
            ("exe", "/bin/sidebar"),
            (
                "split-window -hfb -l 48 -t %2 -c /work -P -F #{pane_id} /bin/sidebar",
                "%9\n",
            ),
        ],
    );
    assert_eq!(
        log,
        vec![
            "lock @1",
            "display @1 #{@sidebar_width}",
            "display @1 #{window_width}",
            "display @1 #{@sidebar_position}",
            ROLES,
            "display @1 #{@sidebar_main_min_width}",
            GEOMETRY,
            "display @1 #{pane_id}",
            "exe",
            "split-window -hfb -l 48 -t %2 -c /work -P -F #{pane_id} /bin/sidebar",
            "set-pane %9 @pane_role sidebar",
            "set -wu -t @1 @sidebar_auto_hidden",
            "set -wu -t @1 @sidebar_auto_hidden_path",
            "select-pane -t %3",
        ]
    );
}

#[test]
fn toggle_without_answers_falls_back() {
    let log = toggle(&["@1"], &[("lock @1", "")]);
    assert_eq!(log[3], "display @1 #{@sidebar_position}");
    // The width of the window is unknown, so the sidebar does not fit.
    assert_eq!(log.last().unwrap(), "display @1 #{@sidebar_main_min_width}");
    let log = toggle(
        &["@1"],
        &[
            ("lock @1", ""),
            ("display @1 #{@sidebar_width}", "wide"),
            ("display @1 #{@sidebar_position}", "right"),
        ],
    );
    assert!(log.contains(
        &"split-window -hf -l wide -t @1 -c ~ -P -F #{pane_id} tmux-agent-sidebar".to_string()
    ));
    assert_eq!(log.last().unwrap(), "select-pane -t @1 -l");
}

#[test]
fn toggle_needs_a_window_and_the_lock() {
    assert!(toggle(&[], &[]).is_empty());
    assert!(toggle(&["--create-only"], &[]).is_empty());
    assert_eq!(toggle(&["@1"], &[]), vec!["lock @1"]);
}

#[test]
fn a_manual_toggle_removes_every_sidebar_and_create_only_keeps_one() {
    let answers = [("lock @1", ""), (ROLES, "%1|sidebar\n%2|\n%3|sidebar")];
    let log = toggle(&["@1", "/work"], &answers);
    assert_eq!(
        log[5..],
        [
            "kill-pane -t %3",
            "set -wu -t @1 @sidebar_auto_hidden",
            "set -wu -t @1 @sidebar_auto_hidden_path",
            "kill-pane -t %1",
        ]
    );
    let log = toggle(&["@1", "--create-only", "/work"], &answers);
    assert_eq!(log[1], "display @1 #{@sidebar_auto_create_min_width}");
    assert_eq!(log[6..], ["kill-pane -t %3"]);
}

#[test]
fn create_only_leaves_narrow_windows_alone_and_marks_them() {
    let log = toggle(
        &["--create-only", "@1", "/work"],
        &[
            ("lock @1", ""),
            ("display @1 #{@sidebar_auto_create_min_width}", " 150 "),
            ("display @1 #{window_width}", "149"),
        ],
    );
    assert_eq!(log.len(), 3);
    let log = toggle(
        &["--create-only", "@1", "/work"],
        &[("lock @1", ""), ("display @1 #{window_width}", "128")],
    );
    assert_eq!(
        log[log.len() - 2..],
        [
            "set -w -t @1 @sidebar_auto_hidden 1",
            "set -w -t @1 @sidebar_auto_hidden_path /work",
        ]
    );
    let log = toggle(
        &["@1", "/work"],
        &[("lock @1", ""), ("display @1 #{window_width}", "128")],
    );
    assert_eq!(log.last().unwrap(), "display @1 #{@sidebar_main_min_width}");
}

#[test]
fn a_squeezed_sidebar_is_set_back_to_its_width() {
    let log = maintain(
        &["@1"],
        &[
            ("display @1 #{window_width}", "200"),
            ("display @1 #{@sidebar_width}", "48"),
            (WIDTHS, "%1|150|\n%2|30|sidebar"),
        ],
    );
    assert_eq!(
        log[log.len() - 2..],
        [
            "set -w -t @1 @sidebar_adjusting_width 48",
            "resize-pane -t %2 -x 48",
        ]
    );
    let log = maintain(
        &["@1"],
        &[
            ("display @1 #{window_width}", "200"),
            ("display @1 #{@sidebar_width}", "48"),
            (WIDTHS, "%2|48|sidebar"),
        ],
    );
    assert_eq!(log.last().unwrap(), WIDTHS);
}

#[test]
fn configured_widths_are_clamped() {
    for (setting, width) in [("10", "36"), ("100", "64"), ("50%", "64"), ("20%", "40")] {
        let log = maintain(
            &["@1"],
            &[
                ("display @1 #{window_width}", "200"),
                ("display @1 #{@sidebar_width}", setting),
                (WIDTHS, "%2|1|sidebar"),
            ],
        );
        assert_eq!(*log.last().unwrap(), format!("resize-pane -t %2 -x {width}"));
    }
}

#[test]
fn a_sidebar_without_room_is_hidden_and_comes_back() {
    let log = maintain(
        &["@1"],
        &[
            ("display @1 #{window_width}", "128"),
            ("display @1 #{@sidebar_width}", "48"),
            (WIDTHS, "%2|48|sidebar"),
            ("display %2 #{pane_current_path}", "/work"),
        ],
    );
    assert_eq!(
        log[log.len() - 4..],
        [
            "display %2 #{pane_current_path}",
            "set -w -t @1 @sidebar_auto_hidden 1",
            "set -w -t @1 @sidebar_auto_hidden_path /work",
            "kill-pane -t %2",
        ]
    );
    let state = cmd_maintain_width(&args(&["@1"]));
    let mut state = state
        .resume(Some("129".to_string()))
        .resume(Some("48".to_string()))
        .resume(None)
        .resume(None)
        .resume(None)
        .resume(Some("%1|129|".to_string()));
    assert_eq!(show(&state.step()), "display @1 #{@sidebar_auto_hidden}");
    state = state.resume(Some("1".to_string()));
    assert_eq!(show(&state.step()), "display @1 #{@sidebar_auto_hidden_path}");
    state = state.resume(Some("".to_string()));
    assert_eq!(show(&state.step()), "toggle --create-only @1 ~");
    state = state.resume(None);
    // Then the width is looked after once more.
    assert_eq!(show(&state.step()), "display @1 #{window_width}");
}

#[test]
fn no_width_is_kept_without_a_setting_or_a_window() {
    assert!(maintain(&[], &[]).is_empty());
    let log = maintain(&["@1"], &[("display @1 #{window_width}", "200")]);
    assert_eq!(
        log,
        vec!["display @1 #{window_width}", "display @1 #{@sidebar_width}"]
    );
}

#[test]
fn a_dragged_width_is_remembered_where_it_fits() {
    let answers = |width: &'static str| {
        vec![
            ("display %2 #{@pane_role}", "sidebar"),
            ("display %2 #{pane_width}", width),
            ("display @1 #{window_width}", "200"),
        ]
    };
    let log = remember(&["@1", "%2"], &answers("60"));
    assert_eq!(log.last().unwrap(), "set -w -t @1 @sidebar_width 60");
    for width in ["61", "35", "x", ""] {
        let log = remember(&["@1", "%2"], &answers(width));
        assert_eq!(log.last().unwrap(), "display @1 #{@sidebar_main_min_width}");
    }
}

#[test]
fn an_automatic_resize_is_not_remembered() {
    let log = remember(
        &["@1", "%2"],
        &[
            ("display %2 #{@pane_role}", "sidebar"),
            ("display @1 #{@sidebar_adjusting_width}", "48"),
            ("display %2 #{pane_width}", "48"),
        ],
    );
    assert_eq!(log.last().unwrap(), "set -wu -t @1 @sidebar_adjusting_width");
    let log = remember(
        &["@1", "%2"],
        &[
            ("display %2 #{@pane_role}", "sidebar"),
            ("display @1 #{@sidebar_adjusting_width}", "48"),
            ("display %2 #{pane_width}", "50"),
            ("display @1 #{window_width}", "200"),
        ],
    );
    assert_eq!(log.last().unwrap(), "set -w -t @1 @sidebar_width 50");
}

#[test]
fn only_sidebars_are_remembered() {
    assert!(remember(&["@1"], &[]).is_empty());
    assert_eq!(
        remember(&["@1", "%2"], &[("display %2 #{@pane_role}", "main")]),
        vec!["display %2 #{@pane_role}"]
    );
}

#[test]
fn toggle_all_removes_or_creates_everywhere() {
    let all = "list-panes -a -F #{pane_id}|#{@pane_role}";
    let windows = "list-panes -a -F #{window_id}|#{pane_current_path}";
    let log = drive(
        cmd_toggle_all(&[]),
        ToggleAll::step,
        ToggleAll::resume,
        &[(all, "%1|\n%2|sidebar\n%4|sidebar")],
    );
    assert_eq!(log, vec![all, all, "kill-pane -t %2", "kill-pane -t %4"]);
    let log = drive(
        cmd_toggle_all(&[]),
        ToggleAll::step,
        ToggleAll::resume,
        &[(all, "%1|"), (windows, "@1|/a b\n@1|/c\n@2|/d")],
    );
    assert_eq!(
        log,
        vec![
            all,
            windows,
            "toggle --create-only @1 /a b",
            "toggle --create-only @2 /d",
        ]
    );
}

#[test]
fn auto_close_kills_a_window_that_only_a_sidebar_is_left_in() {
    let roles = "list-panes -t @1 -F #{@pane_role}";
    let count = "display-message -t @1 -p #{session_windows}";
    let clients = "display-message -t @1 -p #{session_attached}";
    let run = |answers: &[(&str, &str)]| {
        drive(
            cmd_auto_close(&args(&["@1"])),
            AutoClose::step,
            AutoClose::resume,
            answers,
        )
    };
    let log = run(&[(roles, "sidebar\n"), (count, "2\n"), (clients, "3")]);
    assert_eq!(log, vec![roles, count, clients, "kill-window -t @1"]);
    let log = run(&[(roles, "sidebar\n\n"), (count, "2\n"), (clients, "3")]);
    assert_eq!(log, vec![roles, count, clients]);
    let log = run(&[(roles, "sidebar\n"), (count, "1\n"), (clients, "2")]);
    assert_eq!(log, vec![roles, count, clients]);
    assert!(
        drive(cmd_auto_close(&[]), AutoClose::step, AutoClose::resume, &[]).is_empty()
    );
}
