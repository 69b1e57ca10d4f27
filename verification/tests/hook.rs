use std::collections::HashMap;

use tmux_agent_sidebar::cli::hook::cmd_hook;
use tmux_agent_sidebar::cli::hook::follows_parent_chain;
use tmux_agent_sidebar::cli::hook::parse_process_table;
use tmux_agent_sidebar::cli::hook::parse_stat_parent;
use tmux_agent_sidebar::cli::hook::process_is_descendant_in;
use tmux_agent_sidebar::cli::hook::Hook;
use tmux_agent_sidebar::cli::hook::HookAction;
use tmux_agent_sidebar::cli::hook::HookReply;
use tmux_agent_sidebar::event::AgentEvent;

#[test]
fn accepts_hook_process_inside_pane_tree() {
    let parents = HashMap::from([(100, 1), (200, 100), (300, 200)]);

    assert!(follows_parent_chain(300, 100, |pid| parents
        .get(&pid)
        .copied()));
}

#[test]
fn rejects_process_outside_pane_tree_even_with_stale_pane_env() {
    let parents = HashMap::from([(100, 1), (200, 100), (400, 1), (500, 400)]);

    assert!(!follows_parent_chain(500, 100, |pid| parents
        .get(&pid)
        .copied()));
}

#[test]
fn rejects_a_corrupt_parent_cycle() {
    let parents = HashMap::from([(200, 300), (300, 200)]);

    assert!(!follows_parent_chain(300, 100, |pid| parents
        .get(&pid)
        .copied()));
}

#[test]
fn a_chain_is_followed_for_256_generations() {
    let parent_of = |pid: u32| if pid > 1 { Some(pid - 1) } else { None };
    assert!(follows_parent_chain(300, 45, parent_of));
    assert!(!follows_parent_chain(300, 44, parent_of));
    assert!(follows_parent_chain(7, 7, |_| None));
    assert!(!follows_parent_chain(7, 8, |_| Some(0)));
    assert!(!follows_parent_chain(7, 8, Some));
}

#[test]
fn a_process_table_is_followed_to_its_roots() {
    let parents = parse_process_table("  100     1\n200 100\nbad\n300\n400 x\n 500 200 more\n");
    assert_eq!(parents.len(), 3);
    assert!(process_is_descendant_in(&parents, 500, 100));
    assert!(!process_is_descendant_in(&parents, 400, 100));
}

#[test]
fn the_parent_stands_behind_the_last_bracket() {
    assert_eq!(parse_stat_parent("7 (sh) S 3 7 7"), Some(3));
    assert_eq!(parse_stat_parent("7 (a) b) (c) R 12 7"), Some(12));
    assert_eq!(parse_stat_parent("7 (sh) S"), None);
    assert_eq!(parse_stat_parent("7 sh S 3"), None);
    assert_eq!(parse_stat_parent("7 (sh) S x"), None);
}

type Action = HookAction<(), ()>;
type Reply = HookReply<(), ()>;

fn names() -> Vec<String> {
    vec!["traex".to_string(), "stop".to_string()]
}

#[test]
fn a_hook_without_names_does_nothing() {
    let (_, action): (Hook, Action) = cmd_hook(&[]);
    assert!(matches!(action, HookAction::Exit { code: 0 }));
    let (_, action): (Hook, Action) = cmd_hook(&["traex".to_string(), String::new()]);
    assert!(matches!(action, HookAction::Exit { code: 0 }));
}

#[test]
fn a_hook_outside_its_pane_is_not_heard() {
    let (hook, action): (Hook, Action) = cmd_hook(&names());
    assert!(matches!(action, HookAction::Resolve { agent_name } if agent_name == "traex"));
    let (hook, action) = hook.resume(Reply::Known(true));
    assert!(matches!(action, HookAction::FindPane));
    let (hook, action) = hook.resume(Reply::Pane("%3".to_string()));
    assert!(matches!(action, HookAction::ReadPanePid { pane } if pane == "%3"));
    let (hook, action) = hook.resume(Reply::PanePid(" 42\n".to_string()));
    assert!(matches!(action, HookAction::CheckOwner { pane_pid: 42 }));
    let (_, action) = hook.resume(Reply::Owned(false));
    assert!(matches!(action, HookAction::Exit { code: 0 }));
}

#[test]
fn every_doubt_ends_a_hook() {
    let start = || cmd_hook::<(), ()>(&names()).0;
    let (_, action) = start().resume(Reply::Known(false));
    assert!(matches!(action, HookAction::Exit { code: 0 }));
    let (_, action) = start().resume(Reply::Known(true)).0.resume(Reply::Pane(String::new()));
    assert!(matches!(action, HookAction::Exit { code: 0 }));
    let (_, action) = start()
        .resume(Reply::Known(true))
        .0
        .resume(Reply::Pane("%3".to_string()))
        .0
        .resume(Reply::PanePid("none".to_string()));
    assert!(matches!(action, HookAction::Exit { code: 0 }));
}

#[test]
fn an_event_outdates_the_snapshot_and_then_wakes_the_sidebars() {
    let heard = |event: AgentEvent<(), ()>| {
        cmd_hook::<(), ()>(&names())
            .0
            .resume(Reply::Known(true))
            .0
            .resume(Reply::Pane("%3".to_string()))
            .0
            .resume(Reply::PanePid("42".to_string()))
            .0
            .resume(Reply::Owned(true))
            .0
            .resume(Reply::Event(Some(event)))
    };
    let (hook, action) = heard(AgentEvent::WorktreeRemove);
    assert!(matches!(action, HookAction::Handle { pane, .. } if pane == "%3"));
    let (hook, action) = hook.resume(Reply::Code(3));
    assert!(matches!(action, HookAction::Invalidate));
    let (hook, action) = hook.resume(Reply::Done);
    assert!(matches!(action, HookAction::Notify));
    let (_, action) = hook.resume(Reply::Done);
    assert!(matches!(action, HookAction::Exit { code: 3 }));
    let (hook, _) = heard(AgentEvent::TaskCreated);
    // No handler runs, so that the code is settled.
    let (_, action) = hook.resume(Reply::Code(9)).0.resume(Reply::Done);
    assert!(matches!(action, HookAction::Exit { code: 0 }));
}
