use serde_json::Value;

use tmux_agent_sidebar::adapter::traex::TraexAdapter;
use tmux_agent_sidebar::adapter::traex::TRAEX_AGENT;
use tmux_agent_sidebar::event::handle_event;
use tmux_agent_sidebar::event::should_notify;
use tmux_agent_sidebar::event::AgentEvent;
use tmux_agent_sidebar::event::Handler;

type Event = AgentEvent<(), Value>;

fn prompt(agent: &str, event_name: &str, input: &Value) -> Option<Event> {
    assert_eq!(event_name, "user-prompt-submit");
    Some(AgentEvent::UserPromptSubmit {
        agent: agent.to_string(),
        cwd: String::new(),
        permission_mode: String::new(),
        prompt: input.get("prompt")?.as_str()?.to_string(),
        worktree: None,
        agent_id: None,
        session_id: None,
    })
}

#[test]
fn sets_traex_agent_name() {
    let input: Value = serde_json::from_str("{\"prompt\": \"hi\"}").unwrap();
    let event = TraexAdapter
        .parse(prompt, "user-prompt-submit", &input)
        .unwrap();
    match event {
        AgentEvent::UserPromptSubmit { agent, .. } => assert_eq!(agent, TRAEX_AGENT),
        other => panic!("expected UserPromptSubmit, got {other:?}"),
    }
}

#[test]
fn unreadable_payloads_are_no_events() {
    let input: Value = serde_json::from_str("{}").unwrap();
    assert!(TraexAdapter.parse(prompt, "user-prompt-submit", &input).is_none());
}

#[test]
fn bookkeeping_events_wake_no_sidebar() {
    let quiet: [Event; 3] = [
        AgentEvent::ActivityLog {
            tool_name: String::new(),
            tool_input: Value::Null,
            tool_response: Value::Null,
        },
        AgentEvent::TaskCreated,
        AgentEvent::WorktreeCreate,
    ];
    for event in quiet {
        assert!(!should_notify(&event));
    }
    let loud: Event = AgentEvent::WorktreeRemove;
    assert!(should_notify(&loud));
}

#[test]
fn events_reach_their_handlers() {
    let event: Event = AgentEvent::TaskCompleted {
        task_id: "1".to_string(),
        task_subject: "tidy".to_string(),
    };
    let plan = handle_event("traex".to_string(), event);
    assert!(plan.attention);
    assert!(plan.notifications);
    match plan.handler {
        Handler::TaskCompleted { agent_name, task_id, task_subject } => {
            assert_eq!((agent_name.as_str(), task_id.as_str()), ("traex", "1"));
            assert_eq!(task_subject, "tidy");
        }
        other => panic!("unexpected handler {other:?}"),
    }
    let event: Event = AgentEvent::SessionStart {
        agent: "traex".to_string(),
        cwd: "/work".to_string(),
        permission_mode: "plan".to_string(),
        source: "startup".to_string(),
        worktree: None,
        agent_id: Some("a".to_string()),
        session_id: Some("s".to_string()),
    };
    let plan = handle_event("other".to_string(), event);
    assert!(!plan.attention);
    assert!(!plan.notifications);
    match plan.handler {
        Handler::SessionStart { ctx, source } => {
            assert_eq!(ctx.agent, "traex");
            assert_eq!(ctx.cwd, "/work");
            assert_eq!(ctx.permission_mode, "plan");
            assert_eq!(ctx.session_id, Some("s".to_string()));
            assert_eq!(source, "startup");
        }
        other => panic!("unexpected handler {other:?}"),
    }
    let plan = handle_event("x".to_string(), Event::TaskCreated);
    assert!(matches!(plan.handler, Handler::Nothing));
    assert_eq!(plan.handler.settled_code(), Some(0));
    let moved = Event::CwdChanged {
        cwd: "/work".to_string(),
        worktree: None,
        agent_id: None,
        session_id: None,
    };
    assert_eq!(handle_event("x".to_string(), moved).handler.settled_code(), Some(0));
    let plan = handle_event("x".to_string(), Event::WorktreeRemove);
    assert_eq!(plan.handler.settled_code(), None);
}
