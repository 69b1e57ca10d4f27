//! Events that coding agents report through their hooks.

use vstd::prelude::*;

verus! {

/// Something that an agent reported. `W` describes a worktree and `J` the data
/// of a tool call; both are carried along unread.
#[derive(Debug)]
pub enum AgentEvent<W, J> {
    SessionStart {
        agent: String,
        cwd: String,
        permission_mode: String,
        source: String,
        worktree: Option<W>,
        agent_id: Option<String>,
        session_id: Option<String>,
    },
    SessionEnd { end_reason: String },
    UserPromptSubmit {
        agent: String,
        cwd: String,
        permission_mode: String,
        prompt: String,
        worktree: Option<W>,
        agent_id: Option<String>,
        session_id: Option<String>,
    },
    Notification {
        agent: String,
        cwd: String,
        permission_mode: String,
        wait_reason: String,
        meta_only: bool,
        worktree: Option<W>,
        agent_id: Option<String>,
        session_id: Option<String>,
    },
    Stop {
        agent: String,
        cwd: String,
        permission_mode: String,
        last_message: String,
        transcript_path: String,
        response: Option<String>,
        worktree: Option<W>,
        agent_id: Option<String>,
        session_id: Option<String>,
    },
    StopFailure {
        agent: String,
        cwd: String,
        permission_mode: String,
        error: String,
        worktree: Option<W>,
        agent_id: Option<String>,
        session_id: Option<String>,
    },
    SubagentStart { agent_type: String, agent_id: Option<String> },
    SubagentStop { agent_id: Option<String> },
    ActivityLog { tool_name: String, tool_input: J, tool_response: J },
    PermissionDenied {
        agent: String,
        cwd: String,
        permission_mode: String,
        worktree: Option<W>,
        agent_id: Option<String>,
        session_id: Option<String>,
    },
    CwdChanged {
        cwd: String,
        worktree: Option<W>,
        agent_id: Option<String>,
        session_id: Option<String>,
    },
    TaskCreated,
    TaskCompleted { task_id: String, task_subject: String },
    TeammateIdle { teammate_name: String, idle_reason: String },
    WorktreeCreate,
    WorktreeRemove,
}

/// Where an event happened.
#[derive(Debug)]
pub struct EventContext<W> {
    pub agent: String,
    pub cwd: String,
    pub permission_mode: String,
    pub worktree: Option<W>,
    pub session_id: Option<String>,
}

/// What handles an event, and with what.
#[derive(Debug)]
pub enum Handler<W, J> {
    SessionStart { ctx: EventContext<W>, source: String },
    SessionEnd { agent_name: String, end_reason: String },
    UserPromptSubmit { ctx: EventContext<W>, prompt: String },
    Notification { ctx: EventContext<W>, wait_reason: String, meta_only: bool },
    Stop {
        ctx: EventContext<W>,
        last_message: String,
        transcript_path: String,
        response: Option<String>,
    },
    StopFailure { ctx: EventContext<W>, error: String },
    SubagentStart { agent_type: String, agent_id: Option<String> },
    SubagentStop { agent_id: Option<String> },
    ActivityLog { tool_name: String, tool_input: J, tool_response: J },
    PermissionDenied { ctx: EventContext<W> },
    /// Record where the pane is now; the exit code is 0.
    SyncLocation { cwd: String, worktree: Option<W>, session_id: Option<String> },
    TaskCompleted { agent_name: String, task_id: String, task_subject: String },
    TeammateIdle { teammate_name: String, idle_reason: String },
    WorktreeRemove,
    /// Nothing; the exit code is 0.
    Nothing,
}

impl<W, J> Handler<W, J> {
    /// The exit code that is settled before any handler runs: 0 where none does,
    /// and where only a location is recorded.
    pub open spec fn settled(self) -> Option<i32> {
        if self is Nothing || self is SyncLocation {
            Some(0i32)
        } else {
            None
        }
    }

    /// The exit code that is settled before any handler runs.
    pub fn settled_code(&self) -> (code: Option<i32>)
        ensures
            code == self.settled(),
    {
        match self {
            Handler::Nothing => Some(0),
            Handler::SyncLocation { .. } => Some(0),
            _ => None,
        }
    }
}

/// How an event is handled.
#[derive(Debug)]
pub struct Dispatch<W, J> {
    /// Whether the pane first asks for attention as a notification does.
    pub attention: bool,
    /// Whether the notification settings are read and handed to the handler.
    pub notifications: bool,
    /// The handler.
    pub handler: Handler<W, J>,
}

/// The handling of an event on behalf of `agent_name`.
pub open spec fn dispatch<W, J>(agent_name: String, event: AgentEvent<W, J>) -> Dispatch<W, J> {
    match event {
        AgentEvent::SessionStart {
            agent,
            cwd,
            permission_mode,
            source,
            worktree,
            agent_id,
            session_id,
        } => Dispatch {
            attention: false,
            notifications: false,
            handler: Handler::SessionStart {
                ctx: EventContext { agent, cwd, permission_mode, worktree, session_id },
                source,
            },
        },
        AgentEvent::SessionEnd { end_reason } => Dispatch {
            attention: false,
            notifications: true,
            handler: Handler::SessionEnd { agent_name, end_reason },
        },
        AgentEvent::UserPromptSubmit {
            agent,
            cwd,
            permission_mode,
            prompt,
            worktree,
            agent_id,
            session_id,
        } => Dispatch {
            attention: false,
            notifications: false,
            handler: Handler::UserPromptSubmit {
                ctx: EventContext { agent, cwd, permission_mode, worktree, session_id },
                prompt,
            },
        },
        AgentEvent::Notification {
            agent,
            cwd,
            permission_mode,
            wait_reason,
            meta_only,
            worktree,
            agent_id,
            session_id,
        } => Dispatch {
            attention: false,
            notifications: true,
            handler: Handler::Notification {
                ctx: EventContext { agent, cwd, permission_mode, worktree, session_id },
                wait_reason,
                meta_only,
            },
        },
        AgentEvent::Stop {
            agent,
            cwd,
            permission_mode,
            last_message,
            transcript_path,
            response,
            worktree,
            agent_id,
            session_id,
        } => Dispatch {
            attention: false,
            notifications: true,
            handler: Handler::Stop {
                ctx: EventContext { agent, cwd, permission_mode, worktree, session_id },
                last_message,
                transcript_path,
                response,
            },
        },
        AgentEvent::StopFailure {
            agent,
            cwd,
            permission_mode,
            error,
            worktree,
            agent_id,
            session_id,
        } => Dispatch {
            attention: false,
            notifications: true,
            handler: Handler::StopFailure {
                ctx: EventContext { agent, cwd, permission_mode, worktree, session_id },
                error,
            },
        },
        AgentEvent::SubagentStart { agent_type, agent_id } => Dispatch {
            attention: false,
            notifications: false,
            handler: Handler::SubagentStart { agent_type, agent_id },
        },
        AgentEvent::SubagentStop { agent_id } => Dispatch {
            attention: false,
            notifications: false,
            handler: Handler::SubagentStop { agent_id },
        },
        AgentEvent::ActivityLog { tool_name, tool_input, tool_response } => Dispatch {
            attention: false,
            notifications: false,
            handler: Handler::ActivityLog { tool_name, tool_input, tool_response },
        },
        AgentEvent::PermissionDenied {
            agent,
            cwd,
            permission_mode,
            worktree,
            agent_id,
            session_id,
        } => Dispatch {
            attention: false,
            notifications: true,
            handler: Handler::PermissionDenied {
                ctx: EventContext { agent, cwd, permission_mode, worktree, session_id },
            },
        },
        AgentEvent::CwdChanged { cwd, worktree, agent_id, session_id } => Dispatch {
            attention: false,
            notifications: false,
            handler: Handler::SyncLocation { cwd, worktree, session_id },
        },
        AgentEvent::TaskCreated => Dispatch {
            attention: false,
            notifications: false,
            handler: Handler::Nothing,
        },
        AgentEvent::TaskCompleted { task_id, task_subject } => Dispatch {
            attention: true,
            notifications: true,
            handler: Handler::TaskCompleted { agent_name, task_id, task_subject },
        },
        AgentEvent::TeammateIdle { teammate_name, idle_reason } => Dispatch {
            attention: false,
            notifications: false,
            handler: Handler::TeammateIdle { teammate_name, idle_reason },
        },
        AgentEvent::WorktreeCreate => Dispatch {
            attention: false,
            notifications: false,
            handler: Handler::Nothing,
        },
        AgentEvent::WorktreeRemove => Dispatch {
            attention: false,
            notifications: false,
            handler: Handler::WorktreeRemove,
        },
    }
}

/// Decides how an event is handled on behalf of `agent_name`.
pub fn handle_event<W, J>(agent_name: String, event: AgentEvent<W, J>) -> (plan: Dispatch<W, J>)
    ensures
        plan == dispatch(agent_name, event),
{
    let mut attention: bool = false;
    let mut notifications: bool = false;
    let handler = match event {
        AgentEvent::SessionStart {
            agent,
            cwd,
            permission_mode,
            source,
            worktree,
            session_id,
            ..
        } => Handler::SessionStart {
            ctx: EventContext { agent, cwd, permission_mode, worktree, session_id },
            source,
        },
        AgentEvent::SessionEnd { end_reason } => {
            notifications = true;
            Handler::SessionEnd { agent_name, end_reason }
        },
        AgentEvent::UserPromptSubmit {
            agent,
            cwd,
            permission_mode,
            prompt,
            worktree,
            session_id,
            ..
        } => Handler::UserPromptSubmit {
            ctx: EventContext { agent, cwd, permission_mode, worktree, session_id },
            prompt,
        },
        AgentEvent::Notification {
            agent,
            cwd,
            permission_mode,
            wait_reason,
            meta_only,
            worktree,
            session_id,
            ..
        } => {
            notifications = true;
            Handler::Notification {
                ctx: EventContext { agent, cwd, permission_mode, worktree, session_id },
                wait_reason,
                meta_only,
            }
        },
        AgentEvent::Stop {
            agent,
            cwd,
            permission_mode,
            last_message,
            transcript_path,
            response,
            worktree,
            session_id,
            ..
        } => {
            notifications = true;
            Handler::Stop {
                ctx: EventContext { agent, cwd, permission_mode, worktree, session_id },
                last_message,
                transcript_path,
                response,
            }
        },
        AgentEvent::StopFailure {
            agent,
            cwd,
            permission_mode,
            error,
            worktree,
            session_id,
            ..
        } => {
            notifications = true;
            Handler::StopFailure {
                ctx: EventContext { agent, cwd, permission_mode, worktree, session_id },
                error,
            }
        },
        AgentEvent::SubagentStart { agent_type, agent_id } => Handler::SubagentStart {
            agent_type,
            agent_id,
        },
        AgentEvent::SubagentStop { agent_id } => Handler::SubagentStop { agent_id },
        AgentEvent::ActivityLog { tool_name, tool_input, tool_response } => Handler::ActivityLog {
            tool_name,
            tool_input,
            tool_response,
        },
        AgentEvent::PermissionDenied {
            agent,
            cwd,
            permission_mode,
            worktree,
            session_id,
            ..
        } => {
            notifications = true;
            Handler::PermissionDenied {
                ctx: EventContext { agent, cwd, permission_mode, worktree, session_id },
            }
        },
        AgentEvent::CwdChanged { cwd, worktree, session_id, .. } => Handler::SyncLocation {
            cwd,
            worktree,
            session_id,
        },
        AgentEvent::TaskCreated => Handler::Nothing,
        AgentEvent::TaskCompleted { task_id, task_subject } => {
            attention = true;
            notifications = true;
            Handler::TaskCompleted { agent_name, task_id, task_subject }
        },
        AgentEvent::TeammateIdle { teammate_name, idle_reason } => Handler::TeammateIdle {
            teammate_name,
            idle_reason,
        },
        AgentEvent::WorktreeCreate => Handler::Nothing,
        AgentEvent::WorktreeRemove => Handler::WorktreeRemove,
    };
    Dispatch { attention, notifications, handler }
}

/// Whether the sidebars are woken after an event: all but pure bookkeeping does.
pub open spec fn wakes<W, J>(event: AgentEvent<W, J>) -> bool {
    !(event is ActivityLog || event is TaskCreated || event is WorktreeCreate)
}

/// Whether the sidebars are woken after an event.
pub fn should_notify<W, J>(event: &AgentEvent<W, J>) -> (yes: bool)
    ensures
        yes == wakes(*event),
{
    match event {
        AgentEvent::ActivityLog { .. } => false,
        AgentEvent::TaskCreated => false,
        AgentEvent::WorktreeCreate => false,
        _ => true,
    }
}

/// An event that only the agent's own bookkeeping needs is neither announced
/// nor does it read the notification settings.
pub proof fn quiet_events_stay_quiet<W, J>(agent_name: String, event: AgentEvent<W, J>)
    requires
        !wakes(event),
    ensures
        !dispatch(agent_name, event).attention,
        !dispatch(agent_name, event).notifications,
{
}

/// An event that creates a task or a worktree, or changes the directory, is
/// handled with exit code 0; for every other event the code is its handler's.
pub proof fn exit_codes_are_settled_for_bookkeeping<W, J>(
    agent_name: String,
    event: AgentEvent<W, J>,
)
    ensures
        dispatch(agent_name, event).handler.settled() == (if event is TaskCreated
            || event is WorktreeCreate || event is CwdChanged {
            Some(0i32)
        } else {
            None::<i32>
        }),
{
}

/// Every event reaches the handler of its own kind, and no other event reaches
/// it; a change of directory is a matter of location, and where a task or a
/// worktree was created there is nothing to handle.
pub proof fn events_reach_the_handler_of_their_kind<W, J>(
    agent_name: String,
    event: AgentEvent<W, J>,
)
    ensures
        ({
            let handler = dispatch(agent_name, event).handler;
            &&& event is SessionStart <==> handler is SessionStart
            &&& event is SessionEnd <==> handler is SessionEnd
            &&& event is UserPromptSubmit <==> handler is UserPromptSubmit
            &&& event is Notification <==> handler is Notification
            &&& event is Stop <==> handler is Stop
            &&& event is StopFailure <==> handler is StopFailure
            &&& event is SubagentStart <==> handler is SubagentStart
            &&& event is SubagentStop <==> handler is SubagentStop
            &&& event is ActivityLog <==> handler is ActivityLog
            &&& event is PermissionDenied <==> handler is PermissionDenied
            &&& event is CwdChanged <==> handler is SyncLocation
            &&& event is TaskCompleted <==> handler is TaskCompleted
            &&& event is TeammateIdle <==> handler is TeammateIdle
            &&& event is WorktreeRemove <==> handler is WorktreeRemove
            &&& event is TaskCreated || event is WorktreeCreate <==> handler is Nothing
        }),
{
}

/// Whatever a handler is given is what its event says: every field equals the
/// event's field of the same name, and a name of the agent that the event does
/// not say is the one on whose behalf it is handled.
pub proof fn handlers_are_given_what_the_event_says<W, J>(
    agent_name: String,
    event: AgentEvent<W, J>,
)
    ensures
        ({
            let handler = dispatch(agent_name, event).handler;
            &&& event is SessionStart ==> {
                &&& handler->SessionStart_ctx.agent == event->SessionStart_agent
                &&& handler->SessionStart_ctx.cwd == event->SessionStart_cwd
                &&& handler->SessionStart_ctx.permission_mode
                    == event->SessionStart_permission_mode
                &&& handler->SessionStart_ctx.worktree == event->SessionStart_worktree
                &&& handler->SessionStart_ctx.session_id == event->SessionStart_session_id
                &&& handler->SessionStart_source == event->SessionStart_source
            }
            &&& event is SessionEnd ==> {
                &&& handler->SessionEnd_agent_name == agent_name
                &&& handler->SessionEnd_end_reason == event->SessionEnd_end_reason
            }
            &&& event is UserPromptSubmit ==> {
                &&& handler->UserPromptSubmit_ctx.agent == event->UserPromptSubmit_agent
                &&& handler->UserPromptSubmit_ctx.cwd == event->UserPromptSubmit_cwd
                &&& handler->UserPromptSubmit_ctx.permission_mode
                    == event->UserPromptSubmit_permission_mode
                &&& handler->UserPromptSubmit_ctx.worktree == event->UserPromptSubmit_worktree
                &&& handler->UserPromptSubmit_ctx.session_id == event->UserPromptSubmit_session_id
                &&& handler->UserPromptSubmit_prompt == event->UserPromptSubmit_prompt
            }
            &&& event is Notification ==> {
                &&& handler->Notification_ctx.agent == event->Notification_agent
                &&& handler->Notification_ctx.cwd == event->Notification_cwd
                &&& handler->Notification_ctx.permission_mode
                    == event->Notification_permission_mode
                &&& handler->Notification_ctx.worktree == event->Notification_worktree
                &&& handler->Notification_ctx.session_id == event->Notification_session_id
                &&& handler->Notification_wait_reason == event->Notification_wait_reason
                &&& handler->Notification_meta_only == event->Notification_meta_only
            }
            &&& event is Stop ==> {
                &&& handler->Stop_ctx.agent == event->Stop_agent
                &&& handler->Stop_ctx.cwd == event->Stop_cwd
                &&& handler->Stop_ctx.permission_mode == event->Stop_permission_mode
                &&& handler->Stop_ctx.worktree == event->Stop_worktree
                &&& handler->Stop_ctx.session_id == event->Stop_session_id
                &&& handler->Stop_last_message == event->Stop_last_message
                &&& handler->Stop_transcript_path == event->Stop_transcript_path
                &&& handler->Stop_response == event->Stop_response
            }
            &&& event is StopFailure ==> {
                &&& handler->StopFailure_ctx.agent == event->StopFailure_agent
                &&& handler->StopFailure_ctx.cwd == event->StopFailure_cwd
                &&& handler->StopFailure_ctx.permission_mode == event->StopFailure_permission_mode
                &&& handler->StopFailure_ctx.worktree == event->StopFailure_worktree
                &&& handler->StopFailure_ctx.session_id == event->StopFailure_session_id
                &&& handler->StopFailure_error == event->StopFailure_error
            }
            &&& event is SubagentStart ==> {
                &&& handler->SubagentStart_agent_type == event->SubagentStart_agent_type
                &&& handler->SubagentStart_agent_id == event->SubagentStart_agent_id
            }
            &&& event is SubagentStop ==> handler->SubagentStop_agent_id
                == event->SubagentStop_agent_id
            &&& event is ActivityLog ==> {
                &&& handler->ActivityLog_tool_name == event->ActivityLog_tool_name
                &&& handler->ActivityLog_tool_input == event->ActivityLog_tool_input
                &&& handler->ActivityLog_tool_response == event->ActivityLog_tool_response
            }
            &&& event is PermissionDenied ==> {
                &&& handler->PermissionDenied_ctx.agent == event->PermissionDenied_agent
                &&& handler->PermissionDenied_ctx.cwd == event->PermissionDenied_cwd
                &&& handler->PermissionDenied_ctx.permission_mode
                    == event->PermissionDenied_permission_mode
                &&& handler->PermissionDenied_ctx.worktree == event->PermissionDenied_worktree
                &&& handler->PermissionDenied_ctx.session_id == event->PermissionDenied_session_id
            }
            &&& event is CwdChanged ==> {
                &&& handler->SyncLocation_cwd == event->CwdChanged_cwd
                &&& handler->SyncLocation_worktree == event->CwdChanged_worktree
                &&& handler->SyncLocation_session_id == event->CwdChanged_session_id
            }
            &&& event is TaskCompleted ==> {
                &&& handler->TaskCompleted_agent_name == agent_name
                &&& handler->TaskCompleted_task_id == event->TaskCompleted_task_id
                &&& handler->TaskCompleted_task_subject == event->TaskCompleted_task_subject
            }
            &&& event is TeammateIdle ==> {
                &&& handler->TeammateIdle_teammate_name == event->TeammateIdle_teammate_name
                &&& handler->TeammateIdle_idle_reason == event->TeammateIdle_idle_reason
            }
        }),
{
}

/// Only a completed task asks for attention before it is handled, and the
/// notification settings are read for the events that may be announced: the end
/// of a session, a notification, a stop of either kind, a denied permission and a
/// completed task.
pub proof fn announced_events_read_the_settings<W, J>(
    agent_name: String,
    event: AgentEvent<W, J>,
)
    ensures
        dispatch(agent_name, event).attention <==> event is TaskCompleted,
        dispatch(agent_name, event).notifications <==> event is SessionEnd || event is Notification
            || event is Stop || event is StopFailure || event is PermissionDenied
            || event is TaskCompleted,
        !wakes(event) <==> event is ActivityLog || event is TaskCreated || event is WorktreeCreate,
{
}

} // verus!
