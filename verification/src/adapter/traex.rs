//! The Traex agent, whose hooks speak the Codex format.

use vstd::prelude::*;

use crate::event::AgentEvent;

verus! {

/// Name under which Traex sessions are shown.
pub const TRAEX_AGENT: &'static str = "traex";

/// Reads Traex hook payloads.
#[derive(Clone, Copy, Debug)]
pub struct TraexAdapter;

impl TraexAdapter {
    /// Reads an event through the Codex parser, which is told the agent's name,
    /// the event's name and the payload.
    pub fn parse<W, J, F: Fn(&str, &str, &J) -> Option<AgentEvent<W, J>>>(
        &self,
        parse_codex_event: F,
        event_name: &str,
        input: &J,
    ) -> (event: Option<AgentEvent<W, J>>)
        requires
            call_requires(parse_codex_event, (TRAEX_AGENT, event_name, input)),
        ensures
            call_ensures(parse_codex_event, (TRAEX_AGENT, event_name, input), event),
    {
        parse_codex_event(TRAEX_AGENT, event_name, input)
    }
}

} // verus!
