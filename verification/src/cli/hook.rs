//! The hook command: an agent reports an event from inside a pane.

use vstd::prelude::*;

use std::collections::HashMap;

use crate::event;
use crate::event::AgentEvent;
use crate::event::Dispatch;
use crate::text::fields;
use crate::text::numbers;
use crate::text::strings;

verus! {

// ---- process ancestry ----

/// How many processes are looked at on the way up.
pub const MAX_GENERATIONS: usize = 256;

/// Whether `chain` leads from a process to its parent, the parent's parent and
/// so on, as `parent_of` gives them. Process 0 and a process that is its own
/// parent are no ancestors.
pub open spec fn is_lineage<F: Fn(u32) -> Option<u32>>(parent_of: F, chain: Seq<u32>) -> bool {
    forall|i: int|
        0 <= i < chain.len() - 1 ==> {
            &&& call_ensures(parent_of, (#[trigger] chain[i],), Some(chain[i + 1]))
            &&& chain[i + 1] != 0
            &&& chain[i + 1] != chain[i]
        }
}

/// Whether the way up may end at `process_id`: its parent is unknown, process
/// 0, or itself.
pub open spec fn is_dead_end<F: Fn(u32) -> Option<u32>>(parent_of: F, process_id: u32) -> bool {
    ||| call_ensures(parent_of, (process_id,), None)
    ||| call_ensures(parent_of, (process_id,), Some(0u32))
    ||| call_ensures(parent_of, (process_id,), Some(process_id))
}

/// Whether `chain` is a walk up from `process_id` that meets `ancestor_id` at
/// its end and not before, within the limit.
pub open spec fn finds_ancestor<F: Fn(u32) -> Option<u32>>(
    parent_of: F,
    process_id: u32,
    ancestor_id: u32,
    chain: Seq<u32>,
) -> bool {
    &&& 1 <= chain.len() <= MAX_GENERATIONS
    &&& chain[0] == process_id
    &&& is_lineage(parent_of, chain)
    &&& chain.last() == ancestor_id
    &&& !chain.drop_last().contains(ancestor_id)
}

/// Whether `chain` is a walk up from `process_id` that comes to a dead end, or
/// past the limit, without meeting `ancestor_id`.
pub open spec fn misses_ancestor<F: Fn(u32) -> Option<u32>>(
    parent_of: F,
    process_id: u32,
    ancestor_id: u32,
    chain: Seq<u32>,
) -> bool {
    &&& 1 <= chain.len()
    &&& chain[0] == process_id
    &&& is_lineage(parent_of, chain)
    &&& if chain.len() <= MAX_GENERATIONS {
        !chain.contains(ancestor_id) && is_dead_end(parent_of, chain.last())
    } else {
        chain.len() == MAX_GENERATIONS + 1 && !chain.drop_last().contains(ancestor_id)
    }
}

/// Walks up from a process and reports whether it meets the ancestor. The limit
/// also ends the walk where the process data run in a circle.
pub fn follows_parent_chain<F: Fn(u32) -> Option<u32>>(
    process_id: u32,
    ancestor_id: u32,
    parent_of: F,
) -> (found: bool)
    requires
        forall|pid: u32| call_requires(parent_of, (pid,)),
    ensures
        found ==> exists|chain: Seq<u32>|
            finds_ancestor(parent_of, process_id, ancestor_id, chain),
        !found ==> exists|chain: Seq<u32>|
            misses_ancestor(parent_of, process_id, ancestor_id, chain),
{
    let mut current: u32 = process_id;
    let ghost mut chain: Seq<u32> = seq![process_id];
    let mut seen: usize = 0;
    while seen < MAX_GENERATIONS
        invariant
            seen <= MAX_GENERATIONS,
            chain.len() == seen + 1,
            chain[0] == process_id,
            chain.last() == current,
            is_lineage(parent_of, chain),
            !chain.drop_last().contains(ancestor_id),
            forall|pid: u32| call_requires(parent_of, (pid,)),
        decreases MAX_GENERATIONS - seen,
    {
        if current == ancestor_id {
            assert(finds_ancestor(parent_of, process_id, ancestor_id, chain));
            return true;
        }
        assert(!chain.contains(ancestor_id)) by {
            assert(chain =~= chain.drop_last().push(current));
            assert forall|i: int| 0 <= i < chain.len() implies chain[i] != ancestor_id by {
                if i < chain.len() - 1 {
                    assert(chain.drop_last()[i] == chain[i]);
                }
            }
        }
        let parent: u32 = match parent_of(current) {
            Some(p) => p,
            None => {
                assert(misses_ancestor(parent_of, process_id, ancestor_id, chain));
                return false;
            },
        };
        if parent == 0 || parent == current {
            assert(misses_ancestor(parent_of, process_id, ancestor_id, chain));
            return false;
        }
        proof {
            let longer = chain.push(parent);
            assert(longer.drop_last() =~= chain);
            assert forall|i: int| 0 <= i < longer.len() - 1 implies {
                &&& call_ensures(parent_of, (#[trigger] longer[i],), Some(longer[i + 1]))
                &&& longer[i + 1] != 0
                &&& longer[i + 1] != longer[i]
            } by {
                if i < chain.len() - 1 {
                    assert(longer[i] == chain[i] && longer[i + 1] == chain[i + 1]);
                }
            }
            chain = longer;
        }
        current = parent;
        seen = seen + 1;
    }
    assert(misses_ancestor(parent_of, process_id, ancestor_id, chain));
    false
}

/// Whether `ancestor_id` is among the first `generations` processes on the way
/// up from `process_id`, in a table of parents.
pub open spec fn descends(
    parents: Map<u32, u32>,
    process_id: u32,
    ancestor_id: u32,
    generations: nat,
) -> bool
    decreases generations,
{
    if generations == 0 {
        false
    } else if process_id == ancestor_id {
        true
    } else if !parents.contains_key(process_id) {
        false
    } else {
        let parent = parents[process_id];
        parent != 0 && parent != process_id && descends(
            parents,
            parent,
            ancestor_id,
            (generations - 1) as nat,
        )
    }
}

/// Looks for an ancestor in a table of parents.
pub fn process_is_descendant_in(
    parents: &HashMap<u32, u32>,
    process_id: u32,
    ancestor_id: u32,
) -> (found: bool)
    ensures
        found == descends(parents@, process_id, ancestor_id, MAX_GENERATIONS as nat),
{
    let lookup = |pid: u32| -> (parent: Option<u32>)
        ensures
            parent == (if parents@.contains_key(pid) {
                Some(parents@[pid])
            } else {
                None
            }),
        {
            match parents.get(&pid) {
                Some(parent) => Some(*parent),
                None => None,
            }
        };
    let found = follows_parent_chain(process_id, ancestor_id, lookup);
    proof {
        if found {
            let chain = choose|chain: Seq<u32>|
                finds_ancestor(lookup, process_id, ancestor_id, chain);
            lemma_lineage_descends(parents@, lookup, chain, ancestor_id, MAX_GENERATIONS as nat);
        } else {
            let chain = choose|chain: Seq<u32>|
                misses_ancestor(lookup, process_id, ancestor_id, chain);
            lemma_lineage_misses(parents@, lookup, chain, ancestor_id, MAX_GENERATIONS as nat);
        }
    }
    found
}

/// What a lookup gives is what the table holds.
pub open spec fn looks_up<F: Fn(u32) -> Option<u32>>(parents: Map<u32, u32>, lookup: F) -> bool {
    forall|pid: u32, parent: Option<u32>| #[trigger]
        call_ensures(lookup, (pid,), parent) ==> parent == (if parents.contains_key(pid) {
            Some(parents[pid])
        } else {
            None
        })
}

proof fn lemma_lineage_descends<F: Fn(u32) -> Option<u32>>(
    parents: Map<u32, u32>,
    lookup: F,
    chain: Seq<u32>,
    ancestor_id: u32,
    generations: nat,
)
    requires
        looks_up(parents, lookup),
        is_lineage(lookup, chain),
        1 <= chain.len() <= generations,
        chain.last() == ancestor_id,
        !chain.drop_last().contains(ancestor_id),
    ensures
        descends(parents, chain[0], ancestor_id, generations),
    decreases chain.len(),
{
    if chain.len() > 1 {
        let rest = chain.drop_first();
        assert(call_ensures(lookup, (chain[0],), Some(chain[1])));
        assert forall|i: int| 0 <= i < rest.len() - 1 implies {
            &&& call_ensures(lookup, (#[trigger] rest[i],), Some(rest[i + 1]))
            &&& rest[i + 1] != 0
            &&& rest[i + 1] != rest[i]
        } by {
            assert(rest[i] == chain[i + 1] && rest[i + 1] == chain[i + 2]);
        }
        assert forall|i: int| 0 <= i < rest.drop_last().len() implies rest.drop_last()[i]
            != ancestor_id by {
            assert(rest.drop_last()[i] == chain.drop_last()[i + 1]);
        }
        lemma_lineage_descends(parents, lookup, rest, ancestor_id, (generations - 1) as nat);
    }
}

proof fn lemma_lineage_misses<F: Fn(u32) -> Option<u32>>(
    parents: Map<u32, u32>,
    lookup: F,
    chain: Seq<u32>,
    ancestor_id: u32,
    generations: nat,
)
    requires
        looks_up(parents, lookup),
        is_lineage(lookup, chain),
        1 <= chain.len(),
        if chain.len() <= generations {
            !chain.contains(ancestor_id) && is_dead_end(lookup, chain.last())
        } else {
            chain.len() == generations + 1 && !chain.drop_last().contains(ancestor_id)
        },
    ensures
        !descends(parents, chain[0], ancestor_id, generations),
    decreases chain.len(),
{
    if generations > 0 {
        if chain.len() <= generations {
            assert(chain.contains(chain[0]));
        } else {
            assert(chain.drop_last()[0] == chain[0]);
            assert(chain.drop_last().contains(chain[0]));
        }
        if chain.len() > 1 {
            let rest = chain.drop_first();
            assert(call_ensures(lookup, (chain[0],), Some(chain[1])));
            assert forall|i: int| 0 <= i < rest.len() - 1 implies {
                &&& call_ensures(lookup, (#[trigger] rest[i],), Some(rest[i + 1]))
                &&& rest[i + 1] != 0
                &&& rest[i + 1] != rest[i]
            } by {
                assert(rest[i] == chain[i + 1] && rest[i + 1] == chain[i + 2]);
            }
            assert forall|i: int| 0 <= i < rest.len() && chain.len() <= generations implies rest[i]
                != ancestor_id by {
                assert(rest[i] == chain[i + 1]);
            }
            assert forall|i: int| 0 <= i < rest.drop_last().len() implies rest.drop_last()[i]
                != ancestor_id by {
                assert(rest.drop_last()[i] == chain[i + 1]);
                if chain.len() > generations {
                    assert(chain.drop_last()[i + 1] == chain[i + 1]);
                }
            }
            lemma_lineage_misses(parents, lookup, rest, ancestor_id, (generations - 1) as nat);
        }
    }
}

/// What follows the last `a` that `b` comes right after.
pub open spec fn after_last_pair(s: Seq<char>, a: char, b: char) -> Option<Seq<char>>
    decreases s.len(),
{
    if s.len() < 2 {
        None
    } else if s[s.len() - 2] == a && s.last() == b {
        Some(Seq::empty())
    } else {
        match after_last_pair(s.drop_last(), a, b) {
            Some(rest) => Some(rest.push(s.last())),
            None => None,
        }
    }
}

/// The parent process in the text of a process status file. The command name
/// stands in parentheses and may itself hold parentheses and spaces, so the
/// fields start after the last `) `: the state, then the parent.
pub open spec fn stat_parent(stat: Seq<char>) -> Option<nat> {
    match after_last_pair(stat, ')', ' ') {
        Some(rest) => {
            let words = fields::words(rest);
            if words.len() < 2 {
                None
            } else {
                numbers::parsed(words[1], u32::MAX as nat)
            }
        },
        None => None,
    }
}

/// Reads the parent process from a process status file.
pub fn parse_stat_parent(stat: &str) -> (parent: Option<u32>)
    ensures
        match parent {
            Some(pid) => stat_parent(stat@) == Some(pid as nat),
            None => stat_parent(stat@) is None,
        },
{
    let chars = strings::chars_of(stat);
    let count: usize = chars.len();
    let mut end: usize = count;
    assert(stat@.take(count as int) == stat@);
    assert(stat@.skip(count as int) =~= Seq::<char>::empty());
    while end >= 2 && !(chars[end - 2] == ')' && chars[end - 1] == ' ')
        invariant
            end <= count == stat@.len(),
            chars@ == stat@,
            after_last_pair(stat@, ')', ' ') == (match after_last_pair(
                stat@.take(end as int),
                ')',
                ' ',
            ) {
                Some(rest) => Some(rest + stat@.skip(end as int)),
                None => None::<Seq<char>>,
            }),
        decreases end,
    {
        proof {
            let shorter = stat@.take(end as int).drop_last();
            assert(shorter =~= stat@.take(end - 1));
            if let Some(rest) = after_last_pair(shorter, ')', ' ') {
                assert(rest.push(stat@[end - 1]) + stat@.skip(end as int) =~= rest + stat@.skip(
                    end - 1,
                ));
            }
        }
        end = end - 1;
    }
    if end < 2 {
        return None;
    }
    let rest = stat.substring_char(end, count);
    assert(rest@ =~= Seq::<char>::empty() + stat@.skip(end as int));
    let words = fields::split_words(rest);
    let ghost all = fields::words(rest@);
    assert(strings::texts(words@).len() == words@.len());
    if words.len() < 2 {
        return None;
    }
    assert(all[1] == words@[1]@);
    numbers::parse_u32(words[1].as_str())
}

/// The process and its parent in a `pid parent` line.
pub open spec fn table_entry(line: Seq<char>) -> Option<(nat, nat)> {
    let words = fields::words(line);
    if words.len() < 2 {
        None
    } else {
        match (
            numbers::parsed(words[0], u32::MAX as nat),
            numbers::parsed(words[1], u32::MAX as nat),
        ) {
            (Some(pid), Some(parent)) => Some((pid, parent)),
            _ => None,
        }
    }
}

/// The table of parents in lines of the form `pid parent`; the last line of a
/// process counts, and other lines are skipped.
pub open spec fn table(lines: Seq<Seq<char>>) -> Map<u32, u32>
    decreases lines.len(),
{
    if lines.len() == 0 {
        Map::empty()
    } else {
        let head = table(lines.drop_last());
        match table_entry(lines.last()) {
            Some((pid, parent)) => head.insert(pid as u32, parent as u32),
            None => head,
        }
    }
}

/// Reads a process listing into a table of parents.
pub fn parse_process_table(output: &str) -> (parents: HashMap<u32, u32>)
    ensures
        parents@ == table(fields::lines(output@)),
{
    let lines = fields::split_lines(output);
    let ghost all = strings::texts(lines@);
    let mut parents: HashMap<u32, u32> = HashMap::new();
    for i in 0..lines.len()
        invariant
            all == strings::texts(lines@),
            parents@ == table(all.take(i as int)),
    {
        assert(all.take(i + 1).drop_last() == all.take(i as int));
        assert(all.take(i + 1).last() == lines@[i as int]@);
        let words = fields::split_words(lines[i].as_str());
        let ghost texts = strings::texts(words@);
        assert(texts.len() == words@.len());
        if words.len() >= 2 {
            assert(texts[0] == words@[0]@ && texts[1] == words@[1]@);
            let pid = numbers::parse_u32(words[0].as_str());
            let parent = numbers::parse_u32(words[1].as_str());
            if let (Some(pid), Some(parent)) = (pid, parent) {
                parents.insert(pid, parent);
            }
        }
    }
    assert(all.take(all.len() as int) == all);
    parents
}

// ---- the command ----

/// How far a hook command has come.
pub enum Hook {
    Resolving { agent_name: String, event_name: String },
    FindingPane { agent_name: String, event_name: String },
    ReadingPanePid { agent_name: String, event_name: String, pane: String },
    CheckingOwner { agent_name: String, event_name: String, pane: String },
    ReadingEvent { agent_name: String, pane: String },
    Handling { notify: bool, settled: Option<i32> },
    Invalidating { notify: bool, code: i32 },
    Notifying { code: i32 },
    Ended,
}

/// What a hook command asks for.
pub enum HookAction<W, J> {
    /// Is there an adapter for this agent?
    Resolve { agent_name: String },
    /// Which pane does the environment name?
    FindPane,
    /// What is the process of the pane's shell, as text?
    ReadPanePid { pane: String },
    /// Is this process a descendant of that one?
    CheckOwner { pane_pid: u32 },
    /// Which event does the payload hold, under this name?
    ReadEvent { event_name: String },
    /// Handle the event and report the handler's exit code.
    Handle { pane: String, plan: Dispatch<W, J> },
    /// Mark the shared snapshot as outdated.
    Invalidate,
    /// Wake all sidebars.
    Notify,
    /// Exit with this code.
    Exit { code: i32 },
}

/// The answer to a hook command's question.
pub enum HookReply<W, J> {
    Known(bool),
    Pane(String),
    PanePid(String),
    Owned(bool),
    Event(Option<AgentEvent<W, J>>),
    Code(i32),
    Done,
}

/// The exit code of an event: the one that is settled, or else the handler's.
pub open spec fn exit_code(settled: Option<i32>, handled: i32) -> i32 {
    match settled {
        Some(code) => code,
        None => handled,
    }
}

impl Hook {
    /// The end of a command, with exit code 0.
    pub open spec fn ended<W, J>() -> (Hook, HookAction<W, J>) {
        (Hook::Ended, HookAction::Exit { code: 0 })
    }

    /// The next state and question after a reply. A reply of another kind than
    /// the one asked for ends the command.
    pub open spec fn after<W, J>(self, reply: HookReply<W, J>) -> (Hook, HookAction<W, J>) {
        match (self, reply) {
            (Hook::Resolving { agent_name, event_name }, HookReply::Known(known)) => if known {
                (Hook::FindingPane { agent_name, event_name }, HookAction::FindPane)
            } else {
                Hook::ended()
            },
            (Hook::FindingPane { agent_name, event_name }, HookReply::Pane(pane)) =>
            if pane@.len() > 0 {
                (
                    Hook::ReadingPanePid { agent_name, event_name, pane },
                    HookAction::ReadPanePid { pane },
                )
            } else {
                Hook::ended()
            },
            (Hook::ReadingPanePid { agent_name, event_name, pane }, HookReply::PanePid(text)) =>
            match numbers::parsed(strings::trimmed(text@), u32::MAX as nat) {
                Some(pid) => (
                    Hook::CheckingOwner { agent_name, event_name, pane },
                    HookAction::CheckOwner { pane_pid: pid as u32 },
                ),
                None => Hook::ended(),
            },
            (Hook::CheckingOwner { agent_name, event_name, pane }, HookReply::Owned(owned)) =>
            if owned {
                (Hook::ReadingEvent { agent_name, pane }, HookAction::ReadEvent { event_name })
            } else {
                Hook::ended()
            },
            (Hook::ReadingEvent { agent_name, pane }, HookReply::Event(found)) => match found {
                Some(event) => (
                    Hook::Handling {
                        notify: event::wakes(event),
                        settled: event::dispatch(agent_name, event).handler.settled(),
                    },
                    HookAction::Handle { pane, plan: event::dispatch(agent_name, event) },
                ),
                None => Hook::ended(),
            },
            (Hook::Handling { notify, settled }, HookReply::Code(code)) => (
                Hook::Invalidating { notify, code: exit_code(settled, code) },
                HookAction::Invalidate,
            ),
            (Hook::Invalidating { notify, code }, HookReply::Done) => if notify {
                (Hook::Notifying { code }, HookAction::Notify)
            } else {
                (Hook::Ended, HookAction::Exit { code })
            },
            (Hook::Notifying { code }, HookReply::Done) => (
                Hook::Ended,
                HookAction::Exit { code },
            ),
            _ => Hook::ended(),
        }
    }
}

/// The argument at a position; a missing one counts as empty.
pub open spec fn argument(args: Seq<String>, i: int) -> Seq<char> {
    if i < args.len() {
        args[i]@
    } else {
        Seq::empty()
    }
}

impl Hook {
    /// The start of a command with these arguments.
    pub open spec fn begun<W, J>(args: Seq<String>) -> (Hook, HookAction<W, J>) {
        if argument(args, 0).len() == 0 || argument(args, 1).len() == 0 {
            Hook::ended()
        } else {
            (
                Hook::Resolving { agent_name: args[0], event_name: args[1] },
                HookAction::Resolve { agent_name: args[0] },
            )
        }
    }
}

/// Starts a hook command. It needs the names of an agent and of an event.
pub fn cmd_hook<W, J>(args: &[String]) -> (start: (Hook, HookAction<W, J>))
    ensures
        start == Hook::begun::<W, J>(args@),
{
    if args.len() < 2 || args[0].as_str().is_empty() || args[1].as_str().is_empty() {
        return (Hook::Ended, HookAction::Exit { code: 0 });
    }
    let agent_name = args[0].clone();
    let event_name = args[1].clone();
    let asked = agent_name.clone();
    (Hook::Resolving { agent_name, event_name }, HookAction::Resolve { agent_name: asked })
}

impl Hook {
    /// Takes the reply to the last question and asks the next one.
    pub fn resume<W, J>(self, reply: HookReply<W, J>) -> (next: (Hook, HookAction<W, J>))
        ensures
            next == self.after(reply),
    {
        match (self, reply) {
            (Hook::Resolving { agent_name, event_name }, HookReply::Known(known)) => {
                if known {
                    return (Hook::FindingPane { agent_name, event_name }, HookAction::FindPane);
                }
            },
            (Hook::FindingPane { agent_name, event_name }, HookReply::Pane(pane)) => {
                if !pane.as_str().is_empty() {
                    let asked = pane.clone();
                    return (
                        Hook::ReadingPanePid { agent_name, event_name, pane },
                        HookAction::ReadPanePid { pane: asked },
                    );
                }
            },
            (Hook::ReadingPanePid { agent_name, event_name, pane }, HookReply::PanePid(text)) => {
                if let Some(pane_pid) = numbers::parse_u32(strings::trim(text.as_str())) {
                    return (
                        Hook::CheckingOwner { agent_name, event_name, pane },
                        HookAction::CheckOwner { pane_pid },
                    );
                }
            },
            (Hook::CheckingOwner { agent_name, event_name, pane }, HookReply::Owned(owned)) => {
                if owned {
                    return (
                        Hook::ReadingEvent { agent_name, pane },
                        HookAction::ReadEvent { event_name },
                    );
                }
            },
            (Hook::ReadingEvent { agent_name, pane }, HookReply::Event(found)) => {
                if let Some(event) = found {
                    let notify = event::should_notify(&event);
                    let plan = event::handle_event(agent_name, event);
                    let settled = plan.handler.settled_code();
                    return (
                        Hook::Handling { notify, settled },
                        HookAction::Handle { pane, plan },
                    );
                }
            },
            (Hook::Handling { notify, settled }, HookReply::Code(handled)) => {
                let code: i32 = match settled {
                    Some(code) => code,
                    None => handled,
                };
                return (Hook::Invalidating { notify, code }, HookAction::Invalidate);
            },
            (Hook::Invalidating { notify, code }, HookReply::Done) => {
                if notify {
                    return (Hook::Notifying { code }, HookAction::Notify);
                } else {
                    return (Hook::Ended, HookAction::Exit { code });
                }
            },
            (Hook::Notifying { code }, HookReply::Done) => {
                return (Hook::Ended, HookAction::Exit { code });
            },
            _ => {},
        }
        (Hook::Ended, HookAction::Exit { code: 0 })
    }
}

// ---- laws ----

impl Hook {
    /// The state after a run of replies to a command that knows its agent and
    /// event.
    pub open spec fn reached<W, J>(
        agent_name: String,
        event_name: String,
        replies: Seq<HookReply<W, J>>,
    ) -> Hook
        decreases replies.len(),
    {
        if replies.len() == 0 {
            Hook::Resolving { agent_name, event_name }
        } else {
            Self::reached(agent_name, event_name, replies.drop_last()).after(replies.last()).0
        }
    }
}

/// A hook writes pane state only from inside the pane: whatever is replied, an
/// event is read and handled only after the process was found to be a
/// descendant of the pane's shell, and the pane is the one that was named.
pub proof fn only_descendants_of_the_pane_are_heard<W, J>(
    agent_name: String,
    event_name: String,
    replies: Seq<HookReply<W, J>>,
)
    requires
        Hook::reached(agent_name, event_name, replies) is ReadingEvent,
    ensures
        replies.len() == 4,
        replies[0] == HookReply::<W, J>::Known(true),
        replies[1] == HookReply::<W, J>::Pane(
            Hook::reached(agent_name, event_name, replies)->ReadingEvent_pane,
        ),
        replies[3] == HookReply::<W, J>::Owned(true),
{
    let r3 = replies.drop_last();
    let r2 = r3.drop_last();
    let r1 = r2.drop_last();
    let r0 = r1.drop_last();
    reveal_with_fuel(Hook::reached, 6);
    assert(Hook::reached(agent_name, event_name, r3) is CheckingOwner);
    assert(Hook::reached(agent_name, event_name, r2) is ReadingPanePid);
    assert(Hook::reached(agent_name, event_name, r1) is FindingPane);
    assert(Hook::reached(agent_name, event_name, r0) is Resolving);
    assert(r3[2] == replies[2] && r2[1] == replies[1] && r1[0] == replies[0]);
}

/// A handled event is announced to the daemon before any sidebar is woken, and
/// the exit code is the one that is settled, or else the handler's.
pub proof fn snapshot_is_outdated_before_sidebars_wake<W, J>(
    notify: bool,
    settled: Option<i32>,
    handled: i32,
    code: i32,
)
    requires
        code == exit_code(settled, handled),
    ensures
        (Hook::Handling { notify, settled }).after(HookReply::<W, J>::Code(handled)) == (
            Hook::Invalidating { notify, code },
            HookAction::<W, J>::Invalidate,
        ),
        notify ==> (Hook::Invalidating { notify, code }).after(HookReply::<W, J>::Done).1
            == HookAction::<W, J>::Notify && (Hook::Notifying { code }).after(
            HookReply::<W, J>::Done,
        ).1 == (HookAction::<W, J>::Exit { code }),
        !notify ==> (Hook::Invalidating { notify, code }).after(HookReply::<W, J>::Done).1 == (
        HookAction::<W, J>::Exit { code }),
{
}

/// The walk up is bounded: more generations find at least as much, and a
/// process is always in its own line of descent.
pub proof fn more_generations_find_more(
    parents: Map<u32, u32>,
    process_id: u32,
    ancestor_id: u32,
    fewer: nat,
    more: nat,
)
    requires
        descends(parents, process_id, ancestor_id, fewer),
        fewer <= more,
    ensures
        descends(parents, process_id, ancestor_id, more),
        descends(parents, ancestor_id, ancestor_id, 1),
    decreases fewer,
{
    reveal_with_fuel(descends, 2);
    if process_id != ancestor_id {
        more_generations_find_more(
            parents,
            parents[process_id],
            ancestor_id,
            (fewer - 1) as nat,
            (more - 1) as nat,
        );
    }
}

/// Whether a table names a process for the parent of another that is neither
/// process 0 nor that process itself.
pub open spec fn names_parent(parents: Map<u32, u32>, child: u32, parent: u32) -> bool {
    &&& parents.contains_key(child)
    &&& parents[child] == parent
    &&& parent != 0
    &&& parent != child
}

/// Whether `chain` leads from child to parent in a table of parents.
pub open spec fn leads_up(parents: Map<u32, u32>, chain: Seq<u32>) -> bool {
    forall|i: int|
        0 <= i < chain.len() - 1 ==> names_parent(parents, #[trigger] chain[i], chain[i + 1])
}

/// A process descends from every process that a chain of no more than 256
/// parents leads up to.
pub proof fn ancestors_are_found_along_the_chain(parents: Map<u32, u32>, chain: Seq<u32>)
    requires
        1 <= chain.len() <= 256,
        leads_up(parents, chain),
    ensures
        descends(parents, chain.first(), chain.last(), MAX_GENERATIONS as nat),
{
    lemma_chain_descends(parents, chain, MAX_GENERATIONS as nat);
}

proof fn lemma_chain_descends(parents: Map<u32, u32>, chain: Seq<u32>, generations: nat)
    requires
        1 <= chain.len() <= generations,
        leads_up(parents, chain),
    ensures
        descends(parents, chain.first(), chain.last(), generations),
    decreases chain.len(),
{
    if chain.len() > 1 && chain.first() != chain.last() {
        let rest = chain.drop_first();
        assert(chain[1] == rest[0]);
        assert(names_parent(parents, chain[0], chain[1]));
        assert forall|i: int| 0 <= i < rest.len() - 1 implies names_parent(
            parents,
            #[trigger] rest[i],
            rest[i + 1],
        ) by {
            assert(names_parent(parents, chain[i + 1], chain[i + 1 + 1]));
        }
        lemma_chain_descends(parents, rest, (generations - 1) as nat);
        assert(rest.last() == chain.last());
    }
}

/// Whatever a process descends from, a chain of no more than 256 parents leads up
/// to.
pub proof fn found_ancestors_are_on_the_chain(
    parents: Map<u32, u32>,
    process_id: u32,
    ancestor_id: u32,
)
    requires
        descends(parents, process_id, ancestor_id, MAX_GENERATIONS as nat),
    ensures
        exists|chain: Seq<u32>|
            1 <= chain.len() <= 256 && chain.first() == process_id && chain.last() == ancestor_id
                && #[trigger] leads_up(parents, chain),
{
    let chain = lemma_descent_has_chain(
        parents,
        process_id,
        ancestor_id,
        MAX_GENERATIONS as nat,
    );
    assert(leads_up(parents, chain));
}

proof fn lemma_descent_has_chain(
    parents: Map<u32, u32>,
    process_id: u32,
    ancestor_id: u32,
    generations: nat,
) -> (chain: Seq<u32>)
    requires
        descends(parents, process_id, ancestor_id, generations),
    ensures
        1 <= chain.len() <= generations,
        chain.first() == process_id,
        chain.last() == ancestor_id,
        leads_up(parents, chain),
    decreases generations,
{
    if process_id == ancestor_id {
        seq![process_id]
    } else {
        let rest = lemma_descent_has_chain(
            parents,
            parents[process_id],
            ancestor_id,
            (generations - 1) as nat,
        );
        let chain = seq![process_id] + rest;
        assert forall|i: int| 0 <= i < chain.len() - 1 implies names_parent(
            parents,
            #[trigger] chain[i],
            chain[i + 1],
        ) by {
            assert(chain[i + 1] == rest[i]);
            if i > 0 {
                assert(chain[i] == rest[i - 1]);
                assert(names_parent(parents, rest[i - 1], rest[i - 1 + 1]));
            }
        }
        chain
    }
}

/// What stands behind the last pair is found behind any text.
proof fn lemma_last_pair(left: Seq<char>, a: char, b: char, right: Seq<char>)
    requires
        a != b,
        forall|i: int| 0 <= i < right.len() - 1 ==> !(#[trigger] right[i] == a && right[i + 1] == b),
    ensures
        after_last_pair(left + seq![a, b] + right, a, b) == Some(right),
    decreases right.len(),
{
    let s = left + seq![a, b] + right;
    if right.len() == 0 {
        assert(s[s.len() - 2] == a && s.last() == b);
        assert(right =~= Seq::empty());
    } else {
        let shorter = right.drop_last();
        assert forall|i: int| 0 <= i < shorter.len() - 1 implies !(#[trigger] shorter[i] == a
            && shorter[i + 1] == b) by {
            assert(shorter[i] == right[i]);
        }
        lemma_last_pair(left, a, b, shorter);
        assert(s.drop_last() =~= left + seq![a, b] + shorter);
        if right.len() == 1 {
            assert(s[s.len() - 2] == b);
        } else {
            assert(s[s.len() - 2] == right[right.len() - 2]);
            assert(!(right[right.len() - 2] == a && right[right.len() - 2 + 1] == b));
        }
        assert(right =~= shorter.push(right.last()));
    }
}

/// The parent of a process is the number behind its state, whatever its command
/// name holds, parentheses and blanks included, and whatever follows.
pub proof fn stat_tells_the_parent(
    command: Seq<char>,
    state: Seq<char>,
    parent: nat,
    more: Seq<char>,
)
    requires
        parent <= u32::MAX,
        state.len() > 0,
        forall|i: int|
            0 <= i < state.len() ==> !strings::is_whitespace(#[trigger] state[i]) && state[i] != ')',
        !more.contains(')'),
    ensures
        stat_parent(
            command + seq![')', ' '] + (state.push(' ') + (numbers::decimal(parent).push(' ')
                + more)),
        ) == Some(parent),
{
    let id = numbers::decimal(parent);
    let rest = id.push(' ') + more;
    let right = state.push(' ') + rest;
    numbers::decimals_are_plain(parent, ')');
    numbers::decimal_round_trips(parent, u32::MAX as nat);
    assert forall|i: int| 0 <= i < right.len() implies right[i] != ')' by {
        if i < state.len() {
            assert(right[i] == state[i]);
        } else if state.len() < i < state.len() + 1 + id.len() {
            assert(right[i] == id[i - state.len() - 1]);
        } else if i >= state.len() + 1 + id.len() + 1 {
            assert(right[i] == more[i - state.len() - id.len() - 2]);
        }
    }
    lemma_last_pair(command, ')', ' ', right);
    fields::first_word_splits_off(state, ' ', rest);
    fields::first_word_splits_off(id, ' ', more);
    let words = fields::words(right);
    assert(words =~= seq![state] + (seq![id] + fields::words(more)));
    assert(words[1] == id);
}

/// A listed process has the second number of its line for a parent; blanks before
/// the first do not matter, and neither does what follows.
pub proof fn listings_tell_the_parents(
    lines: Seq<Seq<char>>,
    indent: Seq<char>,
    process_id: u32,
    parent: u32,
    more: Seq<char>,
    other: u32,
)
    requires
        strings::blank(indent),
    ensures
        ({
            let line = indent + (numbers::decimal(process_id as nat).push(' ') + (numbers::decimal(
                parent as nat,
            ).push(' ') + more));
            let parents = table(lines.push(line));
            &&& parents.contains_key(process_id)
            &&& parents[process_id] == parent
            &&& other != process_id ==> parents.contains_key(other) == table(lines).contains_key(
                other,
            ) && parents[other] == table(lines)[other]
        }),
        table(Seq::empty()) == Map::<u32, u32>::empty(),
{
    let pid = numbers::decimal(process_id as nat);
    let up = numbers::decimal(parent as nat);
    let tail = up.push(' ') + more;
    let body = pid.push(' ') + tail;
    let line = indent + body;
    numbers::decimals_are_plain(process_id as nat, ' ');
    numbers::decimals_are_plain(parent as nat, ' ');
    numbers::decimal_round_trips(process_id as nat, u32::MAX as nat);
    numbers::decimal_round_trips(parent as nat, u32::MAX as nat);
    fields::first_word_splits_off(up, ' ', more);
    fields::first_word_splits_off(pid, ' ', tail);
    lemma_indent_has_no_words(indent, body);
    let words = fields::words(line);
    assert(words =~= seq![pid] + (seq![up] + fields::words(more)));
    assert(words[0] == pid && words[1] == up);
    assert(lines.push(line).drop_last() =~= lines);
}

proof fn lemma_indent_has_no_words(indent: Seq<char>, rest: Seq<char>)
    requires
        strings::blank(indent),
    ensures
        fields::words(indent + rest) == fields::words(rest),
    decreases indent.len(),
{
    if indent.len() == 0 {
        assert(indent + rest =~= rest);
    } else {
        let tail = indent.drop_first();
        assert(strings::is_whitespace(indent[0]));
        assert(strings::blank(tail)) by {
            assert forall|i: int| 0 <= i < tail.len() implies strings::is_whitespace(
                #[trigger] tail[i],
            ) by {
                assert(tail[i] == indent[i + 1]);
            }
        }
        lemma_indent_has_no_words(tail, rest);
        let nothing = Seq::<char>::empty();
        fields::first_word_splits_off(nothing, indent[0], tail + rest);
        assert(indent + rest =~= nothing.push(indent[0]) + (tail + rest));
    }
}

/// A hook that is heard goes all the way: it asks for the adapter, the pane, the
/// process of that pane's shell and the event, in this order, and the event is
/// handled for that pane on behalf of that agent.
pub proof fn heard_events_are_handled_for_their_pane<W, J>(
    agent_name: String,
    event_name: String,
    pane: String,
    text: String,
    pane_pid: u32,
    event: AgentEvent<W, J>,
)
    requires
        pane@.len() > 0,
        text@ == numbers::decimal(pane_pid as nat),
    ensures
        ({
            let resolving = Hook::Resolving { agent_name, event_name };
            let (finding, a1) = resolving.after(HookReply::<W, J>::Known(true));
            let (reading, a2) = finding.after(HookReply::<W, J>::Pane(pane));
            let (checking, a3) = reading.after(HookReply::<W, J>::PanePid(text));
            let (waiting, a4) = checking.after(HookReply::<W, J>::Owned(true));
            let (handling, a5) = waiting.after(HookReply::Event(Some(event)));
            &&& a1 == HookAction::<W, J>::FindPane
            &&& a2 == (HookAction::<W, J>::ReadPanePid { pane })
            &&& a3 == (HookAction::<W, J>::CheckOwner { pane_pid })
            &&& a4 == (HookAction::<W, J>::ReadEvent { event_name })
            &&& a5 is Handle
            &&& a5->Handle_pane == pane
            &&& a5->plan == event::dispatch(agent_name, event)
            &&& handling is Handling
        }),
{
    numbers::decimals_are_plain(pane_pid as nat, ' ');
    numbers::decimal_round_trips(pane_pid as nat, u32::MAX as nat);
}

/// A handled event outdates the snapshot; the sidebars are then woken unless it
/// logs an activity or creates a task or a worktree; and the exit code is 0 where
/// a task or a worktree was created or the directory changed, and else the
/// handler's.
pub proof fn handled_events_end_with_their_code<W, J>(
    agent_name: String,
    pane: String,
    event: AgentEvent<W, J>,
    handled: i32,
)
    ensures
        ({
            let waiting = Hook::ReadingEvent { agent_name, pane };
            let (handling, _a) = waiting.after(HookReply::Event(Some(event)));
            let (outdating, b) = handling.after(HookReply::<W, J>::Code(handled));
            let (waking, c) = outdating.after(HookReply::<W, J>::Done);
            let (_end, d) = waking.after(HookReply::<W, J>::Done);
            let code: i32 = if event is TaskCreated || event is WorktreeCreate
                || event is CwdChanged {
                0
            } else {
                handled
            };
            let quiet = event is ActivityLog || event is TaskCreated || event is WorktreeCreate;
            &&& b == HookAction::<W, J>::Invalidate
            &&& !quiet ==> c == HookAction::<W, J>::Notify
            &&& !quiet ==> d == (HookAction::<W, J>::Exit { code })
            &&& quiet ==> c == (HookAction::<W, J>::Exit { code })
        }),
{
}

/// A hook that is not heard ends with exit code 0 and nothing done: where there is
/// no adapter, no pane, no process of its shell, a process outside the pane, or no
/// event.
pub proof fn unheard_hooks_end_quietly<W, J>(
    agent_name: String,
    event_name: String,
    pane: String,
    nothing: String,
    text: String,
)
    requires
        nothing@.len() == 0,
        numbers::parsed(strings::trimmed(text@), u32::MAX as nat) is None,
    ensures
        ({
            let exit = HookAction::<W, J>::Exit { code: 0 };
            &&& (Hook::Resolving { agent_name, event_name }).after(
                HookReply::<W, J>::Known(false),
            ).1 == exit
            &&& (Hook::FindingPane { agent_name, event_name }).after(
                HookReply::<W, J>::Pane(nothing),
            ).1 == exit
            &&& (Hook::ReadingPanePid { agent_name, event_name, pane }).after(
                HookReply::<W, J>::PanePid(text),
            ).1 == exit
            &&& (Hook::CheckingOwner { agent_name, event_name, pane }).after(
                HookReply::<W, J>::Owned(false),
            ).1 == exit
            &&& (Hook::ReadingEvent { agent_name, pane }).after(
                HookReply::<W, J>::Event(None),
            ).1 == exit
        }),
{
}

/// A hook takes the agent and the event from its first two arguments, in this
/// order, and ends with exit code 0 where either is missing or empty; further
/// arguments do not matter.
pub proof fn hooks_name_an_agent_and_an_event<W, J>(
    agent_name: String,
    event_name: String,
    more: Seq<String>,
)
    ensures
        agent_name@.len() > 0 && event_name@.len() > 0 ==> Hook::begun::<W, J>(
            seq![agent_name, event_name] + more,
        ) == (
            Hook::Resolving { agent_name, event_name },
            HookAction::<W, J>::Resolve { agent_name },
        ),
        agent_name@.len() == 0 || event_name@.len() == 0 ==> Hook::begun::<W, J>(
            seq![agent_name, event_name] + more,
        ).1 == (HookAction::<W, J>::Exit { code: 0 }),
        Hook::begun::<W, J>(seq![agent_name]).1 == (HookAction::<W, J>::Exit { code: 0 }),
        Hook::begun::<W, J>(Seq::empty()).1 == (HookAction::<W, J>::Exit { code: 0 }),
{
}

/// Blanks around the process of a pane do not matter.
pub proof fn blanks_around_a_process_do_not_matter<W, J>(
    agent_name: String,
    event_name: String,
    pane: String,
    pane_pid: u32,
    left: Seq<char>,
    right: Seq<char>,
    text: String,
)
    requires
        strings::blank(left),
        strings::blank(right),
        text@ == left + numbers::decimal(pane_pid as nat) + right,
    ensures
        (Hook::ReadingPanePid { agent_name, event_name, pane }).after(
            HookReply::<W, J>::PanePid(text),
        ).1 == (HookAction::<W, J>::CheckOwner { pane_pid }),
{
    numbers::blanks_around_a_number(pane_pid as nat, left, right, u32::MAX as nat);
    numbers::decimal_round_trips(pane_pid as nat, u32::MAX as nat);
}

} // verus!
