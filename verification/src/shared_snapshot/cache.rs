//! What the daemon keeps, and when it finds it out anew.

use vstd::prelude::*;

use crate::clock;
use crate::runtime;
use crate::shared_snapshot;
use crate::shared_snapshot::visibility;
use crate::shared_snapshot::visibility::SidebarVisibility;
use crate::text::map::TextMap;
use crate::text::strings;

verus! {

// ---- sessions ----

/// A pane with an agent, of which `A` says the rest.
pub struct PaneInfo<A> {
    pub pane_id: String,
    pub agent: A,
}

/// A window with its agents.
pub struct WindowInfo<A> {
    pub window_name: String,
    pub panes: Vec<PaneInfo<A>>,
}

/// A session with its windows.
pub struct SessionInfo<A> {
    pub session_name: String,
    pub windows: Vec<WindowInfo<A>>,
}

/// What a scan of processes and ports found: the panes in which an agent still
/// runs, and the rest in `N`.
pub struct PaneProcessSnapshot<N> {
    pub live_agent_panes: Vec<String>,
    pub ports: N,
}

/// Whether an agent still runs in a pane.
pub open spec fn is_live(live: Seq<Seq<char>>, pane_id: Seq<char>) -> bool {
    live.contains(pane_id)
}

/// The panes in which an agent still runs.
pub open spec fn live_panes<A>(panes: Seq<PaneInfo<A>>, live: Seq<Seq<char>>) -> Seq<PaneInfo<A>>
    decreases panes.len(),
{
    if panes.len() == 0 {
        Seq::empty()
    } else {
        let head = live_panes(panes.drop_last(), live);
        if is_live(live, panes.last().pane_id@) {
            head.push(panes.last())
        } else {
            head
        }
    }
}

/// The panes in which no agent runs any more.
pub open spec fn dead_in_window<A>(panes: Seq<PaneInfo<A>>, live: Seq<Seq<char>>) -> Seq<Seq<char>>
    decreases panes.len(),
{
    if panes.len() == 0 {
        Seq::empty()
    } else {
        let head = dead_in_window(panes.drop_last(), live);
        if is_live(live, panes.last().pane_id@) {
            head
        } else {
            head.push(panes.last().pane_id@)
        }
    }
}

/// The panes of a session in which no agent runs any more.
pub open spec fn dead_in_session<A>(
    windows: Seq<WindowInfo<A>>,
    live: Seq<Seq<char>>,
) -> Seq<Seq<char>>
    decreases windows.len(),
{
    if windows.len() == 0 {
        Seq::empty()
    } else {
        dead_in_session(windows.drop_last(), live) + dead_in_window(windows.last().panes@, live)
    }
}

/// The panes of all sessions in which no agent runs any more, in order.
pub open spec fn dead_panes<A>(
    sessions: Seq<SessionInfo<A>>,
    live: Seq<Seq<char>>,
) -> Seq<Seq<char>>
    decreases sessions.len(),
{
    if sessions.len() == 0 {
        Seq::empty()
    } else {
        dead_panes(sessions.drop_last(), live) + dead_in_session(sessions.last().windows@, live)
    }
}

/// Whether `after` is the window `before` with its live panes.
pub open spec fn window_kept<A>(
    after: WindowInfo<A>,
    before: WindowInfo<A>,
    live: Seq<Seq<char>>,
) -> bool {
    &&& after.window_name == before.window_name
    &&& after.panes@ == live_panes(before.panes@, live)
}

/// Whether `after` are the windows `before` with their live panes.
pub open spec fn windows_kept<A>(
    after: Seq<WindowInfo<A>>,
    before: Seq<WindowInfo<A>>,
    live: Seq<Seq<char>>,
) -> bool {
    &&& after.len() == before.len()
    &&& forall|i: int| 0 <= i < after.len() ==> window_kept(#[trigger] after[i], before[i], live)
}

/// Whether `after` is the session `before` with its live panes.
pub open spec fn session_kept<A>(
    after: SessionInfo<A>,
    before: SessionInfo<A>,
    live: Seq<Seq<char>>,
) -> bool {
    &&& after.session_name == before.session_name
    &&& windows_kept(after.windows@, before.windows@, live)
}

/// Whether `after` are the sessions `before` with their live panes.
pub open spec fn sessions_kept<A>(
    after: Seq<SessionInfo<A>>,
    before: Seq<SessionInfo<A>>,
    live: Seq<Seq<char>>,
) -> bool {
    &&& after.len() == before.len()
    &&& forall|i: int| 0 <= i < after.len() ==> session_kept(#[trigger] after[i], before[i], live)
}

/// Finds out whether an agent still runs in a pane.
fn find_live(live: &Vec<String>, pane_id: &str) -> (found: bool)
    ensures
        found == is_live(strings::texts(live@), pane_id@),
{
    let ghost all = strings::texts(live@);
    for i in 0..live.len()
        invariant
            all == strings::texts(live@),
            forall|k: int| 0 <= k < i ==> #[trigger] all[k] != pane_id@,
    {
        assert(all[i as int] == live@[i as int]@);
        if strings::same_text(live[i].as_str(), pane_id) {
            return true;
        }
    }
    false
}

/// Drops the panes of a window in which no agent runs any more, and appends
/// them to a list.
fn retain_in_window<A>(panes: &mut Vec<PaneInfo<A>>, live: &Vec<String>, dead: &mut Vec<String>)
    ensures
        final(panes)@ == live_panes(old(panes)@, strings::texts(live@)),
        strings::texts(final(dead)@) == strings::texts(old(dead)@) + dead_in_window(
            old(panes)@,
            strings::texts(live@),
        ),
{
    let ghost all = panes@;
    let ghost alive = strings::texts(live@);
    let ghost start = strings::texts(dead@);
    let ghost mut seen: int = 0;
    let mut i: usize = 0;
    assert(all.take(0) == Seq::<PaneInfo<A>>::empty());
    assert(strings::texts(dead@) =~= start + dead_in_window(all.take(0), alive));
    assert(panes@ =~= live_panes(all.take(0), alive) + all.skip(0));
    while i < panes.len()
        invariant
            alive == strings::texts(live@),
            0 <= seen <= all.len(),
            i == live_panes(all.take(seen), alive).len(),
            panes@ == live_panes(all.take(seen), alive) + all.skip(seen),
            strings::texts(dead@) == start + dead_in_window(all.take(seen), alive),
        decreases all.len() - seen,
    {
        assert(panes@[i as int] == all[seen]);
        assert(all.take(seen + 1).drop_last() == all.take(seen));
        assert(all.take(seen + 1).last() == all[seen]);
        if find_live(live, panes[i].pane_id.as_str()) {
            i = i + 1;
            assert(panes@ =~= live_panes(all.take(seen + 1), alive) + all.skip(seen + 1));
        } else {
            let ghost before = strings::texts(dead@);
            dead.push(panes[i].pane_id.clone());
            assert(strings::texts(dead@) =~= before.push(all[seen].pane_id@));
            assert(strings::texts(dead@) =~= start + dead_in_window(all.take(seen + 1), alive));
            panes.remove(i);
            assert(panes@ =~= live_panes(all.take(seen + 1), alive) + all.skip(seen + 1));
        }
        proof {
            seen = seen + 1;
        }
    }
    assert(all.take(all.len() as int) == all);
    assert(panes@ =~= live_panes(all, alive));
}

/// Drops the panes of several windows in which no agent runs any more.
fn retain_in_windows<A>(
    windows: &mut Vec<WindowInfo<A>>,
    live: &Vec<String>,
    dead: &mut Vec<String>,
)
    ensures
        windows_kept(final(windows)@, old(windows)@, strings::texts(live@)),
        strings::texts(final(dead)@) == strings::texts(old(dead)@) + dead_in_session(
            old(windows)@,
            strings::texts(live@),
        ),
{
    let ghost all = windows@;
    let ghost alive = strings::texts(live@);
    let ghost start = strings::texts(dead@);
    assert(strings::texts(dead@) =~= start + dead_in_session(all.take(0), alive));
    let count: usize = windows.len();
    for i in 0..count
        invariant
            alive == strings::texts(live@),
            windows@.len() == all.len() == count,
            forall|k: int| 0 <= k < i ==> window_kept(#[trigger] windows@[k], all[k], alive),
            forall|k: int| i <= k < count ==> #[trigger] windows@[k] == all[k],
            strings::texts(dead@) == start + dead_in_session(all.take(i as int), alive),
    {
        assert(all.take(i + 1).drop_last() == all.take(i as int));
        assert(all.take(i + 1).last() == all[i as int]);
        retain_in_window(&mut windows[i].panes, live, dead);
        assert(strings::texts(dead@) =~= start + dead_in_session(all.take(i + 1), alive));
    }
    assert(all.take(all.len() as int) == all);
}

/// Drops the panes in which no agent runs any more, and lists them.
fn retain_live<A>(sessions: &mut Vec<SessionInfo<A>>, live: &Vec<String>) -> (dead: Vec<String>)
    ensures
        sessions_kept(final(sessions)@, old(sessions)@, strings::texts(live@)),
        strings::texts(dead@) == dead_panes(old(sessions)@, strings::texts(live@)),
{
    let ghost all = sessions@;
    let ghost alive = strings::texts(live@);
    let mut dead: Vec<String> = Vec::new();
    assert(strings::texts(dead@) =~= dead_panes(all.take(0), alive));
    let count: usize = sessions.len();
    for i in 0..count
        invariant
            alive == strings::texts(live@),
            sessions@.len() == all.len() == count,
            forall|k: int| 0 <= k < i ==> session_kept(#[trigger] sessions@[k], all[k], alive),
            forall|k: int| i <= k < count ==> #[trigger] sessions@[k] == all[k],
            strings::texts(dead@) == dead_panes(all.take(i as int), alive),
    {
        assert(all.take(i + 1).drop_last() == all.take(i as int));
        assert(all.take(i + 1).last() == all[i as int]);
        retain_in_windows(&mut sessions[i].windows, live, &mut dead);
    }
    assert(all.take(all.len() as int) == all);
    dead
}

// ---- the cache ----

/// How to ask tmux for its sessions.
#[derive(Clone, Copy, Debug, PartialEq, Eq, Structural)]
pub enum SessionQuery {
    /// With a scan of the process tree, and a sweep of background shells that
    /// are gone.
    WithProcesses,
    /// With the process tree as it was last scanned.
    WithCachedProcesses,
    /// Without the process tree, which was never scanned.
    WithoutProcesses,
}

/// What the cache waits for.
#[derive(Clone, Copy, Debug, PartialEq, Eq, Structural)]
pub enum Phase {
    Idle,
    Sessions { query: SessionQuery },
    Ports,
    Clearing,
    Sidebars,
}

/// What the cache asks for.
pub enum SnapshotAction {
    /// The sessions.
    QuerySessions { query: SessionQuery },
    /// A scan of processes and ports.
    ScanPorts,
    /// To clear what tmux remembers of the agents in these panes.
    ClearMetadata { panes: Vec<String> },
    /// What tmux says of the sidebars.
    QuerySidebars,
    /// Nothing: the snapshot can be sent.
    Respond,
}

/// What comes back.
pub enum SnapshotEvent<A, P, N> {
    Sessions { sessions: Vec<SessionInfo<A>>, processes: Option<P> },
    Scanned { scan: Option<PaneProcessSnapshot<N>> },
    Cleared,
    Sidebars { output: Option<String> },
}

/// What the daemon keeps. `P` is a scan of the process tree.
pub struct SnapshotCache<A, P, N> {
    pub sessions: Vec<SessionInfo<A>>,
    pub processes: Option<P>,
    pub last_tmux_refresh: Option<u64>,
    pub last_process_refresh: Option<u64>,
    pub pane_processes: Option<PaneProcessSnapshot<N>>,
    pub last_port_refresh: Option<u64>,
    pub sidebar_visibility: TextMap<SidebarVisibility>,
    /// Counts the refreshes, and comes round.
    pub generation: u64,
    pub dirty: bool,
    pub phase: Phase,
}

/// The snapshot as it is sent.
pub struct SnapshotResponse<'a, A, N> {
    pub version: u8,
    pub generation: u64,
    /// Whether the snapshot is still the one that the client has.
    pub unchanged: bool,
    /// The sessions, unless they are unchanged.
    pub sessions: Option<&'a Vec<SessionInfo<A>>>,
    /// The last scan, if there was one, unless it is unchanged.
    pub pane_processes: Option<&'a PaneProcessSnapshot<N>>,
    pub sidebar_visibility: &'a TextMap<SidebarVisibility>,
}

impl<'a, A, N> SnapshotResponse<'a, A, N> {
    /// Whether this is what `cache` answers to a client that has the snapshot of
    /// `client_generation`.
    pub open spec fn answers<P>(
        self,
        cache: SnapshotCache<A, P, N>,
        client_generation: u64,
    ) -> bool {
        &&& self.version == runtime::PROTOCOL_VERSION
        &&& self.generation == cache.generation
        &&& self.unchanged == cache.is_known_to(client_generation)
        &&& self.sessions == (if self.unchanged {
            None
        } else {
            Some(&cache.sessions)
        })
        &&& match self.pane_processes {
            Some(found) => !self.unchanged && cache.pane_processes == Some(*found),
            None => self.unchanged || cache.pane_processes is None,
        }
        &&& *self.sidebar_visibility == cache.sidebar_visibility
    }
}

/// The generation after this one.
pub open spec fn next_generation(generation: u64) -> u64 {
    if generation < u64::MAX {
        (generation + 1) as u64
    } else {
        0
    }
}

impl<A, P, N> SnapshotCache<A, P, N> {
    /// A cache that knows nothing yet. Ports are scanned only after their
    /// interval, so that the first answer does not wait for it.
    pub fn new(now: u64) -> (cache: SnapshotCache<A, P, N>)
        ensures
            cache.sessions@.len() == 0,
            cache.processes is None,
            cache.last_tmux_refresh is None,
            cache.last_process_refresh is None,
            cache.pane_processes is None,
            cache.last_port_refresh == Some(now),
            cache.sidebar_visibility@ == Map::<Seq<char>, SidebarVisibility>::empty(),
            cache.generation == 0,
            cache.dirty,
            cache.phase == Phase::Idle,
    {
        SnapshotCache {
            sessions: Vec::new(),
            processes: None,
            last_tmux_refresh: None,
            last_process_refresh: None,
            pane_processes: None,
            last_port_refresh: Some(now),
            sidebar_visibility: TextMap::new(),
            generation: 0,
            dirty: true,
            phase: Phase::Idle,
        }
    }

    /// Takes the snapshot for outdated.
    pub fn invalidate(&mut self)
        ensures
            *final(self) == (SnapshotCache { dirty: true, ..*old(self) }),
    {
        self.dirty = true;
    }

    /// Whether a client has this snapshot already.
    pub open spec fn is_known_to(self, client_generation: u64) -> bool {
        client_generation == self.generation
    }

    /// Whether a request finds the snapshot too old.
    pub open spec fn is_stale(self, now: u64) -> bool {
        self.dirty || clock::is_due(
            self.last_tmux_refresh,
            now,
            shared_snapshot::TMUX_FALLBACK_REFRESH_INTERVAL,
        )
    }

    /// How the sessions are asked for.
    pub open spec fn query_at(self, now: u64) -> SessionQuery {
        if clock::is_due(
            self.last_process_refresh,
            now,
            shared_snapshot::PROCESS_REFRESH_INTERVAL,
        ) {
            SessionQuery::WithProcesses
        } else if self.processes is Some {
            SessionQuery::WithCachedProcesses
        } else {
            SessionQuery::WithoutProcesses
        }
    }

    /// Whether ports are scanned.
    pub open spec fn scans_ports(self, now: u64) -> bool {
        clock::is_due(self.last_port_refresh, now, shared_snapshot::PORT_REFRESH_INTERVAL)
    }

    /// Takes a request for the snapshot: one that is too old is first found out
    /// anew.
    pub fn begin(&mut self, now: u64) -> (action: SnapshotAction)
        ensures
            old(self).is_stale(now) ==> action == (SnapshotAction::QuerySessions {
                query: old(self).query_at(now),
            }) && *final(self) == (SnapshotCache {
                phase: Phase::Sessions { query: old(self).query_at(now) },
                ..*old(self)
            }),
            !old(self).is_stale(now) ==> action == SnapshotAction::Respond && *final(self) == (
            SnapshotCache { phase: Phase::Idle, ..*old(self) }),
    {
        if self.dirty || clock::due(
            self.last_tmux_refresh,
            now,
            shared_snapshot::TMUX_FALLBACK_REFRESH_INTERVAL,
        ) {
            let query = if clock::due(
                self.last_process_refresh,
                now,
                shared_snapshot::PROCESS_REFRESH_INTERVAL,
            ) {
                SessionQuery::WithProcesses
            } else if self.processes.is_some() {
                SessionQuery::WithCachedProcesses
            } else {
                SessionQuery::WithoutProcesses
            };
            self.phase = Phase::Sessions { query };
            SnapshotAction::QuerySessions { query }
        } else {
            self.phase = Phase::Idle;
            SnapshotAction::Respond
        }
    }

    /// Whether an event is what the cache waits for.
    pub open spec fn awaits(self, event: SnapshotEvent<A, P, N>) -> bool {
        match event {
            SnapshotEvent::Sessions { .. } => self.phase is Sessions,
            SnapshotEvent::Scanned { .. } => self.phase is Ports,
            SnapshotEvent::Cleared => self.phase is Clearing,
            SnapshotEvent::Sidebars { .. } => self.phase is Sidebars,
        }
    }

    /// Whether this cache follows from `before` by the sessions that tmux named.
    /// A scan that came with them counts, unless it failed, where it was asked
    /// for.
    pub open spec fn took_sessions(
        self,
        before: Self,
        sessions: Vec<SessionInfo<A>>,
        processes: Option<P>,
        now: u64,
    ) -> bool {
        let scanned = before.phase->query == SessionQuery::WithProcesses;
        self == SnapshotCache {
            sessions,
            processes: if scanned && processes is Some {
                processes
            } else {
                before.processes
            },
            last_process_refresh: if scanned {
                Some(now)
            } else {
                before.last_process_refresh
            },
            last_tmux_refresh: if before.scans_ports(now) {
                before.last_tmux_refresh
            } else {
                Some(now)
            },
            phase: if before.scans_ports(now) {
                Phase::Ports
            } else {
                Phase::Sidebars
            },
            ..before
        }
    }

    /// The cache after ports were dealt with.
    pub open spec fn past_ports(self, now: u64) -> Self {
        SnapshotCache {
            last_port_refresh: Some(now),
            last_tmux_refresh: Some(now),
            phase: Phase::Sidebars,
            ..self
        }
    }

    /// Whether this cache follows from `before` by a scan: only the panes in
    /// which an agent still runs are kept.
    pub open spec fn took_scan(self, before: Self, scan: PaneProcessSnapshot<N>) -> bool {
        &&& sessions_kept(
            self.sessions@,
            before.sessions@,
            strings::texts(scan.live_agent_panes@),
        )
        &&& self == SnapshotCache {
            sessions: self.sessions,
            pane_processes: Some(scan),
            phase: Phase::Clearing,
            ..before
        }
    }

    /// Whether this cache follows from `before` by what tmux said of the
    /// sidebars, which completes the next generation.
    pub open spec fn took_sidebars(self, before: Self, output: Option<Seq<char>>) -> bool {
        &&& self.sidebar_visibility@ == visibility::sidebars_told(output)
        &&& self == SnapshotCache {
            sidebar_visibility: self.sidebar_visibility,
            generation: next_generation(before.generation),
            dirty: false,
            phase: Phase::Idle,
            ..before
        }
    }

    /// Whether this cache follows from `before` by an event at `now`.
    pub open spec fn follows(
        self,
        before: Self,
        event: SnapshotEvent<A, P, N>,
        now: u64,
    ) -> bool {
        if !before.awaits(event) {
            self == before
        } else {
            match event {
                SnapshotEvent::Sessions { sessions, processes } => self.took_sessions(
                    before,
                    sessions,
                    processes,
                    now,
                ),
                SnapshotEvent::Scanned { scan } => match scan {
                    Some(found) => self.took_scan(before, found),
                    None => self == before.past_ports(now),
                },
                SnapshotEvent::Cleared => self == before.past_ports(now),
                SnapshotEvent::Sidebars { output } => self.took_sidebars(
                    before,
                    strings::opt_text(output),
                ),
            }
        }
    }

    /// Whether `action` is what `before` asks for after an event at `now`.
    pub open spec fn asks(
        before: Self,
        event: SnapshotEvent<A, P, N>,
        now: u64,
        action: SnapshotAction,
    ) -> bool {
        match event {
            SnapshotEvent::Sessions { .. } => action == if before.scans_ports(now) {
                SnapshotAction::ScanPorts
            } else {
                SnapshotAction::QuerySidebars
            },
            SnapshotEvent::Scanned { scan } => match scan {
                Some(found) => action matches SnapshotAction::ClearMetadata { panes }
                    && strings::texts(panes@) == dead_panes(
                    before.sessions@,
                    strings::texts(found.live_agent_panes@),
                ),
                None => action == SnapshotAction::QuerySidebars,
            },
            SnapshotEvent::Cleared => action == SnapshotAction::QuerySidebars,
            SnapshotEvent::Sidebars { .. } => action == SnapshotAction::Respond,
        }
    }

    /// Takes what came back, and says what is asked for next. An event that
    /// answers no question is ignored.
    pub fn resume(&mut self, event: SnapshotEvent<A, P, N>, now: u64) -> (next: Option<
        SnapshotAction,
    >)
        ensures
            final(self).follows(*old(self), event, now),
            match next {
                Some(action) => old(self).awaits(event) && Self::asks(
                    *old(self),
                    event,
                    now,
                    action,
                ),
                None => !old(self).awaits(event),
            },
    {
        match (self.phase, event) {
            (Phase::Sessions { query }, SnapshotEvent::Sessions { sessions, processes }) => {
                self.sessions = sessions;
                if query == SessionQuery::WithProcesses {
                    if processes.is_some() {
                        self.processes = processes;
                    }
                    self.last_process_refresh = Some(now);
                }
                if clock::due(
                    self.last_port_refresh,
                    now,
                    shared_snapshot::PORT_REFRESH_INTERVAL,
                ) {
                    self.phase = Phase::Ports;
                    Some(SnapshotAction::ScanPorts)
                } else {
                    self.last_tmux_refresh = Some(now);
                    self.phase = Phase::Sidebars;
                    Some(SnapshotAction::QuerySidebars)
                }
            },
            (Phase::Ports, SnapshotEvent::Scanned { scan }) => match scan {
                Some(found) => {
                    let panes = retain_live(&mut self.sessions, &found.live_agent_panes);
                    self.pane_processes = Some(found);
                    self.phase = Phase::Clearing;
                    Some(SnapshotAction::ClearMetadata { panes })
                },
                None => {
                    self.pass_ports(now);
                    Some(SnapshotAction::QuerySidebars)
                },
            },
            (Phase::Clearing, SnapshotEvent::Cleared) => {
                self.pass_ports(now);
                Some(SnapshotAction::QuerySidebars)
            },
            (Phase::Sidebars, SnapshotEvent::Sidebars { output }) => {
                self.sidebar_visibility = match &output {
                    Some(text) => visibility::query_sidebar_visibility(Some(text.as_str())),
                    None => visibility::query_sidebar_visibility(None),
                };
                self.generation = self.generation.wrapping_add(1);
                self.dirty = false;
                self.phase = Phase::Idle;
                Some(SnapshotAction::Respond)
            },
            _ => None,
        }
    }

    /// Records that ports were dealt with.
    fn pass_ports(&mut self, now: u64)
        ensures
            *final(self) == old(self).past_ports(now),
    {
        self.last_port_refresh = Some(now);
        self.last_tmux_refresh = Some(now);
        self.phase = Phase::Sidebars;
    }

    /// The answer to a client that has the snapshot of `client_generation`.
    pub fn snapshot(&self, client_generation: u64) -> (response: SnapshotResponse<'_, A, N>)
        ensures
            response.answers(*self, client_generation),
    {
        let unchanged = client_generation == self.generation;
        SnapshotResponse {
            version: runtime::PROTOCOL_VERSION,
            generation: self.generation,
            unchanged,
            sessions: if unchanged {
                None
            } else {
                Some(&self.sessions)
            },
            pane_processes: if unchanged {
                None
            } else {
                self.pane_processes.as_ref()
            },
            sidebar_visibility: &self.sidebar_visibility,
        }
    }
}

// ---- laws ----

/// How many events a refresh may still take.
pub open spec fn events_left(phase: Phase) -> nat {
    match phase {
        Phase::Sessions { .. } => 4,
        Phase::Ports => 3,
        Phase::Clearing => 2,
        Phase::Sidebars => 1,
        Phase::Idle => 0,
    }
}

/// Every event that answers a question brings a refresh closer to its end, so
/// that it takes at most four of them.
pub proof fn refreshes_end<A, P, N>(
    before: SnapshotCache<A, P, N>,
    after: SnapshotCache<A, P, N>,
    event: SnapshotEvent<A, P, N>,
    now: u64,
)
    requires
        after.follows(before, event, now),
    ensures
        before.awaits(event) ==> events_left(after.phase) < events_left(before.phase),
        !before.awaits(event) ==> after == before,
{
}

/// Only the end of a refresh makes a new generation, and it always differs from
/// the one before. It also settles every outdating that came before.
pub proof fn only_a_finished_refresh_counts<A, P, N>(
    before: SnapshotCache<A, P, N>,
    after: SnapshotCache<A, P, N>,
    event: SnapshotEvent<A, P, N>,
    now: u64,
)
    requires
        after.follows(before, event, now),
        before.awaits(event),
    ensures
        after.phase == Phase::Idle <==> after.generation != before.generation,
        after.phase == Phase::Idle ==> !after.dirty,
        after.phase != Phase::Idle ==> after.dirty == before.dirty,
{
}

/// Between two refreshes the daemon answers at once: for the length of the
/// fallback interval after a refresh, a request finds nothing to ask, unless
/// the snapshot was taken for outdated.
pub proof fn fresh_snapshots_are_served_at_once<A, P, N>(
    before: SnapshotCache<A, P, N>,
    after: SnapshotCache<A, P, N>,
    event: SnapshotEvent<A, P, N>,
    refreshed: u64,
    now: u64,
    later: u64,
)
    requires
        after.follows(before, event, now),
        before.awaits(event),
        event is Sidebars,
        before.last_tmux_refresh == Some(refreshed),
    ensures
        clock::passed(later, refreshed) < shared_snapshot::TMUX_FALLBACK_REFRESH_INTERVAL
            ==> !after.is_stale(later),
        clock::passed(later, refreshed) >= shared_snapshot::TMUX_FALLBACK_REFRESH_INTERVAL
            ==> after.is_stale(later),
        (SnapshotCache { dirty: true, ..after }).is_stale(later),
        after.is_known_to(after.generation),
        !after.is_known_to(before.generation),
{
}

/// The first answer of a daemon neither waits for a scan of ports nor finds the
/// client up to date.
pub proof fn the_first_answer_is_quick_and_full<A, P, N>(
    fresh: SnapshotCache<A, P, N>,
    asked: SnapshotCache<A, P, N>,
    done: SnapshotCache<A, P, N>,
    sessions: Vec<SessionInfo<A>>,
    processes: Option<P>,
    output: Option<String>,
    started: u64,
    now: u64,
)
    requires
        fresh.last_port_refresh == Some(started),
        fresh.generation == 0,
        fresh.phase is Sessions,
        clock::passed(now, started) < shared_snapshot::PORT_REFRESH_INTERVAL,
        asked.follows(fresh, SnapshotEvent::Sessions { sessions, processes }, now),
        done.follows(asked, SnapshotEvent::Sidebars { output }, now),
    ensures
        asked.phase == Phase::Sidebars,
        done.phase == Phase::Idle,
        done.generation == 1,
        !done.is_known_to(0),
        done.sessions == sessions,
{
}

/// After a scan every pane that is kept has an agent, and every pane that was
/// there before is either kept or cleared.
pub proof fn scans_leave_no_dead_panes<A>(
    before: Seq<SessionInfo<A>>,
    after: Seq<SessionInfo<A>>,
    live: Seq<Seq<char>>,
    i: int,
    j: int,
    k: int,
)
    requires
        sessions_kept(after, before, live),
        0 <= i < before.len(),
        0 <= j < before[i].windows@.len(),
    ensures
        0 <= k < after[i].windows@[j].panes@.len() ==> is_live(
            live,
            after[i].windows@[j].panes@[k].pane_id@,
        ),
        0 <= k < before[i].windows@[j].panes@.len() ==> if is_live(
            live,
            before[i].windows@[j].panes@[k].pane_id@,
        ) {
            after[i].windows@[j].panes@.contains(before[i].windows@[j].panes@[k])
        } else {
            dead_panes(before, live).contains(before[i].windows@[j].panes@[k].pane_id@)
        },
{
    assert(session_kept(after[i], before[i], live));
    assert(window_kept(after[i].windows@[j], before[i].windows@[j], live));
    let panes = before[i].windows@[j].panes@;
    lemma_live_panes(panes, live, k);
    if 0 <= k < panes.len() && !is_live(live, panes[k].pane_id@) {
        lemma_dead_in_session(before[i].windows@, live, j, panes[k].pane_id@);
        lemma_dead_panes(before, live, i, panes[k].pane_id@);
    }
}

proof fn lemma_live_panes<A>(panes: Seq<PaneInfo<A>>, live: Seq<Seq<char>>, k: int)
    ensures
        0 <= k < live_panes(panes, live).len() ==> is_live(
            live,
            live_panes(panes, live)[k].pane_id@,
        ),
        0 <= k < panes.len() && is_live(live, panes[k].pane_id@) ==> live_panes(
            panes,
            live,
        ).contains(panes[k]),
        0 <= k < panes.len() && !is_live(live, panes[k].pane_id@) ==> dead_in_window(
            panes,
            live,
        ).contains(panes[k].pane_id@),
    decreases panes.len(),
{
    if panes.len() > 0 {
        let head = panes.drop_last();
        lemma_live_panes(head, live, k);
        let kept = live_panes(panes, live);
        let dead = dead_in_window(panes, live);
        if 0 <= k < head.len() {
            assert(head[k] == panes[k]);
            if is_live(live, panes[k].pane_id@) {
                let held = live_panes(head, live);
                let at = choose|at: int| 0 <= at < held.len() && held[at] == panes[k];
                assert(kept[at] == panes[k]);
            } else {
                let gone = dead_in_window(head, live);
                let at = choose|at: int| 0 <= at < gone.len() && gone[at] == panes[k].pane_id@;
                assert(dead[at] == panes[k].pane_id@);
            }
        } else if k == head.len() {
            if is_live(live, panes[k].pane_id@) {
                assert(kept[kept.len() - 1] == panes[k]);
            } else {
                assert(dead[dead.len() - 1] == panes[k].pane_id@);
            }
        }
    }
}

proof fn lemma_dead_in_session<A>(
    windows: Seq<WindowInfo<A>>,
    live: Seq<Seq<char>>,
    j: int,
    id: Seq<char>,
)
    requires
        0 <= j < windows.len(),
        dead_in_window(windows[j].panes@, live).contains(id),
    ensures
        dead_in_session(windows, live).contains(id),
    decreases windows.len(),
{
    let head = windows.drop_last();
    let before = dead_in_session(head, live);
    let own = dead_in_window(windows.last().panes@, live);
    let all = dead_in_session(windows, live);
    if j < head.len() {
        lemma_dead_in_session(head, live, j, id);
        let at = choose|at: int| 0 <= at < before.len() && before[at] == id;
        assert(all[at] == id);
    } else {
        let at = choose|at: int| 0 <= at < own.len() && own[at] == id;
        assert(all[before.len() + at] == id);
    }
}

proof fn lemma_dead_panes<A>(
    sessions: Seq<SessionInfo<A>>,
    live: Seq<Seq<char>>,
    i: int,
    id: Seq<char>,
)
    requires
        0 <= i < sessions.len(),
        dead_in_session(sessions[i].windows@, live).contains(id),
    ensures
        dead_panes(sessions, live).contains(id),
    decreases sessions.len(),
{
    let head = sessions.drop_last();
    let before = dead_panes(head, live);
    let own = dead_in_session(sessions.last().windows@, live);
    let all = dead_panes(sessions, live);
    if i < head.len() {
        lemma_dead_panes(head, live, i, id);
        let at = choose|at: int| 0 <= at < before.len() && before[at] == id;
        assert(all[at] == id);
    } else {
        let at = choose|at: int| 0 <= at < own.len() && own[at] == id;
        assert(all[before.len() + at] == id);
    }
}

/// A request finds the snapshot too old where it was taken for outdated, was never
/// refreshed, or was refreshed two seconds ago or longer; and in no other case.
pub proof fn snapshots_are_stale_after_two_seconds<A, P, N>(
    cache: SnapshotCache<A, P, N>,
    refreshed: u64,
    now: u64,
)
    requires
        refreshed <= now,
    ensures
        cache.dirty ==> cache.is_stale(now),
        cache.last_tmux_refresh is None ==> cache.is_stale(now),
        !cache.dirty && cache.last_tmux_refresh == Some(refreshed) ==> (cache.is_stale(now)
            <==> now - refreshed >= 2 * clock::SECOND),
{
}

/// The process tree is scanned with the sessions where it never was, or was two
/// seconds ago or longer; before that the last scan serves, if there is one. Ports
/// are scanned once a minute.
pub proof fn scans_come_at_their_intervals<A, P, N>(
    cache: SnapshotCache<A, P, N>,
    processes: u64,
    ports: u64,
    now: u64,
)
    requires
        processes <= now,
        ports <= now,
    ensures
        cache.last_process_refresh is None ==> cache.query_at(now) == SessionQuery::WithProcesses,
        cache.last_process_refresh == Some(processes) ==> {
            &&& cache.query_at(now) == SessionQuery::WithProcesses <==> now - processes >= 2
                * clock::SECOND
            &&& cache.query_at(now) == SessionQuery::WithCachedProcesses <==> now - processes < 2
                * clock::SECOND && cache.processes is Some
            &&& cache.query_at(now) == SessionQuery::WithoutProcesses <==> now - processes < 2
                * clock::SECOND && cache.processes is None
        },
        cache.last_port_refresh == Some(ports) ==> (cache.scans_ports(now) <==> now - ports >= 60
            * clock::SECOND),
        cache.last_port_refresh is None ==> cache.scans_ports(now),
{
}

/// The sessions that tmux names replace those that were known. A process tree
/// that was asked for replaces the last one, unless the scan failed, and is not
/// asked for again within two seconds either way; a tree that was not asked for
/// changes nothing.
pub proof fn new_sessions_replace_the_old<A, P, N>(
    before: SnapshotCache<A, P, N>,
    after: SnapshotCache<A, P, N>,
    sessions: Vec<SessionInfo<A>>,
    processes: Option<P>,
    now: u64,
    later: u64,
)
    requires
        before.phase is Sessions,
        after.follows(before, SnapshotEvent::Sessions { sessions, processes }, now),
        now <= later,
    ensures
        after.sessions == sessions,
        before.phase->query == SessionQuery::WithProcesses ==> {
            &&& processes is Some ==> after.processes == processes
            &&& processes is None ==> after.processes == before.processes
            &&& after.query_at(later) == SessionQuery::WithProcesses <==> later - now >= 2
                * clock::SECOND
        },
        before.phase->query != SessionQuery::WithProcesses ==> after.processes == before.processes
            && after.last_process_refresh == before.last_process_refresh,
        after.phase == (if before.scans_ports(now) {
            Phase::Ports
        } else {
            Phase::Sidebars
        }),
        after.last_tmux_refresh == (if before.scans_ports(now) {
            before.last_tmux_refresh
        } else {
            Some(now)
        }),
        after.dirty == before.dirty,
        after.generation == before.generation,
        after.pane_processes == before.pane_processes,
        after.sidebar_visibility == before.sidebar_visibility,
        after.last_port_refresh == before.last_port_refresh,
{
}

/// A scan of ports that worked replaces the last one, and one that failed changes
/// nothing; either way ports are not scanned again within a minute, and what was
/// found out is fresh from then on.
pub proof fn port_scans_are_kept_for_a_minute<A, P, N>(
    before: SnapshotCache<A, P, N>,
    scanned: SnapshotCache<A, P, N>,
    after: SnapshotCache<A, P, N>,
    scan: Option<PaneProcessSnapshot<N>>,
    now: u64,
    later: u64,
)
    requires
        before.phase == Phase::Ports,
        scanned.follows(before, SnapshotEvent::Scanned { scan }, now),
        scan is None ==> after == scanned,
        scan is Some ==> after.follows(scanned, SnapshotEvent::Cleared, now),
        now <= later,
    ensures
        after.phase == Phase::Sidebars,
        scan is Some ==> after.pane_processes == scan,
        scan is None ==> after.pane_processes == before.pane_processes && after.sessions
            == before.sessions,
        after.scans_ports(later) <==> later - now >= 60 * clock::SECOND,
        after.last_tmux_refresh == Some(now),
        after.processes == before.processes,
        after.last_process_refresh == before.last_process_refresh,
        after.generation == before.generation,
        after.dirty == before.dirty,
        after.sidebar_visibility == before.sidebar_visibility,
{
}

/// What tmux says of the sidebars completes the next generation, which comes round
/// after the last, and changes nothing else that is known.
pub proof fn sidebars_complete_a_generation<A, P, N>(
    before: SnapshotCache<A, P, N>,
    after: SnapshotCache<A, P, N>,
    output: Option<String>,
    now: u64,
    client: u64,
)
    requires
        before.phase == Phase::Sidebars,
        after.follows(before, SnapshotEvent::Sidebars { output }, now),
    ensures
        before.generation < u64::MAX ==> after.generation == before.generation + 1,
        before.generation == u64::MAX ==> after.generation == 0,
        !after.dirty,
        after.phase == Phase::Idle,
        after.sidebar_visibility@ == visibility::sidebars_told(strings::opt_text(output)),
        after.sessions == before.sessions,
        after.processes == before.processes,
        after.pane_processes == before.pane_processes,
        after.last_tmux_refresh == before.last_tmux_refresh,
        after.last_process_refresh == before.last_process_refresh,
        after.last_port_refresh == before.last_port_refresh,
        after.is_known_to(client) <==> client == after.generation,
{
}

/// A pane is kept or cleared by itself: panes are told apart one by one, and those
/// that stay keep their order.
pub proof fn panes_are_told_apart_one_by_one<A>(
    left: Seq<PaneInfo<A>>,
    right: Seq<PaneInfo<A>>,
    pane: PaneInfo<A>,
    live: Seq<Seq<char>>,
)
    ensures
        live_panes(left + right, live) == live_panes(left, live) + live_panes(right, live),
        dead_in_window(left + right, live) == dead_in_window(left, live) + dead_in_window(
            right,
            live,
        ),
        live.contains(pane.pane_id@) ==> live_panes(seq![pane], live) == seq![pane]
            && dead_in_window(seq![pane], live).len() == 0,
        !live.contains(pane.pane_id@) ==> live_panes(seq![pane], live).len() == 0
            && dead_in_window(seq![pane], live) == seq![pane.pane_id@],
    decreases right.len(),
{
    reveal_with_fuel(live_panes, 2);
    reveal_with_fuel(dead_in_window, 2);
    assert(seq![pane].drop_last() =~= Seq::<PaneInfo<A>>::empty());
    assert(Seq::<PaneInfo<A>>::empty().push(pane) =~= seq![pane]);
    if live.contains(pane.pane_id@) {
        assert(live_panes(seq![pane], live) =~= seq![pane]);
    } else {
        assert(dead_in_window(seq![pane], live) =~= seq![pane.pane_id@]);
    }
    if right.len() == 0 {
        assert(left + right =~= left);
        assert(live_panes(left, live) + live_panes(right, live) =~= live_panes(left, live));
        assert(dead_in_window(left, live) + dead_in_window(right, live) =~= dead_in_window(
            left,
            live,
        ));
    } else {
        panes_are_told_apart_one_by_one(left, right.drop_last(), pane, live);
        assert((left + right).drop_last() =~= left + right.drop_last());
        assert((left + right).last() == right.last());
        assert(live_panes(left + right, live) =~= live_panes(left, live) + live_panes(right, live));
        assert(dead_in_window(left + right, live) =~= dead_in_window(left, live)
            + dead_in_window(right, live));
    }
}

/// Nothing but panes in which no agent runs is cleared.
pub proof fn live_panes_are_not_cleared<A>(
    sessions: Seq<SessionInfo<A>>,
    live: Seq<Seq<char>>,
    k: int,
)
    requires
        0 <= k < dead_panes(sessions, live).len(),
    ensures
        !live.contains(dead_panes(sessions, live)[k]),
    decreases sessions.len(),
{
    let before = dead_panes(sessions.drop_last(), live);
    if k < before.len() {
        live_panes_are_not_cleared(sessions.drop_last(), live, k);
    } else {
        lemma_session_clears_dead(sessions.last().windows@, live, k - before.len());
    }
}

proof fn lemma_session_clears_dead<A>(windows: Seq<WindowInfo<A>>, live: Seq<Seq<char>>, k: int)
    requires
        0 <= k < dead_in_session(windows, live).len(),
    ensures
        !live.contains(dead_in_session(windows, live)[k]),
    decreases windows.len(),
{
    let before = dead_in_session(windows.drop_last(), live);
    if k < before.len() {
        lemma_session_clears_dead(windows.drop_last(), live, k);
    } else {
        lemma_window_clears_dead(windows.last().panes@, live, k - before.len());
    }
}

proof fn lemma_window_clears_dead<A>(panes: Seq<PaneInfo<A>>, live: Seq<Seq<char>>, k: int)
    requires
        0 <= k < dead_in_window(panes, live).len(),
    ensures
        !live.contains(dead_in_window(panes, live)[k]),
    decreases panes.len(),
{
    if k < dead_in_window(panes.drop_last(), live).len() {
        lemma_window_clears_dead(panes.drop_last(), live, k);
    }
}

/// A client is told the generation and the sidebars in any case, and the sessions
/// and the last scan exactly where it has those of another generation.
pub proof fn clients_are_told_what_they_lack<A, P, N>(
    response: SnapshotResponse<'_, A, N>,
    cache: SnapshotCache<A, P, N>,
    client: u64,
)
    requires
        response.answers(cache, client),
    ensures
        response.version == 2,
        response.generation == cache.generation,
        *response.sidebar_visibility == cache.sidebar_visibility,
        client == cache.generation ==> response.unchanged && response.sessions is None
            && response.pane_processes is None,
        client != cache.generation ==> {
            &&& !response.unchanged
            &&& response.sessions is Some
            &&& *response.sessions->0 == cache.sessions
            &&& response.pane_processes is Some <==> cache.pane_processes is Some
            &&& response.pane_processes is Some ==> *response.pane_processes->0
                == cache.pane_processes->0
        },
{
}

/// A refresh asks its questions in this order: the sessions, then a scan of ports
/// where the last one is a minute old, then that dead panes are cleared, and then
/// the sidebars, after which it is answered.
pub proof fn refreshes_ask_in_order<A, P, N>(
    before: SnapshotCache<A, P, N>,
    event: SnapshotEvent<A, P, N>,
    scanned: u64,
    now: u64,
    action: SnapshotAction,
)
    requires
        SnapshotCache::asks(before, event, now, action),
        before.last_port_refresh == Some(scanned),
        scanned <= now,
    ensures
        event is Sessions && now - scanned >= 60 * clock::SECOND ==> action
            == SnapshotAction::ScanPorts,
        event is Sessions && now - scanned < 60 * clock::SECOND ==> action
            == SnapshotAction::QuerySidebars,
        event matches SnapshotEvent::Scanned { scan } ==> (scan is None ==> action
            == SnapshotAction::QuerySidebars) && (scan is Some ==> action is ClearMetadata
            && strings::texts(action->panes@) == dead_panes(
            before.sessions@,
            strings::texts(scan->0.live_agent_panes@),
        )),
        event is Cleared ==> action == SnapshotAction::QuerySidebars,
        event is Sidebars ==> action == SnapshotAction::Respond,
{
}

/// A scan takes the panes without an agent out of every window of the sessions
/// that were known, and leaves the windows and sessions themselves in place and
/// under their names.
pub proof fn scans_take_dead_panes_out<A, P, N>(
    before: SnapshotCache<A, P, N>,
    after: SnapshotCache<A, P, N>,
    scan: PaneProcessSnapshot<N>,
    now: u64,
    i: int,
    j: int,
)
    requires
        before.phase == Phase::Ports,
        after.follows(before, SnapshotEvent::Scanned { scan: Some(scan) }, now),
        0 <= i < before.sessions@.len(),
        0 <= j < before.sessions@[i].windows@.len(),
    ensures
        after.sessions@.len() == before.sessions@.len(),
        after.sessions@[i].session_name == before.sessions@[i].session_name,
        after.sessions@[i].windows@.len() == before.sessions@[i].windows@.len(),
        after.sessions@[i].windows@[j].window_name == before.sessions@[i].windows@[j].window_name,
        after.sessions@[i].windows@[j].panes@ == live_panes(
            before.sessions@[i].windows@[j].panes@,
            strings::texts(scan.live_agent_panes@),
        ),
        after.phase == Phase::Clearing,
        after.pane_processes == Some(scan),
        after.last_port_refresh == before.last_port_refresh,
        after.last_tmux_refresh == before.last_tmux_refresh,
{
    let live = strings::texts(scan.live_agent_panes@);
    assert(session_kept(after.sessions@[i], before.sessions@[i], live));
    assert(window_kept(after.sessions@[i].windows@[j], before.sessions@[i].windows@[j], live));
}

} // verus!
