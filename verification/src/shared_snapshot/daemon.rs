//! How the daemon becomes the only one, and what it does next.

use vstd::prelude::*;

use crate::clock;
use crate::shared_snapshot;
#[allow(unused_imports)]
use crate::shared_snapshot::cache;
use crate::shared_snapshot::cache::Phase;
use crate::shared_snapshot::cache::SnapshotAction;
use crate::shared_snapshot::cache::SnapshotCache;
use crate::shared_snapshot::cache::SnapshotEvent;
use crate::shared_snapshot::request;
use crate::shared_snapshot::request::Request;
#[allow(unused_imports)]
use crate::shared_snapshot::visibility::SidebarVisibility;
use crate::text::numbers;
use crate::text::strings;

verus! {

// ---- the lock ----

/// A daemon on its way to the lock file, at its first or its last attempt.
#[derive(Clone, Copy, Debug, PartialEq, Eq, Structural)]
pub enum LockAttempt {
    /// Creates the file, which must not exist.
    Creating { last: bool },
    /// Writes its process id into the new file.
    Writing,
    /// Reads the file of another daemon.
    Reading { last: bool },
    /// Asks whether that daemon still runs.
    Asking { pid: u32, last: bool },
    /// Removes the file of a daemon that is gone.
    Removing { last: bool },
    /// Has the lock.
    Acquired,
    /// Leaves the lock to another daemon.
    Busy,
    /// Gives up with an error.
    Failed,
}

/// What to do about the lock file.
#[derive(Clone, Copy, Debug, PartialEq, Eq, Structural)]
pub enum LockStep {
    Create,
    WriteOwner,
    ReadOwner,
    AskAlive { pid: u32 },
    Remove,
    Done { acquired: bool },
    Fail,
}

/// What came of it.
pub enum LockEvent {
    /// It was done.
    Done,
    /// The file exists already.
    Exists,
    /// It failed otherwise.
    Failed,
    /// The file holds this text, if it could be read.
    Owner { text: Option<String> },
    /// Whether the other daemon runs.
    Alive { alive: bool },
}

/// The process id in the text of a lock file: a positive number.
pub open spec fn owner_of(text: Option<Seq<char>>) -> Option<nat> {
    match text {
        Some(found) => match numbers::parsed(strings::trimmed(found), i32::MAX as nat) {
            Some(pid) => if pid > 0 {
                Some(pid)
            } else {
                None
            },
            None => None,
        },
        None => None,
    }
}

/// Reads the process id in the text of a lock file.
fn read_owner(text: &Option<String>) -> (pid: Option<u32>)
    ensures
        match pid {
            Some(found) => owner_of(strings::opt_text(*text)) == Some(found as nat),
            None => owner_of(strings::opt_text(*text)) is None,
        },
{
    match text {
        Some(found) => match numbers::parse_unsigned(
            strings::trim(found.as_str()),
            i32::MAX as u64,
        ) {
            Some(pid) => if pid > 0 {
                Some(pid as u32)
            } else {
                None
            },
            None => None,
        },
        None => None,
    }
}

impl LockAttempt {
    /// What to do next.
    pub open spec fn next(self) -> LockStep {
        match self {
            LockAttempt::Creating { .. } => LockStep::Create,
            LockAttempt::Writing => LockStep::WriteOwner,
            LockAttempt::Reading { .. } => LockStep::ReadOwner,
            LockAttempt::Asking { pid, .. } => LockStep::AskAlive { pid },
            LockAttempt::Removing { .. } => LockStep::Remove,
            LockAttempt::Acquired => LockStep::Done { acquired: true },
            LockAttempt::Busy => LockStep::Done { acquired: false },
            LockAttempt::Failed => LockStep::Fail,
        }
    }

    /// What to do next.
    pub fn step(&self) -> (step: LockStep)
        ensures
            step == self.next(),
    {
        match self {
            LockAttempt::Creating { .. } => LockStep::Create,
            LockAttempt::Writing => LockStep::WriteOwner,
            LockAttempt::Reading { .. } => LockStep::ReadOwner,
            LockAttempt::Asking { pid, .. } => LockStep::AskAlive { pid: *pid },
            LockAttempt::Removing { .. } => LockStep::Remove,
            LockAttempt::Acquired => LockStep::Done { acquired: true },
            LockAttempt::Busy => LockStep::Done { acquired: false },
            LockAttempt::Failed => LockStep::Fail,
        }
    }

    /// The attempt after an event. The file of a daemon that runs is left alone;
    /// that of any other is removed, whether or not that works, and the lock is
    /// tried once more. An event that fits no question changes nothing.
    pub open spec fn after(self, event: LockEvent) -> LockAttempt {
        match (self, event) {
            (LockAttempt::Creating { .. }, LockEvent::Done) => LockAttempt::Writing,
            (LockAttempt::Creating { last }, LockEvent::Exists) => LockAttempt::Reading { last },
            (LockAttempt::Creating { .. }, LockEvent::Failed) => LockAttempt::Failed,
            (LockAttempt::Writing, LockEvent::Done) => LockAttempt::Acquired,
            (LockAttempt::Writing, LockEvent::Failed) => LockAttempt::Failed,
            (LockAttempt::Reading { last }, LockEvent::Owner { text }) => match owner_of(
                strings::opt_text(text),
            ) {
                Some(pid) => LockAttempt::Asking { pid: pid as u32, last },
                None => LockAttempt::Removing { last },
            },
            (LockAttempt::Asking { last, .. }, LockEvent::Alive { alive }) => if alive {
                LockAttempt::Busy
            } else {
                LockAttempt::Removing { last }
            },
            (LockAttempt::Removing { last }, LockEvent::Done) => if last {
                LockAttempt::Busy
            } else {
                LockAttempt::Creating { last: true }
            },
            _ => self,
        }
    }

    /// Takes an event.
    pub fn resume(self, event: LockEvent) -> (attempt: LockAttempt)
        ensures
            attempt == self.after(event),
    {
        match (self, event) {
            (LockAttempt::Creating { .. }, LockEvent::Done) => LockAttempt::Writing,
            (LockAttempt::Creating { last }, LockEvent::Exists) => LockAttempt::Reading { last },
            (LockAttempt::Creating { .. }, LockEvent::Failed) => LockAttempt::Failed,
            (LockAttempt::Writing, LockEvent::Done) => LockAttempt::Acquired,
            (LockAttempt::Writing, LockEvent::Failed) => LockAttempt::Failed,
            (LockAttempt::Reading { last }, LockEvent::Owner { text }) => match read_owner(&text) {
                Some(pid) => LockAttempt::Asking { pid, last },
                None => LockAttempt::Removing { last },
            },
            (LockAttempt::Asking { last, .. }, LockEvent::Alive { alive }) => if alive {
                LockAttempt::Busy
            } else {
                LockAttempt::Removing { last }
            },
            (LockAttempt::Removing { last }, LockEvent::Done) => if last {
                LockAttempt::Busy
            } else {
                LockAttempt::Creating { last: true }
            },
            _ => self,
        }
    }

    /// The attempt after several events.
    pub open spec fn reached(events: Seq<LockEvent>) -> LockAttempt
        decreases events.len(),
    {
        if events.len() == 0 {
            LockAttempt::Creating { last: false }
        } else {
            LockAttempt::reached(events.drop_last()).after(events.last())
        }
    }
}

/// Starts on the way to the lock.
pub fn acquire_lock() -> (attempt: LockAttempt)
    ensures
        attempt == LockAttempt::reached(Seq::empty()),
{
    LockAttempt::Creating { last: false }
}

// ---- the loop ----

/// What the daemon does next.
pub enum DaemonStep {
    /// Waits for a connection, for a second at most.
    Poll,
    /// Takes a connection.
    Accept,
    /// Reads a request.
    Read,
    /// Finds out what the snapshot needs.
    Work { action: SnapshotAction },
    /// Sends the snapshot to a client that has the one of this generation.
    Send { generation: u64 },
    /// Ends.
    Exit,
    /// Ends with an error.
    Fail,
}

/// What came of taking a connection.
#[derive(Clone, Copy, Debug, PartialEq, Eq, Structural)]
pub enum Accepted {
    Connection,
    /// There was none after all.
    WouldBlock,
    Failed,
}

/// What came of a step.
pub enum DaemonEvent<A, P, N> {
    /// A wait ended. `ready` counts the connections, and is negative where the
    /// wait failed or was interrupted.
    Polled { ready: i32, interrupted: bool },
    Accepted { outcome: Accepted },
    /// The bytes of a request, if they could be read.
    Request { bytes: Option<Vec<u8>> },
    Worked { event: SnapshotEvent<A, P, N> },
    Sent,
}

/// What the daemon waits for.
#[derive(Clone, Copy, Debug, PartialEq, Eq, Structural)]
pub enum DaemonStage {
    Polling,
    Accepting,
    Reading,
    Working { generation: u64 },
    Sending,
    Ended,
}

/// A running daemon.
pub struct Daemon<A, P, N> {
    pub cache: SnapshotCache<A, P, N>,
    /// When it was last asked for something, or started.
    pub last_request: u64,
    pub stage: DaemonStage,
}

/// The request that bytes hold, if there are any.
pub open spec fn request_in(bytes: Option<Vec<u8>>) -> Option<Request> {
    match bytes {
        Some(found) => request::decoded(found@),
        None => None,
    }
}

impl<A, P, N> Daemon<A, P, N> {
    /// A daemon that starts now, and waits for a connection.
    pub fn new(now: u64) -> (daemon: Daemon<A, P, N>)
        ensures
            daemon.last_request == now,
            daemon.stage == DaemonStage::Polling,
            daemon.cache.generation == 0,
            daemon.cache.dirty,
            daemon.cache.phase == Phase::Idle,
            daemon.cache.last_port_refresh == Some(now),
            daemon.cache.last_tmux_refresh is None,
            daemon.cache.last_process_refresh is None,
            daemon.cache.processes is None,
            daemon.cache.pane_processes is None,
            daemon.cache.sessions@.len() == 0,
            daemon.cache.sidebar_visibility@ == Map::<Seq<char>, SidebarVisibility>::empty(),
    {
        Daemon {
            cache: SnapshotCache::new(now),
            last_request: now,
            stage: DaemonStage::Polling,
        }
    }

    /// Whether an event is what the daemon waits for.
    pub open spec fn awaits(self, event: DaemonEvent<A, P, N>) -> bool {
        match event {
            DaemonEvent::Polled { .. } => self.stage == DaemonStage::Polling,
            DaemonEvent::Accepted { .. } => self.stage == DaemonStage::Accepting,
            DaemonEvent::Request { .. } => self.stage == DaemonStage::Reading,
            DaemonEvent::Worked { event } => self.stage is Working && self.cache.awaits(event),
            DaemonEvent::Sent => self.stage == DaemonStage::Sending,
        }
    }

    /// Whether nobody has asked for anything for long.
    pub open spec fn is_idle(self, now: u64) -> bool {
        clock::passed(now, self.last_request) >= shared_snapshot::DAEMON_IDLE_TIMEOUT
    }

    /// Whether this daemon and this step follow from `before` by a wait. An idle
    /// daemon ends with a wait in which nothing happens.
    pub open spec fn polled(
        self,
        before: Self,
        step: DaemonStep,
        ready: i32,
        interrupted: bool,
        now: u64,
    ) -> bool {
        if ready > 0 {
            step == DaemonStep::Accept && self == Daemon { stage: DaemonStage::Accepting, ..before }
        } else if ready < 0 && !interrupted {
            step == DaemonStep::Fail && self == Daemon { stage: DaemonStage::Ended, ..before }
        } else if ready == 0 && before.is_idle(now) {
            step == DaemonStep::Exit && self == Daemon { stage: DaemonStage::Ended, ..before }
        } else {
            step == DaemonStep::Poll && self == before
        }
    }

    /// Whether this daemon and this step follow from `before` by taking a
    /// connection, which counts as a request.
    pub open spec fn accepted(
        self,
        before: Self,
        step: DaemonStep,
        outcome: Accepted,
        now: u64,
    ) -> bool {
        match outcome {
            Accepted::Connection => step == DaemonStep::Read && self == Daemon {
                last_request: now,
                stage: DaemonStage::Reading,
                ..before
            },
            Accepted::WouldBlock => step == DaemonStep::Poll && self == Daemon {
                stage: DaemonStage::Polling,
                ..before
            },
            Accepted::Failed => step == DaemonStep::Fail && self == Daemon {
                stage: DaemonStage::Ended,
                ..before
            },
        }
    }

    /// Whether this daemon and this step follow from `before` by a request. A
    /// snapshot that is too old is found out anew before it is sent, and bytes
    /// that are no request are ignored.
    pub open spec fn requested(
        self,
        before: Self,
        step: DaemonStep,
        asked: Option<Request>,
        now: u64,
    ) -> bool {
        match asked {
            Some(Request::Snapshot { generation }) => if before.cache.is_stale(now) {
                &&& step == (DaemonStep::Work {
                    action: SnapshotAction::QuerySessions { query: before.cache.query_at(now) },
                })
                &&& self == Daemon {
                    cache: SnapshotCache {
                        phase: Phase::Sessions { query: before.cache.query_at(now) },
                        ..before.cache
                    },
                    stage: DaemonStage::Working { generation },
                    ..before
                }
            } else {
                &&& step == (DaemonStep::Send { generation })
                &&& self == Daemon {
                    cache: SnapshotCache { phase: Phase::Idle, ..before.cache },
                    stage: DaemonStage::Sending,
                    ..before
                }
            },
            Some(Request::Invalidate) => step == DaemonStep::Poll && self == Daemon {
                cache: SnapshotCache { dirty: true, ..before.cache },
                stage: DaemonStage::Polling,
                ..before
            },
            None => step == DaemonStep::Poll && self == Daemon {
                stage: DaemonStage::Polling,
                ..before
            },
        }
    }

    /// Whether this daemon and this step follow from `before` by something that
    /// the snapshot needed. The last such thing sends it.
    pub open spec fn worked(
        self,
        before: Self,
        step: DaemonStep,
        event: SnapshotEvent<A, P, N>,
        now: u64,
    ) -> bool {
        &&& self.cache.follows(before.cache, event, now)
        &&& self.last_request == before.last_request
        &&& if event is Sidebars {
            &&& step == (DaemonStep::Send { generation: before.stage->generation })
            &&& self.stage == DaemonStage::Sending
        } else {
            &&& step matches DaemonStep::Work { action } && SnapshotCache::asks(
                before.cache,
                event,
                now,
                action,
            )
            &&& self.stage == before.stage
        }
    }

    /// Whether this daemon and this step follow from `before` by an event at
    /// `now`.
    pub open spec fn follows(
        self,
        before: Self,
        step: DaemonStep,
        event: DaemonEvent<A, P, N>,
        now: u64,
    ) -> bool {
        match event {
            DaemonEvent::Polled { ready, interrupted } => self.polled(
                before,
                step,
                ready,
                interrupted,
                now,
            ),
            DaemonEvent::Accepted { outcome } => self.accepted(before, step, outcome, now),
            DaemonEvent::Request { bytes } => self.requested(
                before,
                step,
                request_in(bytes),
                now,
            ),
            DaemonEvent::Worked { event } => self.worked(before, step, event, now),
            DaemonEvent::Sent => step == DaemonStep::Poll && self == Daemon {
                stage: DaemonStage::Polling,
                ..before
            },
        }
    }

    /// Takes what came of a step, and says what the next one is. An event that
    /// fits no question is ignored.
    pub fn resume(&mut self, event: DaemonEvent<A, P, N>, now: u64) -> (next: Option<DaemonStep>)
        ensures
            match next {
                Some(step) => old(self).awaits(event) && final(self).follows(
                    *old(self),
                    step,
                    event,
                    now,
                ),
                None => !old(self).awaits(event) && *final(self) == *old(self),
            },
    {
        match (self.stage, event) {
            (DaemonStage::Polling, DaemonEvent::Polled { ready, interrupted }) => {
                Some(self.take_poll(ready, interrupted, now))
            },
            (DaemonStage::Accepting, DaemonEvent::Accepted { outcome }) => {
                match outcome {
                    Accepted::Connection => {
                        self.last_request = now;
                        self.stage = DaemonStage::Reading;
                        Some(DaemonStep::Read)
                    },
                    Accepted::WouldBlock => {
                        self.stage = DaemonStage::Polling;
                        Some(DaemonStep::Poll)
                    },
                    Accepted::Failed => {
                        self.stage = DaemonStage::Ended;
                        Some(DaemonStep::Fail)
                    },
                }
            },
            (DaemonStage::Reading, DaemonEvent::Request { bytes }) => {
                let asked = match &bytes {
                    Some(found) => request::decode_request(found.as_slice()),
                    None => None,
                };
                Some(self.take_request(asked, now))
            },
            (DaemonStage::Working { generation }, DaemonEvent::Worked { event }) => {
                match self.cache.resume(event, now) {
                    Some(SnapshotAction::Respond) => {
                        self.stage = DaemonStage::Sending;
                        Some(DaemonStep::Send { generation })
                    },
                    Some(action) => Some(DaemonStep::Work { action }),
                    None => None,
                }
            },
            (DaemonStage::Sending, DaemonEvent::Sent) => {
                self.stage = DaemonStage::Polling;
                Some(DaemonStep::Poll)
            },
            _ => None,
        }
    }

    /// Takes what a wait came to.
    fn take_poll(&mut self, ready: i32, interrupted: bool, now: u64) -> (step: DaemonStep)
        requires
            old(self).stage == DaemonStage::Polling,
        ensures
            final(self).polled(*old(self), step, ready, interrupted, now),
    {
        if ready == 0 {
            if clock::elapsed(now, self.last_request) >= shared_snapshot::DAEMON_IDLE_TIMEOUT {
                self.stage = DaemonStage::Ended;
                return DaemonStep::Exit;
            }
            return DaemonStep::Poll;
        }
        if ready < 0 {
            if interrupted {
                return DaemonStep::Poll;
            }
            self.stage = DaemonStage::Ended;
            return DaemonStep::Fail;
        }
        self.stage = DaemonStage::Accepting;
        DaemonStep::Accept
    }

    /// Takes a request.
    fn take_request(&mut self, asked: Option<Request>, now: u64) -> (step: DaemonStep)
        requires
            old(self).stage == DaemonStage::Reading,
        ensures
            final(self).requested(*old(self), step, asked, now),
    {
        match asked {
            Some(Request::Snapshot { generation }) => {
                match self.cache.begin(now) {
                    SnapshotAction::Respond => {
                        self.stage = DaemonStage::Sending;
                        DaemonStep::Send { generation }
                    },
                    action => {
                        self.stage = DaemonStage::Working { generation };
                        DaemonStep::Work { action }
                    },
                }
            },
            Some(Request::Invalidate) => {
                self.cache.invalidate();
                self.stage = DaemonStage::Polling;
                DaemonStep::Poll
            },
            None => {
                self.stage = DaemonStage::Polling;
                DaemonStep::Poll
            },
        }
    }
}

// ---- laws ----

/// A daemon never removes the lock of one that runs: it removes a lock file only
/// where that names no process, or names one that was just found to be gone.
pub proof fn running_daemons_keep_their_lock(attempt: LockAttempt, event: LockEvent)
    requires
        attempt.next() != LockStep::Remove,
        attempt.after(event).next() == LockStep::Remove,
    ensures
        match event {
            LockEvent::Owner { text } => owner_of(strings::opt_text(text)) is None,
            LockEvent::Alive { alive } => !alive,
            _ => false,
        },
        !(event matches LockEvent::Alive { alive } && alive),
{
}

/// A daemon has the lock only if it created the file and wrote its process id
/// into it.
pub proof fn the_lock_is_created_and_owned(attempt: LockAttempt, event: LockEvent)
    requires
        attempt != LockAttempt::Acquired,
        attempt.after(event) == LockAttempt::Acquired,
    ensures
        attempt.next() == LockStep::WriteOwner,
        event is Done,
{
}

/// How often the lock file was tried to be created in the course of some events.
pub open spec fn creations(events: Seq<LockEvent>) -> nat
    decreases events.len(),
{
    if events.len() == 0 {
        0
    } else {
        let before = LockAttempt::reached(events.drop_last());
        let tried: nat = if before.next() == LockStep::Create && before.after(events.last())
            != before {
            1
        } else {
            0
        };
        creations(events.drop_last()) + tried
    }
}

/// A daemon tries to create the lock file twice at most.
pub proof fn the_lock_is_tried_twice(events: Seq<LockEvent>)
    ensures
        creations(events) <= 2,
{
    lemma_creations(events);
}

proof fn lemma_creations(events: Seq<LockEvent>)
    ensures
        creations(events) + creations_left(LockAttempt::reached(events)) <= 2,
    decreases events.len(),
{
    if events.len() > 0 {
        lemma_creations(events.drop_last());
    }
}

/// How often an attempt may still try to create the lock file.
spec fn creations_left(attempt: LockAttempt) -> nat {
    match attempt {
        LockAttempt::Creating { last } => if last {
            1
        } else {
            2
        },
        LockAttempt::Reading { last } => if last {
            0
        } else {
            1
        },
        LockAttempt::Asking { last, .. } => if last {
            0
        } else {
            1
        },
        LockAttempt::Removing { last } => if last {
            0
        } else {
            1
        },
        _ => 0,
    }
}

/// A daemon ends without an error only after its idle time, and a connection
/// starts that time anew.
pub proof fn only_idle_daemons_end<A, P, N>(
    before: Daemon<A, P, N>,
    after: Daemon<A, P, N>,
    step: DaemonStep,
    event: DaemonEvent<A, P, N>,
    now: u64,
    later: u64,
)
    requires
        before.awaits(event),
        after.follows(before, step, event, now),
    ensures
        step == DaemonStep::Exit ==> clock::passed(now, before.last_request)
            >= shared_snapshot::DAEMON_IDLE_TIMEOUT,
        step == DaemonStep::Read ==> (clock::passed(later, now)
            < shared_snapshot::DAEMON_IDLE_TIMEOUT ==> !after.is_idle(later)),
        step == DaemonStep::Exit || step == DaemonStep::Fail <==> after.stage == DaemonStage::Ended,
{
}

/// What the daemon sends is fresh: a snapshot is sent only when it was either not
/// stale or has just been found out anew, and it never stays outdated.
pub proof fn sent_snapshots_are_fresh<A, P, N>(
    before: Daemon<A, P, N>,
    after: Daemon<A, P, N>,
    step: DaemonStep,
    event: DaemonEvent<A, P, N>,
    now: u64,
)
    requires
        before.awaits(event),
        after.follows(before, step, event, now),
        step is Send,
    ensures
        !after.cache.dirty,
        match event {
            DaemonEvent::Request { .. } => !before.cache.is_stale(now) && after.cache.generation
                == before.cache.generation,
            DaemonEvent::Worked { event } => event is Sidebars && after.cache.generation
                == cache::next_generation(before.cache.generation),
            _ => false,
        },
{
}

/// News that the snapshot is outdated reaches the next answer: the request that
/// follows finds the snapshot stale, whenever it comes.
pub proof fn outdated_snapshots_are_found_out_anew<A, P, N>(
    before: Daemon<A, P, N>,
    told: Daemon<A, P, N>,
    step: DaemonStep,
    bytes: Vec<u8>,
    now: u64,
    later: u64,
)
    requires
        before.stage == DaemonStage::Reading,
        bytes@ == request::encoded(Request::Invalidate),
        told.follows(before, step, DaemonEvent::Request { bytes: Some(bytes) }, now),
    ensures
        told.cache.is_stale(later),
        step == DaemonStep::Poll,
{
    request::requests_round_trip(Request::Invalidate);
}

/// A lock file names its owner by a positive number of 31 bits, whatever blanks
/// stand around it, and names nobody by anything else.
pub proof fn locks_name_their_owner(pid: nat, left: Seq<char>, right: Seq<char>, text: Seq<char>)
    requires
        strings::blank(left),
        strings::blank(right),
    ensures
        0 < pid <= i32::MAX ==> owner_of(Some(left + numbers::decimal(pid) + right)) == Some(pid),
        pid == 0 || pid > i32::MAX ==> owner_of(Some(left + numbers::decimal(pid) + right)) is None,
        numbers::parsed(strings::trimmed(text), i32::MAX as nat) is None ==> owner_of(
            Some(text),
        ) is None,
        owner_of(None) is None,
{
    let id = numbers::decimal(pid);
    numbers::decimals_are_plain(pid, ' ');
    numbers::decimal_round_trips(pid, i32::MAX as nat);
    assert(!strings::is_whitespace(id[0]));
    assert(!strings::is_whitespace(id[id.len() - 1]));
    strings::padding_is_trimmed(left, id, right);
}

/// A lock file that is not there is created and signed. That of a daemon which
/// runs is left to it. That of a daemon which is gone, and one that names none, is
/// removed, and the lock is tried once more; a second time it is given up.
pub proof fn stale_locks_are_replaced_once(text: Option<String>, pid: u32, last: bool)
    ensures
        ({
            let creating = LockAttempt::Creating { last };
            let reading = creating.after(LockEvent::Exists);
            let asking = reading.after(LockEvent::Owner { text });
            let gone = if owner_of(strings::opt_text(text)) is Some {
                asking.after(LockEvent::Alive { alive: false })
            } else {
                asking
            };
            let again = gone.after(LockEvent::Done);
            &&& LockAttempt::reached(Seq::empty()) == (LockAttempt::Creating { last: false })
            &&& creating.next() == LockStep::Create
            &&& creating.after(LockEvent::Done).next() == LockStep::WriteOwner
            &&& creating.after(LockEvent::Done).after(LockEvent::Done).next() == (LockStep::Done {
                acquired: true,
            })
            &&& creating.after(LockEvent::Failed).next() == LockStep::Fail
            &&& creating.after(LockEvent::Done).after(LockEvent::Failed).next() == LockStep::Fail
            &&& reading.next() == LockStep::ReadOwner
            &&& owner_of(strings::opt_text(text)) == Some(pid as nat) ==> {
                &&& asking.next() == (LockStep::AskAlive { pid })
                &&& asking.after(LockEvent::Alive { alive: true }).next() == (LockStep::Done {
                    acquired: false,
                })
            }
            &&& gone.next() == LockStep::Remove
            &&& !last ==> again.next() == LockStep::Create
            &&& !last ==> again.after(LockEvent::Exists).after(
                LockEvent::Owner { text: None },
            ).after(LockEvent::Done).next() == (LockStep::Done { acquired: false })
            &&& last ==> again.next() == (LockStep::Done { acquired: false })
        }),
{
}

/// A wait that finds a connection takes it, one that fails ends the daemon, and
/// one that finds nothing ends it exactly where nobody has asked for anything for
/// five minutes; an interrupted wait is taken up again.
pub proof fn waits_end_as_they_find<A, P, N>(
    before: Daemon<A, P, N>,
    after: Daemon<A, P, N>,
    step: DaemonStep,
    ready: i32,
    interrupted: bool,
    now: u64,
)
    requires
        before.stage == DaemonStage::Polling,
        before.last_request <= now,
        after.follows(before, step, DaemonEvent::Polled { ready, interrupted }, now),
    ensures
        step == DaemonStep::Accept <==> ready > 0,
        step == DaemonStep::Fail <==> ready < 0 && !interrupted,
        step == DaemonStep::Exit <==> ready == 0 && now - before.last_request >= 300
            * clock::SECOND,
        step == DaemonStep::Poll <==> (ready < 0 && interrupted) || (ready == 0 && now
            - before.last_request < 300 * clock::SECOND),
        step == DaemonStep::Poll ==> after == before,
        step == DaemonStep::Accept ==> after.stage == DaemonStage::Accepting,
        after.cache == before.cache,
        after.last_request == before.last_request,
{
}

/// A connection is read and counts as a request; one that went away is waited for
/// again, and one that fails ends the daemon. None of them touches what is known.
pub proof fn connections_are_read<A, P, N>(
    before: Daemon<A, P, N>,
    after: Daemon<A, P, N>,
    step: DaemonStep,
    outcome: Accepted,
    now: u64,
)
    requires
        before.stage == DaemonStage::Accepting,
        after.follows(before, step, DaemonEvent::Accepted { outcome }, now),
    ensures
        after.cache == before.cache,
        step == DaemonStep::Read <==> outcome == Accepted::Connection,
        step == DaemonStep::Poll <==> outcome == Accepted::WouldBlock,
        step == DaemonStep::Fail <==> outcome == Accepted::Failed,
        step == DaemonStep::Read ==> after.stage == DaemonStage::Reading && after.last_request
            == now,
        step == DaemonStep::Poll ==> after.stage == DaemonStage::Polling,
        step != DaemonStep::Read ==> after.last_request == before.last_request,
{
}

/// A client that asks for the snapshot is answered by the generation that it
/// named: at once where the snapshot is fresh, and once it was found out anew where
/// it is not. Bytes that are no request get no answer and change nothing.
pub proof fn clients_are_answered_by_their_generation<A, P, N>(
    before: Daemon<A, P, N>,
    after: Daemon<A, P, N>,
    step: DaemonStep,
    bytes: Vec<u8>,
    generation: u64,
    now: u64,
)
    requires
        before.stage == DaemonStage::Reading,
        after.follows(before, step, DaemonEvent::Request { bytes: Some(bytes) }, now),
    ensures
        bytes@ == request::encoded(Request::Snapshot { generation }) ==> {
            &&& !before.cache.is_stale(now) ==> step == (DaemonStep::Send { generation })
            &&& !before.cache.is_stale(now) ==> after.stage == DaemonStage::Sending
            &&& before.cache.is_stale(now) ==> step == (DaemonStep::Work {
                action: SnapshotAction::QuerySessions { query: before.cache.query_at(now) },
            })
            &&& before.cache.is_stale(now) ==> after.stage == (DaemonStage::Working { generation })
            &&& after.cache.sessions == before.cache.sessions
            &&& after.cache.generation == before.cache.generation
        },
        request::decoded(bytes@) is None ==> step == DaemonStep::Poll && after.cache
            == before.cache && after.stage == DaemonStage::Polling,
        after.last_request == before.last_request,
{
    request::requests_round_trip(Request::Snapshot { generation });
}

/// While the snapshot is found out anew, the daemon stays with the client that
/// asked; the last thing that it finds out sends the snapshot to that client, and
/// then it waits for the next one.
pub proof fn work_ends_with_an_answer<A, P, N>(
    before: Daemon<A, P, N>,
    after: Daemon<A, P, N>,
    step: DaemonStep,
    event: SnapshotEvent<A, P, N>,
    idle: Daemon<A, P, N>,
    next: DaemonStep,
    generation: u64,
    now: u64,
)
    requires
        before.stage == (DaemonStage::Working { generation }),
        before.cache.awaits(event),
        after.follows(before, step, DaemonEvent::Worked { event }, now),
        idle.follows(after, next, DaemonEvent::Sent, now),
    ensures
        event is Sidebars ==> step == (DaemonStep::Send { generation }) && after.stage
            == DaemonStage::Sending,
        !(event is Sidebars) ==> step is Work && after.stage == before.stage,
        after.last_request == before.last_request,
        next == DaemonStep::Poll,
        idle.stage == DaemonStage::Polling,
        idle.cache == after.cache,
{
}

/// While it works the daemon asks for what its snapshot needs next, and keeps what
/// it is told: the sessions that come take the place of those it had, and the panes
/// in which no agent runs any more are the ones that are cleared.
pub proof fn work_goes_on_with_the_snapshot<A, P, N>(
    before: Daemon<A, P, N>,
    after: Daemon<A, P, N>,
    step: DaemonStep,
    event: SnapshotEvent<A, P, N>,
    now: u64,
)
    requires
        before.stage is Working,
        before.cache.awaits(event),
        before.cache.last_port_refresh is Some,
        before.cache.last_port_refresh->0 <= now,
        after.follows(before, step, DaemonEvent::Worked { event }, now),
    ensures
        after.cache.follows(before.cache, event, now),
        event is Sessions ==> after.cache.sessions == event->sessions,
        event is Sessions && now - before.cache.last_port_refresh->0 >= 60 * clock::SECOND ==> step
            == (DaemonStep::Work { action: SnapshotAction::ScanPorts }),
        event is Sessions && now - before.cache.last_port_refresh->0 < 60 * clock::SECOND ==> step
            == (DaemonStep::Work { action: SnapshotAction::QuerySidebars }),
        event is Scanned && event->scan is None ==> step == (DaemonStep::Work {
            action: SnapshotAction::QuerySidebars,
        }),
        event is Scanned && event->scan is Some ==> step is Work && step->action is ClearMetadata
            && strings::texts(step->action->panes@) == cache::dead_panes(
            before.cache.sessions@,
            strings::texts(event->scan->0.live_agent_panes@),
        ),
        event is Cleared ==> step == (DaemonStep::Work { action: SnapshotAction::QuerySidebars }),
{
}

} // verus!
