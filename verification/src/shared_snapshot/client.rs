//! How a sidebar gets the snapshot from the daemon.

use vstd::prelude::*;

use crate::runtime;

verus! {

/// Requests that are tried after the daemon was started.
pub const RETRIES: u8 = 20;

/// Wait before each of them.
pub const RETRY_DELAY: u64 = 25_000_000;

/// A sidebar on its way to a snapshot.
#[derive(Clone, Copy, Debug, PartialEq, Eq, Structural)]
pub enum Client {
    /// Asks a daemon that may be running.
    First,
    /// Starts the daemon.
    Spawning,
    /// Waits for the daemon, with so many requests left.
    Sleeping { left: u8 },
    /// Asks the daemon, with so many requests left after this one.
    Asking { left: u8 },
    /// Has the snapshot.
    Answered,
    /// Has to do without.
    Failed,
}

/// What to do next.
#[derive(Clone, Copy, Debug, PartialEq, Eq, Structural)]
pub enum ClientStep {
    Request,
    Spawn,
    Sleep { duration: u64 },
    Done { answered: bool },
}

impl Client {
    /// What to do next.
    pub open spec fn next(self) -> ClientStep {
        match self {
            Client::First => ClientStep::Request,
            Client::Asking { .. } => ClientStep::Request,
            Client::Spawning => ClientStep::Spawn,
            Client::Sleeping { .. } => ClientStep::Sleep { duration: RETRY_DELAY },
            Client::Answered => ClientStep::Done { answered: true },
            Client::Failed => ClientStep::Done { answered: false },
        }
    }

    /// What to do next.
    pub fn step(&self) -> (step: ClientStep)
        ensures
            step == self.next(),
    {
        match self {
            Client::First => ClientStep::Request,
            Client::Asking { .. } => ClientStep::Request,
            Client::Spawning => ClientStep::Spawn,
            Client::Sleeping { .. } => ClientStep::Sleep { duration: RETRY_DELAY },
            Client::Answered => ClientStep::Done { answered: true },
            Client::Failed => ClientStep::Done { answered: false },
        }
    }

    /// The client after a step that worked or did not. A first request that
    /// fails starts the daemon, which is then asked until it answers or the
    /// requests run out.
    pub open spec fn after(self, worked: bool) -> Client {
        match self {
            Client::First => if worked {
                Client::Answered
            } else {
                Client::Spawning
            },
            Client::Spawning => if worked {
                Client::Sleeping { left: RETRIES }
            } else {
                Client::Failed
            },
            Client::Sleeping { left } => if left == 0 {
                Client::Failed
            } else {
                Client::Asking { left: (left - 1) as u8 }
            },
            Client::Asking { left } => if worked {
                Client::Answered
            } else if left == 0 {
                Client::Failed
            } else {
                Client::Sleeping { left }
            },
            Client::Answered => Client::Answered,
            Client::Failed => Client::Failed,
        }
    }

    /// Takes whether a step worked.
    pub fn resume(self, worked: bool) -> (client: Client)
        ensures
            client == self.after(worked),
    {
        match self {
            Client::First => if worked {
                Client::Answered
            } else {
                Client::Spawning
            },
            Client::Spawning => if worked {
                Client::Sleeping { left: RETRIES }
            } else {
                Client::Failed
            },
            Client::Sleeping { left } => if left == 0 {
                Client::Failed
            } else {
                Client::Asking { left: left - 1 }
            },
            Client::Asking { left } => if worked {
                Client::Answered
            } else if left == 0 {
                Client::Failed
            } else {
                Client::Sleeping { left }
            },
            Client::Answered => Client::Answered,
            Client::Failed => Client::Failed,
        }
    }

    /// The client after several steps.
    pub open spec fn reached(replies: Seq<bool>) -> Client
        decreases replies.len(),
    {
        if replies.len() == 0 {
            Client::First
        } else {
            Client::reached(replies.drop_last()).after(replies.last())
        }
    }
}

/// Starts on the way to a snapshot.
pub fn query_sessions() -> (client: Client)
    ensures
        client == Client::reached(Seq::empty()),
{
    Client::First
}

/// Whether a version is that of this protocol.
pub open spec fn is_current(version: u8) -> bool {
    version == runtime::PROTOCOL_VERSION
}

/// Whether an answer is of this protocol. Any other one counts as none.
pub fn accepts_response(version: u8) -> (yes: bool)
    ensures
        yes == is_current(version),
{
    version == runtime::PROTOCOL_VERSION
}

// ---- laws ----

/// The daemon is started at most once, and only after a first request failed.
pub proof fn the_daemon_is_started_at_most_once(replies: Seq<bool>)
    ensures
        Client::reached(replies).next() == ClientStep::Spawn ==> replies.len() == 1 && !replies[0],
    decreases replies.len(),
{
    reveal_with_fuel(Client::reached, 2);
    if replies.len() > 1 {
        lemma_only_the_start_is_first(replies.drop_last());
    }
}

proof fn lemma_only_the_start_is_first(replies: Seq<bool>)
    requires
        replies.len() > 0,
    ensures
        Client::reached(replies) != Client::First,
{
}

/// A client never waits for ever: after one request, one start and twenty rounds
/// of waiting and asking it has its answer or does without.
pub proof fn every_query_ends(replies: Seq<bool>)
    ensures
        replies.len() >= 42 ==> Client::reached(replies).next() is Done,
{
    lemma_progress(replies);
}

proof fn lemma_progress(replies: Seq<bool>)
    ensures
        ({
            let client = Client::reached(replies);
            &&& client matches Client::Sleeping { left } ==> left <= RETRIES
            &&& client matches Client::Asking { left } ==> left < RETRIES
            &&& client.next() is Done || rounds_left(client) + replies.len() <= 42
        }),
    decreases replies.len(),
{
    if replies.len() > 0 {
        lemma_progress(replies.drop_last());
    }
}

/// Steps that a client may still take before it is done.
spec fn rounds_left(client: Client) -> int {
    match client {
        Client::First => 42,
        Client::Spawning => 41,
        Client::Sleeping { left } => 2 * left as int,
        Client::Asking { left } => 2 * left + 1,
        Client::Answered => 0,
        Client::Failed => 0,
    }
}

/// A client is answered only by a request that worked.
pub proof fn answers_come_from_requests(replies: Seq<bool>)
    requires
        replies.len() > 0,
        Client::reached(replies) == Client::Answered,
        Client::reached(replies.drop_last()) != Client::Answered,
    ensures
        Client::reached(replies.drop_last()).next() == ClientStep::Request,
        replies.last(),
{
}

/// A daemon that answers at once is not started. One that has to be started and
/// comes up is asked at most twenty times, 25 milliseconds apart, and the first
/// answer counts; one that does not come up is not asked.
pub proof fn a_started_daemon_is_asked_until_it_answers(failed: nat)
    ensures
        Client::reached(seq![true]).next() == (ClientStep::Done { answered: true }),
        Client::reached(seq![false, false]).next() == (ClientStep::Done { answered: false }),
        failed < 20 ==> {
            let asking = Client::reached(tried(failed).push(true));
            &&& Client::reached(tried(failed)).next() == (ClientStep::Sleep {
                duration: 25_000_000,
            })
            &&& asking.next() == ClientStep::Request
            &&& asking.after(true).next() == (ClientStep::Done { answered: true })
        },
        failed == 20 ==> Client::reached(tried(failed)).next() == (ClientStep::Done {
            answered: false,
        }),
{
    reveal_with_fuel(Client::reached, 3);
    assert(seq![true].drop_last() =~= Seq::<bool>::empty());
    assert(seq![false, false].drop_last() =~= seq![false]);
    assert(seq![false].drop_last() =~= Seq::<bool>::empty());
    if failed <= 20 {
        lemma_tried(failed);
        assert(tried(failed).push(true).drop_last() =~= tried(failed));
    }
}

/// A first request that fails, a start that works, and so many rounds of waiting
/// and of asking in vain.
pub open spec fn tried(failed: nat) -> Seq<bool>
    decreases failed,
{
    if failed == 0 {
        seq![false, true]
    } else {
        tried((failed - 1) as nat).push(true).push(false)
    }
}

proof fn lemma_tried(failed: nat)
    requires
        failed <= 20,
    ensures
        Client::reached(tried(failed)) == if failed < 20 {
            Client::Sleeping { left: (20 - failed) as u8 }
        } else {
            Client::Failed
        },
    decreases failed,
{
    reveal_with_fuel(Client::reached, 3);
    if failed == 0 {
        assert(seq![false, true].drop_last() =~= seq![false]);
        assert(seq![false].drop_last() =~= Seq::<bool>::empty());
    } else {
        let before = tried((failed - 1) as nat);
        lemma_tried((failed - 1) as nat);
        assert(before.push(true).push(false).drop_last() =~= before.push(true));
        assert(before.push(true).drop_last() =~= before);
    }
}

/// Answers of version 2 are read, and no others.
pub proof fn only_answers_of_this_version_are_read(version: u8)
    ensures
        is_current(version) <==> version == 2,
{
}

} // verus!
