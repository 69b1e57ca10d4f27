//! State that all sidebars of a server share through tmux options.

use vstd::prelude::*;

use crate::clock;
use crate::state::filter;
use crate::state::filter::RepoFilter;
use crate::state::filter::StatusFilter;
use crate::text::map::TextMap;
use crate::text::strings;
use crate::tmux::options;
use crate::tmux::step;
use crate::tmux::step::Step;

verus! {

/// The filters, which are shared, and the cursor, which is this sidebar's own.
pub struct GlobalState {
    pub status_filter: StatusFilter,
    /// Row of the cursor. It is neither written to tmux nor announced to other
    /// sidebars.
    pub selected_pane_row: usize,
    pub repo_filter: RepoFilter,
    /// Status filter as it was last written to tmux or read from there.
    pub last_saved_filter: StatusFilter,
    /// Repository filter as it was last written to tmux or read from there.
    pub last_saved_repo_filter: RepoFilter,
    /// When a write last asked for an announcement that is still to be made.
    pub pending_broadcast_since: Option<u64>,
}

/// A request to write a server-wide option.
pub open spec fn write_option(option: Seq<char>, value: Seq<char>) -> step::StepView {
    step::tmux(seq!["set"@, "-g"@, option, value])
}

/// The text of an option, where it is set.
pub open spec fn option_text(opts: Map<Seq<char>, String>, option: Seq<char>) -> Option<Seq<char>> {
    if opts.contains_key(option) {
        Some(opts[option]@)
    } else {
        None
    }
}

/// Looks up the text of an option.
pub fn option_of<'a>(opts: &'a TextMap<String>, option: &str) -> (text: Option<&'a str>)
    ensures
        match text {
            Some(t) => option_text(opts@, option@) == Some(t@),
            None => option_text(opts@, option@) is None,
        },
{
    match opts.get(option) {
        Some(text) => Some(text.as_str()),
        None => None,
    }
}

impl GlobalState {
    /// The state of a fresh sidebar.
    pub open spec fn initial() -> GlobalState {
        GlobalState {
            status_filter: StatusFilter::All,
            selected_pane_row: 0,
            repo_filter: RepoFilter::All,
            last_saved_filter: StatusFilter::All,
            last_saved_repo_filter: RepoFilter::All,
            pending_broadcast_since: None,
        }
    }

    /// The state of a fresh sidebar: nothing filtered, the cursor on top.
    pub fn new() -> (state: GlobalState)
        ensures
            state == Self::initial(),
    {
        GlobalState {
            status_filter: StatusFilter::All,
            selected_pane_row: 0,
            repo_filter: RepoFilter::All,
            last_saved_filter: StatusFilter::All,
            last_saved_repo_filter: RepoFilter::All,
            pending_broadcast_since: None,
        }
    }

    /// Asks for an announcement to the other sidebars. It is made once writes
    /// have gone quiet.
    fn queue_broadcast(&mut self, now: u64)
        ensures
            *final(self) == (GlobalState { pending_broadcast_since: Some(now), ..*old(self) }),
    {
        self.pending_broadcast_since = Some(now);
    }

    /// Whether an announcement is waiting and has waited long enough.
    pub open spec fn announces(self, debounce: u64, now: u64) -> bool {
        self.pending_broadcast_since matches Some(queued) && clock::passed(now, queued) >= debounce
    }

    /// The state after the waiting announcement was made, where it was to be.
    pub open spec fn flushed(self, debounce: u64, now: u64) -> GlobalState {
        if self.announces(debounce, now) {
            GlobalState { pending_broadcast_since: None, ..self }
        } else {
            self
        }
    }

    /// Reports whether the waiting announcement is to be made now, and if so
    /// counts it as made.
    pub fn flush_pending_broadcast(&mut self, debounce: u64, now: u64) -> (send: bool)
        ensures
            send == old(self).announces(debounce, now),
            *final(self) == old(self).flushed(debounce, now),
    {
        match self.pending_broadcast_since {
            None => false,
            Some(queued) => {
                if clock::elapsed(now, queued) < debounce {
                    false
                } else {
                    self.pending_broadcast_since = None;
                    true
                }
            },
        }
    }

    /// The request that writes the status filter.
    pub fn save_filter(&self) -> (next: Step)
        ensures
            next@ == write_option(options::SIDEBAR_FILTER@, self.status_filter.label()),
    {
        let next = step::run(&["set", "-g", options::SIDEBAR_FILTER, self.status_filter.as_str()]);
        assert(next@ =~~= write_option(options::SIDEBAR_FILTER@, self.status_filter.label()));
        next
    }

    /// The state after a write of the status filter that succeeded or did not.
    pub open spec fn with_filter_written(self, written: bool, now: u64) -> GlobalState {
        if written {
            GlobalState {
                last_saved_filter: self.status_filter,
                pending_broadcast_since: Some(now),
                ..self
            }
        } else {
            self
        }
    }

    /// Takes the reply to that request. Only a write that succeeded counts as
    /// saved and is announced.
    pub fn filter_written(&mut self, written: bool, now: u64)
        ensures
            *final(self) == old(self).with_filter_written(written, now),
    {
        if written {
            self.last_saved_filter = self.status_filter;
            self.queue_broadcast(now);
        }
    }

    /// The request that writes the repository filter.
    pub fn save_repo_filter(&self) -> (next: Step)
        ensures
            next@ == write_option(
                options::SIDEBAR_REPO_FILTER@,
                filter::repo_label(self.repo_filter@),
            ),
    {
        let next = step::run(
            &["set", "-g", options::SIDEBAR_REPO_FILTER, self.repo_filter.as_str()],
        );
        assert(next@ =~~= write_option(
            options::SIDEBAR_REPO_FILTER@,
            filter::repo_label(self.repo_filter@),
        ));
        next
    }

    /// The state after a write of the repository filter that succeeded or did not.
    pub open spec fn with_repo_written(self, written: bool, now: u64) -> GlobalState {
        if written {
            GlobalState {
                last_saved_repo_filter: self.repo_filter,
                pending_broadcast_since: Some(now),
                ..self
            }
        } else {
            self
        }
    }

    /// Takes the reply to that request.
    pub fn repo_filter_written(&mut self, written: bool, now: u64)
        ensures
            *final(self) == old(self).with_repo_written(written, now),
    {
        if written {
            self.last_saved_repo_filter = self.repo_filter.copy();
            self.queue_broadcast(now);
        }
    }

    /// Whether this state follows from `before` when tmux holds `opts`: a filter
    /// that differs from the one last saved is taken over, and nothing else
    /// changes.
    pub open spec fn adopts(self, before: GlobalState, opts: Map<Seq<char>, String>) -> bool {
        let status = match option_text(opts, options::SIDEBAR_FILTER@) {
            Some(text) => StatusFilter::of_label(text),
            None => before.last_saved_filter,
        };
        let repo = match option_text(opts, options::SIDEBAR_REPO_FILTER@) {
            Some(text) => filter::repo_of_label(text),
            None => before.last_saved_repo_filter@,
        };
        &&& self.status_filter == if status != before.last_saved_filter {
            status
        } else {
            before.status_filter
        }
        &&& self.last_saved_filter == status
        &&& self.repo_filter@ == if repo != before.last_saved_repo_filter@ {
            repo
        } else {
            before.repo_filter@
        }
        &&& self.last_saved_repo_filter@ == repo
        &&& self.selected_pane_row == before.selected_pane_row
        &&& self.pending_broadcast_since == before.pending_broadcast_since
    }

    /// Takes over the filters that tmux holds, where another sidebar changed
    /// them.
    pub fn apply_all(&mut self, opts: &TextMap<String>)
        ensures
            final(self).adopts(*old(self), opts@),
    {
        if let Some(text) = option_of(opts, options::SIDEBAR_FILTER) {
            let tmux_filter = StatusFilter::from_label(text);
            if tmux_filter != self.last_saved_filter {
                self.status_filter = tmux_filter;
                self.last_saved_filter = tmux_filter;
            }
        }
        if let Some(text) = option_of(opts, options::SIDEBAR_REPO_FILTER) {
            let tmux_repo = RepoFilter::from_label(text);
            if !tmux_repo.same(&self.last_saved_repo_filter) {
                self.repo_filter = tmux_repo.copy();
                self.last_saved_repo_filter = tmux_repo;
            }
        }
    }
}

impl Default for GlobalState {
    fn default() -> (state: GlobalState)
        ensures
            state == GlobalState::initial(),
    {
        GlobalState::new()
    }
}

// ---- laws ----

/// A failed write never loses the user's choice: while tmux still holds what
/// was saved before, reading it back leaves the filters alone.
pub proof fn failed_write_keeps_the_choice(
    before: GlobalState,
    after: GlobalState,
    opts: Map<Seq<char>, String>,
)
    requires
        after.adopts(before, opts),
        option_text(opts, options::SIDEBAR_FILTER@) == Some(before.last_saved_filter.label()),
        option_text(opts, options::SIDEBAR_REPO_FILTER@) matches Some(text)
            ==> filter::repo_of_label(text) == before.last_saved_repo_filter@,
    ensures
        after.status_filter == before.status_filter,
        after.repo_filter@ == before.repo_filter@,
        after.last_saved_filter == before.last_saved_filter,
        after.last_saved_repo_filter@ == before.last_saved_repo_filter@,
{
    filter::status_filter_round_trips(before.last_saved_filter);
}

/// A write that succeeded reads back unchanged: the writer keeps the filter it
/// wrote, and every other sidebar that had another one saved takes it over.
pub proof fn written_filter_reaches_every_sidebar(
    writer: GlobalState,
    peer: GlobalState,
    peer_after: GlobalState,
    writer_after: GlobalState,
    opts: Map<Seq<char>, String>,
    now: u64,
)
    requires
        option_text(opts, options::SIDEBAR_FILTER@) == Some(writer.status_filter.label()),
        writer_after.adopts(
            GlobalState {
                last_saved_filter: writer.status_filter,
                pending_broadcast_since: Some(now),
                ..writer
            },
            opts,
        ),
        peer_after.adopts(peer, opts),
        peer.last_saved_filter != writer.status_filter,
    ensures
        writer_after.status_filter == writer.status_filter,
        peer_after.status_filter == writer.status_filter,
        peer_after.last_saved_filter == writer.status_filter,
{
    filter::status_filter_round_trips(writer.status_filter);
}

/// Reading the same options twice changes nothing more.
pub proof fn adopting_twice_is_adopting_once(
    before: GlobalState,
    once: GlobalState,
    twice: GlobalState,
    opts: Map<Seq<char>, String>,
)
    requires
        once.adopts(before, opts),
        twice.adopts(once, opts),
    ensures
        twice.status_filter == once.status_filter,
        twice.repo_filter@ == once.repo_filter@,
        twice.last_saved_filter == once.last_saved_filter,
        twice.last_saved_repo_filter@ == once.last_saved_repo_filter@,
{
}

/// A burst of writes is announced once: after the announcement none is waiting,
/// and a write during the wait starts the wait again.
pub proof fn bursts_are_announced_once(state: GlobalState, debounce: u64, now: u64, later: u64)
    ensures
        !(GlobalState { pending_broadcast_since: None, ..state }).announces(debounce, later),
        debounce > 0 && clock::passed(later, now) < debounce ==> !(GlobalState {
            pending_broadcast_since: Some(now),
            ..state
        }).announces(debounce, later),
{
}

/// An announcement is made exactly where one is waiting and has waited for its
/// time, and never twice.
pub proof fn announcements_wait_for_their_time(
    state: GlobalState,
    queued: u64,
    debounce: u64,
    now: u64,
)
    requires
        queued <= now,
    ensures
        state.pending_broadcast_since == Some(queued) ==> (state.announces(debounce, now) <==> now
            - queued >= debounce),
        state.pending_broadcast_since is None ==> !state.announces(debounce, now),
{
}

/// A filter is written to its own option, server-wide. Only a write that succeeded
/// counts as saved, and only that one is announced; neither changes what is shown.
pub proof fn writes_that_succeed_are_saved_and_announced(
    state: GlobalState,
    option: Seq<char>,
    value: Seq<char>,
    now: u64,
)
    ensures
        write_option(option, value) == (step::StepView::Tmux {
            args: seq!["set"@, "-g"@, option, value],
        }),
        ({
            let saved = state.with_filter_written(true, now);
            &&& saved.last_saved_filter == state.status_filter
            &&& saved.pending_broadcast_since == Some(now)
            &&& saved.status_filter == state.status_filter
            &&& saved.repo_filter == state.repo_filter
            &&& saved.last_saved_repo_filter == state.last_saved_repo_filter
            &&& saved.selected_pane_row == state.selected_pane_row
        }),
        ({
            let saved = state.with_repo_written(true, now);
            &&& saved.last_saved_repo_filter == state.repo_filter
            &&& saved.pending_broadcast_since == Some(now)
            &&& saved.status_filter == state.status_filter
            &&& saved.repo_filter == state.repo_filter
            &&& saved.last_saved_filter == state.last_saved_filter
            &&& saved.selected_pane_row == state.selected_pane_row
        }),
        state.with_filter_written(false, now) == state,
        state.with_repo_written(false, now) == state,
{
}

/// Options that are not set change nothing, and neither filter is touched by the
/// option of the other. The cursor and a waiting announcement are this sidebar's
/// own.
pub proof fn filters_are_adopted_apart(
    before: GlobalState,
    after: GlobalState,
    opts: Map<Seq<char>, String>,
)
    requires
        after.adopts(before, opts),
    ensures
        !opts.contains_key(options::SIDEBAR_FILTER@) ==> after.status_filter
            == before.status_filter && after.last_saved_filter == before.last_saved_filter,
        !opts.contains_key(options::SIDEBAR_REPO_FILTER@) ==> after.repo_filter@
            == before.repo_filter@ && after.last_saved_repo_filter@
            == before.last_saved_repo_filter@,
        opts.contains_key(options::SIDEBAR_FILTER@) ==> after.last_saved_filter
            == StatusFilter::of_label(opts[options::SIDEBAR_FILTER@]@) && (
        after.last_saved_filter == before.last_saved_filter ==> after.status_filter
            == before.status_filter) && (after.last_saved_filter != before.last_saved_filter
            ==> after.status_filter == after.last_saved_filter),
        opts.contains_key(options::SIDEBAR_REPO_FILTER@) ==> after.last_saved_repo_filter@
            == filter::repo_of_label(opts[options::SIDEBAR_REPO_FILTER@]@) && (
        after.last_saved_repo_filter@ == before.last_saved_repo_filter@ ==> after.repo_filter@
            == before.repo_filter@) && (after.last_saved_repo_filter@
            != before.last_saved_repo_filter@ ==> after.repo_filter@
            == after.last_saved_repo_filter@),
        after.selected_pane_row == before.selected_pane_row,
        after.pending_broadcast_since == before.pending_broadcast_since,
{
}

/// A repository filter that was written reaches every sidebar that had another one
/// saved, and its writer keeps it.
pub proof fn written_repository_reaches_every_sidebar(
    writer: GlobalState,
    writer_after: GlobalState,
    peer: GlobalState,
    peer_after: GlobalState,
    opts: Map<Seq<char>, String>,
    now: u64,
)
    requires
        writer.repo_filter@ matches Some(repo) ==> repo.len() > 0 && repo != "all"@,
        option_text(opts, options::SIDEBAR_REPO_FILTER@) == Some(
            filter::repo_label(writer.repo_filter@),
        ),
        writer_after.adopts(writer.with_repo_written(true, now), opts),
        peer_after.adopts(peer, opts),
        peer.last_saved_repo_filter@ != writer.repo_filter@,
    ensures
        writer_after.repo_filter@ == writer.repo_filter@,
        peer_after.repo_filter@ == writer.repo_filter@,
{
    filter::repo_filter_round_trips(writer.repo_filter@);
}

/// A fresh sidebar lists every agent of every repository, has its cursor in the
/// first row, has nothing to announce, and takes what tmux holds for news only
/// where it filters something.
pub proof fn fresh_sidebars_list_everything(
    status: filter::PaneStatus,
    repo: Seq<char>,
    debounce: u64,
    now: u64,
    opts: Map<Seq<char>, String>,
    after: GlobalState,
)
    requires
        after.adopts(GlobalState::initial(), opts),
    ensures
        ({
            let fresh = GlobalState::initial();
            &&& fresh.status_filter.admits(status)
            &&& filter::lists_repo(fresh.repo_filter@, repo)
            &&& fresh.selected_pane_row == 0
            &&& !fresh.announces(debounce, now)
        }),
        opts.contains_key(options::SIDEBAR_FILTER@) ==> after.status_filter
            == StatusFilter::of_label(opts[options::SIDEBAR_FILTER@]@),
        opts.contains_key(options::SIDEBAR_REPO_FILTER@) ==> after.repo_filter@
            == filter::repo_of_label(opts[options::SIDEBAR_REPO_FILTER@]@),
{
}

/// What was announced is not announced again, and what was not stays to be; the
/// filters and the cursor are not touched.
pub proof fn announcements_are_made_once(state: GlobalState, debounce: u64, now: u64, later: u64)
    ensures
        state.announces(debounce, now) ==> !state.flushed(debounce, now).announces(debounce, later),
        !state.announces(debounce, now) ==> state.flushed(debounce, now) == state,
        state.flushed(debounce, now).status_filter == state.status_filter,
        state.flushed(debounce, now).repo_filter == state.repo_filter,
        state.flushed(debounce, now).last_saved_filter == state.last_saved_filter,
        state.flushed(debounce, now).last_saved_repo_filter == state.last_saved_repo_filter,
        state.flushed(debounce, now).selected_pane_row == state.selected_pane_row,
{
}

} // verus!
