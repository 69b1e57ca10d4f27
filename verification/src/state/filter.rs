//! Filters over agents and repositories.

use vstd::prelude::*;

use crate::text::strings;

verus! {

/// What an agent is doing.
#[derive(Clone, Copy, Debug, PartialEq, Eq, Structural)]
pub enum PaneStatus {
    Running,
    Background,
    Waiting,
    Idle,
    Error,
    Unknown,
}

/// Which agents are listed.
#[derive(Clone, Copy, Debug, PartialEq, Eq, Structural)]
pub enum StatusFilter {
    All,
    Running,
    Background,
    Waiting,
    Idle,
    Error,
}

impl StatusFilter {
    /// Whether an agent in this state is listed.
    pub open spec fn admits(self, status: PaneStatus) -> bool {
        match self {
            StatusFilter::All => true,
            StatusFilter::Running => status == PaneStatus::Running,
            StatusFilter::Background => status == PaneStatus::Background,
            StatusFilter::Waiting => status == PaneStatus::Waiting,
            StatusFilter::Idle => status == PaneStatus::Idle,
            StatusFilter::Error => status == PaneStatus::Error,
        }
    }

    /// Whether an agent in this state is listed.
    pub fn matches(&self, status: &PaneStatus) -> (yes: bool)
        ensures
            yes == self.admits(*status),
    {
        match self {
            StatusFilter::All => true,
            StatusFilter::Running => *status == PaneStatus::Running,
            StatusFilter::Background => *status == PaneStatus::Background,
            StatusFilter::Waiting => *status == PaneStatus::Waiting,
            StatusFilter::Idle => *status == PaneStatus::Idle,
            StatusFilter::Error => *status == PaneStatus::Error,
        }
    }

    /// The name of the filter in tmux options.
    pub open spec fn label(self) -> Seq<char> {
        match self {
            StatusFilter::All => "all"@,
            StatusFilter::Running => "running"@,
            StatusFilter::Background => "background"@,
            StatusFilter::Waiting => "waiting"@,
            StatusFilter::Idle => "idle"@,
            StatusFilter::Error => "error"@,
        }
    }

    /// The name of the filter in tmux options.
    pub fn as_str(&self) -> (label: &'static str)
        ensures
            label@ == self.label(),
    {
        match self {
            StatusFilter::All => "all",
            StatusFilter::Running => "running",
            StatusFilter::Background => "background",
            StatusFilter::Waiting => "waiting",
            StatusFilter::Idle => "idle",
            StatusFilter::Error => "error",
        }
    }

    /// The filter with this name; any other text lists everything.
    pub open spec fn of_label(text: Seq<char>) -> StatusFilter {
        if text == "running"@ {
            StatusFilter::Running
        } else if text == "background"@ {
            StatusFilter::Background
        } else if text == "waiting"@ {
            StatusFilter::Waiting
        } else if text == "idle"@ {
            StatusFilter::Idle
        } else if text == "error"@ {
            StatusFilter::Error
        } else {
            StatusFilter::All
        }
    }

    /// Reads the name of a filter.
    pub fn from_label(text: &str) -> (filter: StatusFilter)
        ensures
            filter == Self::of_label(text@),
    {
        if strings::same_text(text, "running") {
            StatusFilter::Running
        } else if strings::same_text(text, "background") {
            StatusFilter::Background
        } else if strings::same_text(text, "waiting") {
            StatusFilter::Waiting
        } else if strings::same_text(text, "idle") {
            StatusFilter::Idle
        } else if strings::same_text(text, "error") {
            StatusFilter::Error
        } else {
            StatusFilter::All
        }
    }
}

/// A filter is read back from its own name.
pub proof fn status_filter_round_trips(filter: StatusFilter)
    ensures
        StatusFilter::of_label(filter.label()) == filter,
{
    reveal_strlit("all");
    reveal_strlit("running");
    reveal_strlit("background");
    reveal_strlit("waiting");
    reveal_strlit("idle");
    reveal_strlit("error");
    assert("waiting"@[0] != "running"@[0]);
    assert("all"@.len() == 3 && "idle"@.len() == 4 && "error"@.len() == 5);
    assert("background"@.len() == 10);
}

/// Which repositories are listed.
#[derive(Clone, Debug)]
pub enum RepoFilter {
    All,
    Repo(String),
}

impl View for RepoFilter {
    type V = Option<Seq<char>>;

    open spec fn view(&self) -> Option<Seq<char>> {
        match self {
            RepoFilter::All => None,
            RepoFilter::Repo(name) => Some(name@),
        }
    }
}

/// Whether the group of this repository is listed under a filter.
pub open spec fn lists_repo(filter: Option<Seq<char>>, name: Seq<char>) -> bool {
    match filter {
        None => true,
        Some(repo) => repo == name,
    }
}

/// The name of a repository filter in tmux options.
pub open spec fn repo_label(filter: Option<Seq<char>>) -> Seq<char> {
    match filter {
        None => "all"@,
        Some(repo) => repo,
    }
}

/// The repository filter with this name; `all` and nothing list everything.
pub open spec fn repo_of_label(text: Seq<char>) -> Option<Seq<char>> {
    if text.len() == 0 || text == "all"@ {
        None
    } else {
        Some(text)
    }
}

impl RepoFilter {
    /// Whether the group of this repository is listed.
    pub fn matches_group(&self, name: &str) -> (yes: bool)
        ensures
            yes == lists_repo(self@, name@),
    {
        match self {
            RepoFilter::All => true,
            RepoFilter::Repo(repo) => strings::same_text(repo.as_str(), name),
        }
    }

    /// The name of the filter in tmux options.
    pub fn as_str(&self) -> (label: &str)
        ensures
            label@ == repo_label(self@),
    {
        match self {
            RepoFilter::All => "all",
            RepoFilter::Repo(repo) => repo.as_str(),
        }
    }

    /// Reads the name of a filter.
    pub fn from_label(text: &str) -> (filter: RepoFilter)
        ensures
            filter@ == repo_of_label(text@),
    {
        if text.is_empty() || strings::same_text(text, "all") {
            RepoFilter::All
        } else {
            RepoFilter::Repo(text.to_owned())
        }
    }

    /// A second filter for the same repositories.
    pub fn copy(&self) -> (same: RepoFilter)
        ensures
            same == *self,
    {
        match self {
            RepoFilter::All => RepoFilter::All,
            RepoFilter::Repo(repo) => RepoFilter::Repo(repo.clone()),
        }
    }

    /// Whether two filters list the same repositories.
    pub fn same(&self, other: &RepoFilter) -> (yes: bool)
        ensures
            yes == (self@ == other@),
    {
        match (self, other) {
            (RepoFilter::All, RepoFilter::All) => true,
            (RepoFilter::Repo(a), RepoFilter::Repo(b)) => strings::same_text(
                a.as_str(),
                b.as_str(),
            ),
            _ => false,
        }
    }
}

/// A repository filter is read back from its own name, unless the repository is
/// named like the filter for everything or not at all.
pub proof fn repo_filter_round_trips(filter: Option<Seq<char>>)
    requires
        filter matches Some(repo) ==> repo.len() > 0 && repo != "all"@,
    ensures
        repo_of_label(repo_label(filter)) == filter,
{
}

/// The filter for everything admits every agent, and any other filter exactly the
/// agents in the state that it is named after. An agent in an unknown state is
/// listed under the filter for everything alone.
pub proof fn filters_admit_the_state_they_name(filter: StatusFilter, status: PaneStatus)
    ensures
        StatusFilter::All.admits(status),
        filter != StatusFilter::All ==> !filter.admits(PaneStatus::Unknown),
        filter.admits(PaneStatus::Running) <==> filter == StatusFilter::All || filter.label()
            == "running"@,
        filter.admits(PaneStatus::Background) <==> filter == StatusFilter::All || filter.label()
            == "background"@,
        filter.admits(PaneStatus::Waiting) <==> filter == StatusFilter::All || filter.label()
            == "waiting"@,
        filter.admits(PaneStatus::Idle) <==> filter == StatusFilter::All || filter.label()
            == "idle"@,
        filter.admits(PaneStatus::Error) <==> filter == StatusFilter::All || filter.label()
            == "error"@,
        filter.label() == "all"@ <==> filter == StatusFilter::All,
{
    reveal_strlit("all");
    reveal_strlit("running");
    reveal_strlit("background");
    reveal_strlit("waiting");
    reveal_strlit("idle");
    reveal_strlit("error");
    assert("waiting"@[0] != "running"@[0]);
    assert("waiting"@.len() == 7 && "running"@.len() == 7);
    assert("all"@.len() == 3 && "idle"@.len() == 4 && "error"@.len() == 5);
    assert("background"@.len() == 10);
}

/// Each filter is named after its state, and a text that names none of them stands
/// for everything.
pub proof fn names_stand_for_filters(text: Seq<char>)
    ensures
        StatusFilter::Running.label() == "running"@,
        StatusFilter::Background.label() == "background"@,
        StatusFilter::Waiting.label() == "waiting"@,
        StatusFilter::Idle.label() == "idle"@,
        StatusFilter::Error.label() == "error"@,
        StatusFilter::of_label(text) != StatusFilter::All ==> text == StatusFilter::of_label(
            text,
        ).label(),
        StatusFilter::of_label(text) == StatusFilter::All ==> text != "running"@ && text
            != "background"@ && text != "waiting"@ && text != "idle"@ && text != "error"@,
{
}

/// The filter for a repository lists its group and no other; without one every
/// group is listed. An empty name and `all` stand for no filter.
pub proof fn repositories_are_listed_by_name(repo: Seq<char>, name: Seq<char>)
    ensures
        lists_repo(Some(repo), name) <==> repo == name,
        lists_repo(None, name),
        lists_repo(repo_of_label("all"@), name),
        lists_repo(repo_of_label(Seq::empty()), name),
        repo.len() > 0 && repo != "all"@ ==> (lists_repo(repo_of_label(repo), name) <==> repo
            == name),
        repo_label(None) == "all"@,
        repo_label(Some(repo)) == repo,
{
}

} // verus!
