//! Commands over whole windows: toggling every sidebar of the server, and
//! closing a window in which only sidebars are left.

use vstd::prelude::*;

use crate::cli::create;
use crate::cli::toggle;
use crate::text::numbers;
use crate::text::strings;
use crate::tmux::options;
use crate::tmux::step;
use crate::tmux::step::Step;
#[allow(unused_imports)]
use crate::tmux::step::StepView;

verus! {

// ---- toggling all windows ----

/// How far a toggle of all windows has come.
pub enum ToggleAll {
    /// About to list all panes with their roles.
    Looking,
    /// About to list them again, to remove the sidebars.
    Collecting,
    /// About to list all windows, to create sidebars.
    ListingWindows,
    /// About to make requests whose replies no longer matter, then done.
    Finishing { rest: Vec<Step> },
}

/// The state of a toggle of all windows, as mathematical values.
#[verifier::ext_equal]
pub enum ToggleAllView {
    Looking,
    Collecting,
    ListingWindows,
    Finishing { rest: Seq<StepView> },
}

impl View for ToggleAll {
    type V = ToggleAllView;

    open spec fn view(&self) -> ToggleAllView {
        match self {
            ToggleAll::Looking => ToggleAllView::Looking,
            ToggleAll::Collecting => ToggleAllView::Collecting,
            ToggleAll::ListingWindows => ToggleAllView::ListingWindows,
            ToggleAll::Finishing { rest } => ToggleAllView::Finishing { rest: step::views(rest@) },
        }
    }
}

/// The create-only toggle of one window.
pub open spec fn create_in(window: (Seq<char>, Seq<char>)) -> StepView {
    StepView::Toggle { args: seq!["--create-only"@, window.0, window.1] }
}

/// A create-only toggle of each window.
pub open spec fn create_everywhere(windows: Seq<(Seq<char>, Seq<char>)>) -> Seq<StepView> {
    Seq::new(windows.len(), |i: int| create_in(windows[i]))
}

impl ToggleAllView {
    /// The request that the command makes in this state.
    pub open spec fn next_step(self) -> StepView {
        match self {
            ToggleAllView::Looking => step::list_all_panes(toggle::role_format()),
            ToggleAllView::Collecting => step::list_all_panes(toggle::role_format()),
            ToggleAllView::ListingWindows => step::list_all_panes(
                "#{window_id}|#{pane_current_path}"@,
            ),
            ToggleAllView::Finishing { rest } => step::head(rest),
        }
    }

    /// The state after the reply to that request.
    pub open spec fn after(self, reply: Option<Seq<char>>) -> ToggleAllView {
        let text = step::reply_text(reply);
        match self {
            ToggleAllView::Looking => if reply is Some && toggle::sidebars(text).len() > 0 {
                ToggleAllView::Collecting
            } else {
                ToggleAllView::ListingWindows
            },
            ToggleAllView::Collecting => ToggleAllView::Finishing {
                rest: create::kill_all(toggle::sidebars(text)),
            },
            ToggleAllView::ListingWindows => ToggleAllView::Finishing {
                rest: create_everywhere(toggle::window_paths(text)),
            },
            ToggleAllView::Finishing { rest } => ToggleAllView::Finishing {
                rest: step::tail(rest),
            },
        }
    }
}

/// Starts a toggle of all windows; it takes no arguments into account.
pub fn cmd_toggle_all(_args: &[String]) -> (state: ToggleAll)
    ensures
        state@ == ToggleAllView::Looking,
{
    ToggleAll::Looking
}

/// The requests that remove a list of panes.
fn kill_steps(panes: &Vec<String>) -> (list: Vec<Step>)
    ensures
        step::views(list@) == create::kill_all(strings::texts(panes@)),
{
    let ghost all = strings::texts(panes@);
    let mut list = step::no_steps();
    assert(step::views(list@) =~= create::kill_all(all.take(0)));
    for i in 0..panes.len()
        invariant
            all == strings::texts(panes@),
            step::views(list@) == create::kill_all(all.take(i as int)),
    {
        step::add_step(&mut list, step::kill(panes[i].as_str()));
        assert(all[i as int] == panes@[i as int]@);
        assert(step::views(list@) =~= create::kill_all(all.take(i + 1)));
    }
    assert(all.take(all.len() as int) == all);
    list
}

/// The requests that create a sidebar in each window.
fn create_steps(windows: &Vec<(String, String)>) -> (list: Vec<Step>)
    ensures
        step::views(list@) == create_everywhere(toggle::pair_texts(windows@)),
{
    let ghost all = toggle::pair_texts(windows@);
    let mut list = step::no_steps();
    assert(step::views(list@) =~= create_everywhere(all.take(0)));
    for i in 0..windows.len()
        invariant
            all == toggle::pair_texts(windows@),
            step::views(list@) == create_everywhere(all.take(i as int)),
    {
        let next = Step::Toggle {
            args: strings::string_list(
                &["--create-only", windows[i].0.as_str(), windows[i].1.as_str()],
            ),
        };
        assert(next@ =~~= create_in(all[i as int]));
        step::add_step(&mut list, next);
        assert(step::views(list@) =~= create_everywhere(all.take(i + 1)));
    }
    assert(all.take(all.len() as int) == all);
    list
}

impl ToggleAll {
    /// The request that the command makes now.
    pub fn step(&self) -> (next: Step)
        ensures
            next@ == self@.next_step(),
    {
        match self {
            ToggleAll::Looking => step::list_all(toggle::pane_id_role_format().as_str()),
            ToggleAll::Collecting => step::list_all(toggle::pane_id_role_format().as_str()),
            ToggleAll::ListingWindows => step::list_all("#{window_id}|#{pane_current_path}"),
            ToggleAll::Finishing { rest } => step::first_step(rest),
        }
    }

    /// Takes the reply to that request.
    pub fn resume(self, reply: Option<String>) -> (state: ToggleAll)
        ensures
            state@ == self@.after(strings::opt_text(reply)),
    {
        match self {
            ToggleAll::Looking => {
                let has_sidebar = match &reply {
                    Some(output) => toggle::any_sidebar_pane(output.as_str()),
                    None => false,
                };
                if has_sidebar {
                    ToggleAll::Collecting
                } else {
                    ToggleAll::ListingWindows
                }
            },
            ToggleAll::Collecting => {
                let text = step::text_of(reply);
                ToggleAll::Finishing { rest: kill_steps(&toggle::sidebar_panes(text.as_str())) }
            },
            ToggleAll::ListingWindows => {
                let text = step::text_of(reply);
                ToggleAll::Finishing {
                    rest: create_steps(&toggle::unique_window_paths(text.as_str())),
                }
            },
            ToggleAll::Finishing { rest } => ToggleAll::Finishing {
                rest: step::later_steps(rest),
            },
        }
    }
}

// ---- closing a window ----

/// How far an auto-close command has come.
pub enum AutoClose {
    ListingRoles { window_id: String },
    CountingWindows { window_id: String, panes: Option<String> },
    CountingClients { window_id: String, panes: Option<String>, windows: Option<u32> },
    Finishing { rest: Vec<Step> },
}

/// The state of an auto-close command, as mathematical values.
#[verifier::ext_equal]
pub enum AutoCloseView {
    /// About to list the roles of the window's panes.
    ListingRoles { window_id: Seq<char> },
    /// About to count the windows of the session.
    CountingWindows { window_id: Seq<char>, panes: Option<Seq<char>> },
    /// About to count the clients attached to the session.
    CountingClients { window_id: Seq<char>, panes: Option<Seq<char>>, windows: Option<u32> },
    /// About to make requests whose replies no longer matter, then done.
    Finishing { rest: Seq<StepView> },
}

impl View for AutoClose {
    type V = AutoCloseView;

    open spec fn view(&self) -> AutoCloseView {
        match self {
            AutoClose::ListingRoles { window_id } => AutoCloseView::ListingRoles {
                window_id: window_id@,
            },
            AutoClose::CountingWindows { window_id, panes } => AutoCloseView::CountingWindows {
                window_id: window_id@,
                panes: strings::opt_text(*panes),
            },
            AutoClose::CountingClients { window_id, panes, windows } =>
            AutoCloseView::CountingClients {
                window_id: window_id@,
                panes: strings::opt_text(*panes),
                windows: *windows,
            },
            AutoClose::Finishing { rest } => AutoCloseView::Finishing { rest: step::views(rest@) },
        }
    }
}

/// Expands `format` for the window, keeping a failure apart from an empty value.
pub open spec fn query(window_id: Seq<char>, format: Seq<char>) -> StepView {
    step::tmux(seq!["display-message"@, "-t"@, window_id, "-p"@, format])
}

/// The count in a reply: none where the request failed or is not a number.
pub open spec fn count(reply: Option<Seq<char>>) -> Option<u32> {
    match reply {
        Some(text) => match numbers::parsed(strings::trimmed(text), u32::MAX as nat) {
            Some(n) => Some(n as u32),
            None => None,
        },
        None => None,
    }
}

impl AutoCloseView {
    /// The state in which a command with these arguments starts.
    pub open spec fn start(args: Seq<Seq<char>>) -> AutoCloseView {
        if args.len() == 0 {
            AutoCloseView::Finishing { rest: Seq::empty() }
        } else {
            AutoCloseView::ListingRoles { window_id: args[0] }
        }
    }

    /// The request that the command makes in this state.
    pub open spec fn next_step(self) -> StepView {
        match self {
            AutoCloseView::ListingRoles { window_id } => step::list_panes(
                window_id,
                step::option_format(options::PANE_ROLE@),
            ),
            AutoCloseView::CountingWindows { window_id, panes } => query(
                window_id,
                "#{session_windows}"@,
            ),
            AutoCloseView::CountingClients { window_id, panes, windows } => query(
                window_id,
                "#{session_attached}"@,
            ),
            AutoCloseView::Finishing { rest } => step::head(rest),
        }
    }

    /// The state after the reply to that request.
    pub open spec fn after(self, reply: Option<Seq<char>>) -> AutoCloseView {
        match self {
            AutoCloseView::ListingRoles { window_id } => AutoCloseView::CountingWindows {
                window_id,
                panes: reply,
            },
            AutoCloseView::CountingWindows { window_id, panes } => AutoCloseView::CountingClients {
                window_id,
                panes,
                windows: count(reply),
            },
            AutoCloseView::CountingClients { window_id, panes, windows } =>
            AutoCloseView::Finishing {
                rest: if toggle::closes_window(panes, windows, count(reply)) {
                    seq![step::tmux(seq!["kill-window"@, "-t"@, window_id])]
                } else {
                    Seq::empty()
                },
            },
            AutoCloseView::Finishing { rest } => AutoCloseView::Finishing {
                rest: step::tail(rest),
            },
        }
    }
}

/// Starts an auto-close command.
pub fn cmd_auto_close(args: &[String]) -> (state: AutoClose)
    ensures
        state@ == AutoCloseView::start(strings::texts(args@)),
{
    assert(strings::texts(args@).len() == args@.len());
    if args.len() == 0 {
        AutoClose::Finishing { rest: step::no_steps() }
    } else {
        assert(strings::texts(args@)[0] == args@[0]@);
        AutoClose::ListingRoles { window_id: args[0].clone() }
    }
}

/// Expands `format` for the window.
fn ask_window(window_id: &str, format: &str) -> (next: Step)
    ensures
        next@ == query(window_id@, format@),
{
    let next = step::run(&["display-message", "-t", window_id, "-p", format]);
    assert(next@ =~~= query(window_id@, format@));
    next
}

/// Reads the count in a reply.
fn count_of(reply: Option<String>) -> (n: Option<u32>)
    ensures
        n == count(strings::opt_text(reply)),
{
    match reply {
        Some(text) => numbers::parse_u32(strings::trim(text.as_str())),
        None => None,
    }
}

impl AutoClose {
    /// The request that the command makes now.
    pub fn step(&self) -> (next: Step)
        ensures
            next@ == self@.next_step(),
    {
        match self {
            AutoClose::ListingRoles { window_id } => step::list(
                window_id.as_str(),
                step::format_option(options::PANE_ROLE).as_str(),
            ),
            AutoClose::CountingWindows { window_id, .. } => ask_window(
                window_id.as_str(),
                "#{session_windows}",
            ),
            AutoClose::CountingClients { window_id, .. } => ask_window(
                window_id.as_str(),
                "#{session_attached}",
            ),
            AutoClose::Finishing { rest } => step::first_step(rest),
        }
    }

    /// Takes the reply to that request.
    pub fn resume(self, reply: Option<String>) -> (state: AutoClose)
        ensures
            state@ == self@.after(strings::opt_text(reply)),
    {
        match self {
            AutoClose::ListingRoles { window_id } => AutoClose::CountingWindows {
                window_id,
                panes: reply,
            },
            AutoClose::CountingWindows { window_id, panes } => AutoClose::CountingClients {
                window_id,
                panes,
                windows: count_of(reply),
            },
            AutoClose::CountingClients { window_id, panes, windows } => {
                let clients = count_of(reply);
                let output = match &panes {
                    Some(text) => Some(text.as_str()),
                    None => None,
                };
                let mut rest = step::no_steps();
                if toggle::should_kill_window(output, windows, clients) {
                    let close = step::run(&["kill-window", "-t", window_id.as_str()]);
                    assert(close@ =~~= step::tmux(seq!["kill-window"@, "-t"@, window_id@]));
                    step::add_step(&mut rest, close);
                    assert(step::views(rest@) =~= seq![
                        step::tmux(seq!["kill-window"@, "-t"@, window_id@]),
                    ]);
                }
                AutoClose::Finishing { rest }
            },
            AutoClose::Finishing { rest } => AutoClose::Finishing {
                rest: step::later_steps(rest),
            },
        }
    }
}

// ---- laws ----

/// A window is closed only where every query succeeded, every pane in it is a
/// sidebar, and no more than one client loses its session.
pub proof fn live_windows_are_never_closed(
    window_id: Seq<char>,
    panes: Option<Seq<char>>,
    windows: Option<Seq<char>>,
    clients: Option<Seq<char>>,
)
    ensures
        ({
            let end = (AutoCloseView::ListingRoles { window_id }).after(panes).after(windows).after(
                clients,
            );
            end.next_step() != StepView::Done ==> {
                &&& end.next_step() == step::tmux(seq!["kill-window"@, "-t"@, window_id])
                &&& panes is Some
                &&& crate::text::fields::lines(panes->0).all(|line: Seq<char>| line == "sidebar"@)
                &&& count(windows) is Some
                &&& (count(windows)->0 > 1 || (count(windows)->0 == 1 && count(clients) is Some
                    && count(clients)->0 <= 1))
            }
        }),
{
}

/// Toggling everything is all or nothing: where some sidebar exists, the second
/// listing decides which panes go and nothing is created; where none exists,
/// each window is asked for once and nothing is removed.
pub proof fn toggle_all_is_one_sided(first: Option<Seq<char>>, second: Option<Seq<char>>)
    ensures
        ({
            let end = ToggleAllView::Looking.after(first).after(second);
            let found = first is Some && toggle::sidebars(first->0).len() > 0;
            &&& end is Finishing
            &&& found ==> forall|i: int|
                0 <= i < end->rest.len() ==> #[trigger] end->rest[i] == step::kill_pane(
                    toggle::sidebars(step::reply_text(second))[i],
                )
            &&& !found ==> forall|i: int|
                0 <= i < end->rest.len() ==> #[trigger] end->rest[i] == create_in(
                    toggle::window_paths(step::reply_text(second))[i],
                )
        }),
{
}

/// A command that lists panes of which all are sidebars closes their window
/// whenever the session has other windows, whatever its clients; a last window it
/// closes where one client at most is attached.
pub proof fn windows_of_sidebars_are_closed(
    window_id: Seq<char>,
    panes: Seq<char>,
    windows: nat,
    clients: Option<Seq<char>>,
    attached: nat,
)
    requires
        windows <= u32::MAX,
        attached <= u32::MAX,
        strings::trimmed(panes).len() > 0,
        forall|i: int|
            0 <= i < crate::text::fields::lines(panes).len() ==> (
            #[trigger] crate::text::fields::lines(panes)[i]) == "sidebar"@,
    ensures
        ({
            let listing = AutoCloseView::start(seq![window_id]);
            let counting = listing.after(Some(panes));
            let asking = counting.after(Some(numbers::decimal(windows)));
            let kill = StepView::Tmux { args: seq!["kill-window"@, "-t"@, window_id] };
            &&& listing.next_step() == step::list_panes(
                window_id,
                step::option_format(options::PANE_ROLE@),
            )
            &&& counting.next_step() == (StepView::Tmux {
                args: seq!["display-message"@, "-t"@, window_id, "-p"@, "#{session_windows}"@],
            })
            &&& asking.next_step() == (StepView::Tmux {
                args: seq!["display-message"@, "-t"@, window_id, "-p"@, "#{session_attached}"@],
            })
            &&& windows > 1 ==> asking.after(clients).next_step() == kill
            &&& windows == 1 ==> (asking.after(Some(numbers::decimal(attached))).next_step() == kill
                <==> attached <= 1)
            &&& windows == 1 ==> asking.after(None).next_step() == StepView::Done
            &&& windows == 0 ==> asking.after(clients).next_step() == StepView::Done
            &&& counting.after(None).after(clients).next_step() == StepView::Done
            &&& AutoCloseView::start(Seq::empty()).next_step() == StepView::Done
        }),
{
    numbers::decimals_are_plain(windows, ' ');
    numbers::decimal_round_trips(windows, u32::MAX as nat);
    numbers::decimals_are_plain(attached, ' ');
    numbers::decimal_round_trips(attached, u32::MAX as nat);
    toggle::lone_sidebars_are_closed(panes, windows as u32, count(clients));
    toggle::lone_sidebars_are_closed(panes, windows as u32, Some(attached as u32));
    toggle::lone_sidebars_are_closed(panes, windows as u32, None);
}

/// Toggling everything leaves out no pane and no window: where some sidebar
/// exists, every sidebar of the second listing is removed, in order; where none
/// does, or the first listing fails, every window gets a sidebar in its directory,
/// in order.
pub proof fn toggle_all_leaves_nothing_out(
    first: Option<Seq<char>>,
    second: Seq<char>,
    i: int,
)
    ensures
        ({
            let looking = ToggleAllView::Looking;
            let next = looking.after(first);
            let rest = next.after(Some(second))->rest;
            let found = toggle::sidebars(second);
            let windows = toggle::window_paths(second);
            &&& looking.next_step() == (StepView::Tmux {
                args: seq!["list-panes"@, "-a"@, "-F"@, toggle::role_format()],
            })
            &&& if first is Some && toggle::sidebars(first->0).len() > 0 {
                &&& next.next_step() == looking.next_step()
                &&& rest.len() == found.len()
                &&& 0 <= i < found.len() ==> rest[i] == (StepView::Tmux {
                    args: seq!["kill-pane"@, "-t"@, found[i]],
                })
            } else {
                &&& next.next_step() == (StepView::Tmux {
                    args: seq![
                        "list-panes"@,
                        "-a"@,
                        "-F"@,
                        "#{window_id}|#{pane_current_path}"@,
                    ],
                })
                &&& rest.len() == windows.len()
                &&& 0 <= i < windows.len() ==> rest[i] == (StepView::Toggle {
                    args: seq!["--create-only"@, windows[i].0, windows[i].1],
                })
            }
        }),
{
}

/// Blanks around a count do not matter, and a reply that is no number counts as
/// one that failed.
pub proof fn counts_are_read_without_blanks(
    n: nat,
    left: Seq<char>,
    right: Seq<char>,
    text: Seq<char>,
)
    requires
        strings::blank(left),
        strings::blank(right),
    ensures
        n <= u32::MAX ==> count(Some(left + numbers::decimal(n) + right)) == Some(n as u32),
        n > u32::MAX ==> count(Some(left + numbers::decimal(n) + right)) is None,
        numbers::parsed(strings::trimmed(text), u32::MAX as nat) is None ==> count(Some(text))
            is None,
        count(None) is None,
{
    numbers::blanks_around_a_number(n, left, right, u32::MAX as nat);
    numbers::decimal_round_trips(n, u32::MAX as nat);
}

/// A window stays where its panes could not be listed, where the listing is blank,
/// or where a pane of another role is left.
pub proof fn other_windows_stay(
    window_id: Seq<char>,
    panes: Option<Seq<char>>,
    windows: Option<Seq<char>>,
    clients: Option<Seq<char>>,
    i: int,
)
    requires
        panes matches Some(output) ==> strings::trimmed(output).len() == 0 || (0 <= i
            < crate::text::fields::lines(output).len() && crate::text::fields::lines(output)[i]
            != "sidebar"@),
    ensures
        AutoCloseView::start(seq![window_id]).after(panes).after(windows).after(
            clients,
        ).next_step() == StepView::Done,
{
}

} // verus!
