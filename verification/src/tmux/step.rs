//! The requests that a command makes of its surroundings, one at a time.

use vstd::prelude::*;

use crate::text::strings;

verus! {

/// One request. The reply is an optional text: what was printed, or nothing
/// where the request failed.
pub enum Step {
    /// Take the lock that serializes sidebar creation in a window.
    Lock { window_id: String },
    /// Expand a format for a target.
    Display { target: String, format: String },
    /// Run tmux with these arguments.
    Tmux { args: Vec<String> },
    /// Set an option of one pane.
    SetPaneOption { pane_id: String, option: String, value: String },
    /// Find the path of the running program.
    CurrentExe,
    /// Run the toggle command with these arguments to its end.
    Toggle { args: Vec<String> },
    /// Nothing more: the command exits.
    Done,
}

/// A request as mathematical text.
#[verifier::ext_equal]
pub enum StepView {
    Lock { window_id: Seq<char> },
    Display { target: Seq<char>, format: Seq<char> },
    Tmux { args: Seq<Seq<char>> },
    SetPaneOption { pane_id: Seq<char>, option: Seq<char>, value: Seq<char> },
    CurrentExe,
    Toggle { args: Seq<Seq<char>> },
    Done,
}

impl View for Step {
    type V = StepView;

    open spec fn view(&self) -> StepView {
        match self {
            Step::Lock { window_id } => StepView::Lock { window_id: window_id@ },
            Step::Display { target, format } => StepView::Display {
                target: target@,
                format: format@,
            },
            Step::Tmux { args } => StepView::Tmux { args: strings::texts(args@) },
            Step::SetPaneOption { pane_id, option, value } => StepView::SetPaneOption {
                pane_id: pane_id@,
                option: option@,
                value: value@,
            },
            Step::CurrentExe => StepView::CurrentExe,
            Step::Toggle { args } => StepView::Toggle { args: strings::texts(args@) },
            Step::Done => StepView::Done,
        }
    }
}

/// The requests in a list.
pub open spec fn views(list: Seq<Step>) -> Seq<StepView> {
    Seq::new(list.len(), |i: int| list[i]@)
}

/// The first of the requests that are left, or the end.
pub open spec fn head(rest: Seq<StepView>) -> StepView {
    if rest.len() > 0 {
        rest[0]
    } else {
        StepView::Done
    }
}

/// The requests that are left after the first.
pub open spec fn tail(rest: Seq<StepView>) -> Seq<StepView> {
    if rest.len() > 0 {
        rest.drop_first()
    } else {
        rest
    }
}

/// The text of a reply; a failed request counts as empty.
pub open spec fn reply_text(reply: Option<Seq<char>>) -> Seq<char> {
    match reply {
        Some(text) => text,
        None => Seq::empty(),
    }
}

/// The format that expands to the value of an option.
pub open spec fn option_format(option: Seq<char>) -> Seq<char> {
    "#{"@ + option + "}"@
}

/// Expands `format` for `target`.
pub open spec fn display(target: Seq<char>, format: Seq<char>) -> StepView {
    StepView::Display { target, format }
}

/// Reads `option` as seen by `target`.
pub open spec fn read_option(target: Seq<char>, option: Seq<char>) -> StepView {
    StepView::Display { target, format: option_format(option) }
}

/// Runs tmux with `args`.
pub open spec fn tmux(args: Seq<Seq<char>>) -> StepView {
    StepView::Tmux { args }
}

/// Removes a pane.
pub open spec fn kill_pane(pane_id: Seq<char>) -> StepView {
    tmux(seq!["kill-pane"@, "-t"@, pane_id])
}

/// Sets a window option.
pub open spec fn set_window_option(
    window_id: Seq<char>,
    option: Seq<char>,
    value: Seq<char>,
) -> StepView {
    tmux(seq!["set"@, "-w"@, "-t"@, window_id, option, value])
}

/// Unsets a window option.
pub open spec fn unset_window_option(window_id: Seq<char>, option: Seq<char>) -> StepView {
    tmux(seq!["set"@, "-wu"@, "-t"@, window_id, option])
}

/// Lists the panes of a window in `format`.
pub open spec fn list_panes(window_id: Seq<char>, format: Seq<char>) -> StepView {
    tmux(seq!["list-panes"@, "-t"@, window_id, "-F"@, format])
}

/// Lists the panes of all windows in `format`.
pub open spec fn list_all_panes(format: Seq<char>) -> StepView {
    tmux(seq!["list-panes"@, "-a"@, "-F"@, format])
}

/// The text of a reply; a failed request counts as empty.
pub fn text_of(reply: Option<String>) -> (text: String)
    ensures
        text@ == reply_text(strings::opt_text(reply)),
{
    match reply {
        Some(text) => text,
        None => String::new(),
    }
}

/// The format that expands to the value of an option.
pub fn format_option(option: &str) -> (format: String)
    ensures
        format@ == option_format(option@),
{
    strings::joined("#{", option, "}")
}

impl StepView {
    /// The exit code of a command that makes this request: 0 at its end, and
    /// none before.
    pub open spec fn code(self) -> Option<i32> {
        if self is Done {
            Some(0i32)
        } else {
            None
        }
    }
}

impl Step {
    /// The exit code of a command that makes this request: 0 at its end, and
    /// none before.
    pub fn exit_code(&self) -> (code: Option<i32>)
        ensures
            code == self@.code(),
    {
        match self {
            Step::Done => Some(0),
            _ => None,
        }
    }

    /// A second request with the same content.
    pub fn copy(&self) -> (same: Step)
        ensures
            same@ == self@,
    {
        match self {
            Step::Lock { window_id } => Step::Lock { window_id: window_id.clone() },
            Step::Display { target, format } => Step::Display {
                target: target.clone(),
                format: format.clone(),
            },
            Step::Tmux { args } => Step::Tmux { args: strings::copy_list(args) },
            Step::SetPaneOption { pane_id, option, value } => Step::SetPaneOption {
                pane_id: pane_id.clone(),
                option: option.clone(),
                value: value.clone(),
            },
            Step::CurrentExe => Step::CurrentExe,
            Step::Toggle { args } => Step::Toggle { args: strings::copy_list(args) },
            Step::Done => Step::Done,
        }
    }
}

/// No requests.
pub fn no_steps() -> (list: Vec<Step>)
    ensures
        views(list@) == Seq::<StepView>::empty(),
{
    let list: Vec<Step> = Vec::new();
    assert(views(list@) =~= Seq::<StepView>::empty());
    list
}

/// Appends a request to a list.
pub fn add_step(list: &mut Vec<Step>, next: Step)
    ensures
        views(final(list)@) == views(old(list)@).push(next@),
{
    list.push(next);
    assert(views(list@) =~= views(old(list)@).push(next@));
}

/// The first of the requests that are left, or the end.
pub fn first_step(rest: &Vec<Step>) -> (next: Step)
    ensures
        next@ == head(views(rest@)),
{
    if rest.len() > 0 {
        assert(views(rest@)[0] == rest@[0]@);
        rest[0].copy()
    } else {
        Step::Done
    }
}

/// The requests that are left after the first.
pub fn later_steps(rest: Vec<Step>) -> (later: Vec<Step>)
    ensures
        views(later@) == tail(views(rest@)),
{
    let mut later = rest;
    if later.len() > 0 {
        later.remove(0);
        assert(views(later@) =~= views(rest@).drop_first());
    }
    later
}

/// Runs tmux with the given arguments.
pub fn run(args: &[&str]) -> (step: Step)
    ensures
        step@ == tmux(Seq::new(args@.len(), |i: int| args@[i]@)),
{
    Step::Tmux { args: strings::string_list(args) }
}

/// Expands `format` for `target`.
pub fn ask(target: &str, format: &str) -> (step: Step)
    ensures
        step@ == display(target@, format@),
{
    Step::Display { target: target.to_owned(), format: format.to_owned() }
}

/// Reads `option` as seen by `target`.
pub fn ask_option(target: &str, option: &str) -> (step: Step)
    ensures
        step@ == read_option(target@, option@),
{
    Step::Display { target: target.to_owned(), format: format_option(option) }
}

/// Removes a pane.
pub fn kill(pane_id: &str) -> (step: Step)
    ensures
        step@ == kill_pane(pane_id@),
{
    let step = run(&["kill-pane", "-t", pane_id]);
    assert(step@ =~~= kill_pane(pane_id@));
    step
}

/// Sets a window option.
pub fn set_option(window_id: &str, option: &str, value: &str) -> (step: Step)
    ensures
        step@ == set_window_option(window_id@, option@, value@),
{
    let step = run(&["set", "-w", "-t", window_id, option, value]);
    assert(step@ =~~= set_window_option(window_id@, option@, value@));
    step
}

/// Unsets a window option.
pub fn unset_option(window_id: &str, option: &str) -> (step: Step)
    ensures
        step@ == unset_window_option(window_id@, option@),
{
    let step = run(&["set", "-wu", "-t", window_id, option]);
    assert(step@ =~~= unset_window_option(window_id@, option@));
    step
}

/// Lists the panes of a window in `format`.
pub fn list(window_id: &str, format: &str) -> (step: Step)
    ensures
        step@ == list_panes(window_id@, format@),
{
    let step = run(&["list-panes", "-t", window_id, "-F", format]);
    assert(step@ =~~= list_panes(window_id@, format@));
    step
}

/// Lists the panes of all windows in `format`.
pub fn list_all(format: &str) -> (step: Step)
    ensures
        step@ == list_all_panes(format@),
{
    let step = run(&["list-panes", "-a", "-F", format]);
    assert(step@ =~~= list_all_panes(format@));
    step
}

// ---- laws ----

/// Closing requests are made one after the other, in order, and then there is
/// nothing more.
pub proof fn closing_requests_are_made_in_order(first: StepView, rest: Seq<StepView>)
    ensures
        head(seq![first] + rest) == first,
        tail(seq![first] + rest) == rest,
        head(Seq::empty()) == StepView::Done,
        tail(Seq::empty()) == Seq::<StepView>::empty(),
{
    assert((seq![first] + rest).drop_first() =~= rest);
}

/// The value of an option is asked for by its name between braces.
pub proof fn options_are_asked_for_by_name(target: Seq<char>, option: Seq<char>)
    ensures
        read_option(target, option) == (StepView::Display {
            target,
            format: seq!['#', '{'] + option + seq!['}'],
        }),
{
    reveal_strlit("#{");
    reveal_strlit("}");
    assert("#{"@ =~= seq!['#', '{']);
    assert("}"@ =~= seq!['}']);
}

/// A command ends, with exit code 0, exactly when none of its closing requests is
/// left.
pub proof fn commands_end_after_their_requests(rest: Seq<StepView>)
    requires
        forall|i: int| 0 <= i < rest.len() ==> (#[trigger] rest[i]) !is Done,
    ensures
        head(rest).code() == (if rest.len() == 0 {
            Some(0i32)
        } else {
            None
        }),
        rest.len() > 0 ==> tail(rest).len() == rest.len() - 1,
{
}

} // verus!
