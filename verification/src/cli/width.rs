//! Keeping the sidebar's width: restoring it when the window is resized, and
//! remembering it when the user drags the border.

use vstd::prelude::*;

use crate::cli::toggle;
use crate::text::fields;
use crate::text::numbers;
use crate::text::strings;
use crate::tmux::options;
use crate::tmux::step;
use crate::tmux::step::Step;
#[allow(unused_imports)]
use crate::tmux::step::StepView;

verus! {

/// Smallest sidebar width where the option is unset.
pub const DEFAULT_MIN_WIDTH: u32 = 36;

/// Largest sidebar width where the option is unset.
pub const DEFAULT_MAX_WIDTH: u32 = 64;

/// Largest share of the window, in percent, where the option is unset.
pub const DEFAULT_MAX_PERCENT: u32 = 30;

/// Columns that the main area keeps where the option is unset.
pub const DEFAULT_MAIN_MIN_WIDTH: u32 = 80;

/// A width limit: what the option resolves to, or the fallback.
pub open spec fn bound(value: Seq<char>, fallback: nat, window_width: nat) -> nat {
    match toggle::resolved_width(value, window_width) {
        Some(width) => width,
        None => fallback,
    }
}

/// Reads a width limit from the value of its option.
pub fn sidebar_bound(value: &str, fallback: u32, window_width: u32) -> (width: u32)
    ensures
        width == bound(value@, fallback as nat, window_width as nat),
{
    match toggle::resolve_sidebar_width(value, window_width) {
        Some(width) => width,
        None => fallback,
    }
}

/// The larger of two numbers.
pub open spec fn most(a: nat, b: nat) -> nat {
    if a >= b {
        a
    } else {
        b
    }
}

/// `width` moved into the range from `min` to `max`.
pub open spec fn clamped(width: nat, min: nat, max: nat) -> nat {
    if width < min {
        min
    } else if width > max {
        max
    } else {
        width
    }
}

/// The format under which panes are listed with their widths and roles.
pub open spec fn width_format() -> Seq<char> {
    "#{pane_id}|#{pane_width}|#{"@ + options::PANE_ROLE@ + "}"@
}

/// The first sidebar among lines of the form `pane_id|width|role`, with its
/// width as it was reported.
pub open spec fn first_sidebar_in(lines: Seq<Seq<char>>) -> Option<(Seq<char>, Seq<char>)>
    decreases lines.len(),
{
    if lines.len() == 0 {
        None
    } else {
        let parts = fields::fields(lines.first(), '|', Some(3));
        if parts.len() == 3 && parts[2] == "sidebar"@ {
            Some((parts[0], parts[1]))
        } else {
            first_sidebar_in(lines.drop_first())
        }
    }
}

/// The first sidebar that a pane listing names.
pub open spec fn first_sidebar(output: Seq<char>) -> Option<(Seq<char>, Seq<char>)> {
    first_sidebar_in(fields::lines(output))
}

/// Finds the first sidebar of a pane listing, with its reported width.
pub fn find_sidebar(output: &str) -> (found: Option<(String, String)>)
    ensures
        match found {
            Some((pane_id, width)) => first_sidebar(output@) == Some((pane_id@, width@)),
            None => first_sidebar(output@) is None,
        },
{
    let lines = fields::split_lines(output);
    let ghost all = strings::texts(lines@);
    assert(all.skip(0) == all);
    for i in 0..lines.len()
        invariant
            all == strings::texts(lines@),
            first_sidebar_in(all) == first_sidebar_in(all.skip(i as int)),
            all == fields::lines(output@),
    {
        assert(all.skip(i as int).first() == lines@[i as int]@);
        assert(all.skip(i as int).drop_first() == all.skip(i + 1));
        let mut parts = fields::split_fields(lines[i].as_str(), '|', Some(3));
        let ghost texts = strings::texts(parts@);
        assert(texts.len() == parts@.len());
        if parts.len() == 3 {
            assert(texts[0] == parts@[0]@ && texts[1] == parts@[1]@ && texts[2] == parts@[2]@);
            if strings::same_text(parts[2].as_str(), "sidebar") {
                return Some((parts[0].clone(), parts[1].clone()));
            }
        }
    }
    None
}

// ---- restoring ----

/// How far a width-keeping command has come.
pub enum MaintainWidth {
    ReadingWindowWidth { window_id: String },
    ReadingSetting { window_id: String, window_width: u32 },
    ReadingMin { window_id: String, window_width: u32, preferred: u32 },
    ReadingMax { window_id: String, window_width: u32, preferred: u32, min_width: u32 },
    ReadingMainMin { window_id: String, window_width: u32, width: u32 },
    ListingPanes { window_id: String, window_width: u32, width: u32, main_min: u32 },
    ReadingPath { window_id: String, pane_id: String },
    ReadingHidden { window_id: String },
    ReadingHiddenPath { window_id: String },
    Restoring { window_id: String, path: String },
    Finishing { rest: Vec<Step> },
}

/// The state of a width-keeping command, as mathematical values.
#[verifier::ext_equal]
pub enum MaintainView {
    /// About to read the window width.
    ReadingWindowWidth { window_id: Seq<char> },
    /// About to read the width setting.
    ReadingSetting { window_id: Seq<char>, window_width: nat },
    /// About to read the smallest width.
    ReadingMin { window_id: Seq<char>, window_width: nat, preferred: nat },
    /// About to read the largest width.
    ReadingMax { window_id: Seq<char>, window_width: nat, preferred: nat, min_width: nat },
    /// About to read what the main area must keep.
    ReadingMainMin { window_id: Seq<char>, window_width: nat, width: nat },
    /// About to list the panes with their widths.
    ListingPanes { window_id: Seq<char>, window_width: nat, width: nat, main_min: nat },
    /// About to read the directory of a sidebar that has to go.
    ReadingPath { window_id: Seq<char>, pane_id: Seq<char> },
    /// About to read whether the sidebar was hidden.
    ReadingHidden { window_id: Seq<char> },
    /// About to read the directory of the hidden sidebar.
    ReadingHiddenPath { window_id: Seq<char> },
    /// About to create the hidden sidebar again.
    Restoring { window_id: Seq<char>, path: Seq<char> },
    /// About to make requests whose replies no longer matter, then done.
    Finishing { rest: Seq<StepView> },
}

impl View for MaintainWidth {
    type V = MaintainView;

    open spec fn view(&self) -> MaintainView {
        match self {
            MaintainWidth::ReadingWindowWidth { window_id } => MaintainView::ReadingWindowWidth {
                window_id: window_id@,
            },
            MaintainWidth::ReadingSetting { window_id, window_width } =>
            MaintainView::ReadingSetting {
                window_id: window_id@,
                window_width: *window_width as nat,
            },
            MaintainWidth::ReadingMin { window_id, window_width, preferred } =>
            MaintainView::ReadingMin {
                window_id: window_id@,
                window_width: *window_width as nat,
                preferred: *preferred as nat,
            },
            MaintainWidth::ReadingMax { window_id, window_width, preferred, min_width } =>
            MaintainView::ReadingMax {
                window_id: window_id@,
                window_width: *window_width as nat,
                preferred: *preferred as nat,
                min_width: *min_width as nat,
            },
            MaintainWidth::ReadingMainMin { window_id, window_width, width } =>
            MaintainView::ReadingMainMin {
                window_id: window_id@,
                window_width: *window_width as nat,
                width: *width as nat,
            },
            MaintainWidth::ListingPanes { window_id, window_width, width, main_min } =>
            MaintainView::ListingPanes {
                window_id: window_id@,
                window_width: *window_width as nat,
                width: *width as nat,
                main_min: *main_min as nat,
            },
            MaintainWidth::ReadingPath { window_id, pane_id } => MaintainView::ReadingPath {
                window_id: window_id@,
                pane_id: pane_id@,
            },
            MaintainWidth::ReadingHidden { window_id } => MaintainView::ReadingHidden {
                window_id: window_id@,
            },
            MaintainWidth::ReadingHiddenPath { window_id } => MaintainView::ReadingHiddenPath {
                window_id: window_id@,
            },
            MaintainWidth::Restoring { window_id, path } => MaintainView::Restoring {
                window_id: window_id@,
                path: path@,
            },
            MaintainWidth::Finishing { rest } => MaintainView::Finishing {
                rest: step::views(rest@),
            },
        }
    }
}

/// What happens to a sidebar that no longer fits: it is marked as hidden, its
/// directory is kept where it is known, and the pane goes.
pub open spec fn stow(
    window_id: Seq<char>,
    pane_id: Seq<char>,
    path: Seq<char>,
) -> Seq<StepView> {
    let marked = seq![
        step::set_window_option(window_id, options::SIDEBAR_AUTO_HIDDEN@, "1"@),
    ];
    let placed = if path.len() > 0 {
        marked.push(
            step::set_window_option(window_id, options::SIDEBAR_AUTO_HIDDEN_PATH@, path),
        )
    } else {
        marked
    };
    placed.push(step::kill_pane(pane_id))
}

/// Announces an automatic resize and carries it out.
pub open spec fn resize(window_id: Seq<char>, pane_id: Seq<char>, width: nat) -> Seq<StepView> {
    seq![
        step::set_window_option(
            window_id,
            options::SIDEBAR_ADJUSTING_WIDTH@,
            numbers::decimal(width),
        ),
        step::tmux(seq!["resize-pane"@, "-t"@, pane_id, "-x"@, numbers::decimal(width)]),
    ]
}

impl MaintainView {
    /// The state in which a command with these arguments starts.
    pub open spec fn start(args: Seq<Seq<char>>) -> MaintainView {
        if args.len() == 0 {
            MaintainView::Finishing { rest: Seq::empty() }
        } else {
            MaintainView::ReadingWindowWidth { window_id: args[0] }
        }
    }

    /// The request that the command makes in this state.
    pub open spec fn next_step(self) -> StepView {
        match self {
            MaintainView::ReadingWindowWidth { window_id } => step::display(
                window_id,
                "#{window_width}"@,
            ),
            MaintainView::ReadingSetting { window_id, window_width } => step::read_option(
                window_id,
                options::SIDEBAR_WIDTH@,
            ),
            MaintainView::ReadingMin { window_id, window_width, preferred } => step::read_option(
                window_id,
                options::SIDEBAR_MIN_WIDTH@,
            ),
            MaintainView::ReadingMax { window_id, window_width, preferred, min_width } =>
            step::read_option(window_id, options::SIDEBAR_MAX_WIDTH@),
            MaintainView::ReadingMainMin { window_id, window_width, width } => step::read_option(
                window_id,
                options::SIDEBAR_MAIN_MIN_WIDTH@,
            ),
            MaintainView::ListingPanes { window_id, window_width, width, main_min } =>
            step::list_panes(window_id, width_format()),
            MaintainView::ReadingPath { window_id, pane_id } => step::display(
                pane_id,
                "#{pane_current_path}"@,
            ),
            MaintainView::ReadingHidden { window_id } => step::read_option(
                window_id,
                options::SIDEBAR_AUTO_HIDDEN@,
            ),
            MaintainView::ReadingHiddenPath { window_id } => step::read_option(
                window_id,
                options::SIDEBAR_AUTO_HIDDEN_PATH@,
            ),
            MaintainView::Restoring { window_id, path } => StepView::Toggle {
                args: seq!["--create-only"@, window_id, path],
            },
            MaintainView::Finishing { rest } => step::head(rest),
        }
    }

    /// The state after the reply to that request.
    pub open spec fn after(self, reply: Option<Seq<char>>) -> MaintainView {
        let text = step::reply_text(reply);
        match self {
            MaintainView::ReadingWindowWidth { window_id } => MaintainView::ReadingSetting {
                window_id,
                window_width: numbers::number_or(strings::trimmed(text), 0),
            },
            MaintainView::ReadingSetting { window_id, window_width } => match toggle::resolved_width(
                text,
                window_width,
            ) {
                Some(preferred) => MaintainView::ReadingMin { window_id, window_width, preferred },
                None => MaintainView::Finishing { rest: Seq::empty() },
            },
            MaintainView::ReadingMin { window_id, window_width, preferred } =>
            MaintainView::ReadingMax {
                window_id,
                window_width,
                preferred,
                min_width: bound(text, DEFAULT_MIN_WIDTH as nat, window_width),
            },
            MaintainView::ReadingMax { window_id, window_width, preferred, min_width } => {
                let max_width = most(
                    bound(text, DEFAULT_MAX_WIDTH as nat, window_width),
                    min_width,
                );
                MaintainView::ReadingMainMin {
                    window_id,
                    window_width,
                    width: clamped(preferred, min_width, max_width),
                }
            },
            MaintainView::ReadingMainMin { window_id, window_width, width } =>
            MaintainView::ListingPanes {
                window_id,
                window_width,
                width,
                main_min: numbers::number_or(
                    strings::trimmed(text),
                    DEFAULT_MAIN_MIN_WIDTH as nat,
                ),
            },
            MaintainView::ListingPanes { window_id, window_width, width, main_min } => {
                let sidebar = first_sidebar(text);
                if !toggle::fits(window_width, width, main_min) {
                    match sidebar {
                        Some((pane_id, current)) => MaintainView::ReadingPath {
                            window_id,
                            pane_id,
                        },
                        None => MaintainView::Finishing { rest: Seq::empty() },
                    }
                } else {
                    match sidebar {
                        Some((pane_id, current)) => MaintainView::Finishing {
                            rest: if toggle::width_differs(current, width) {
                                resize(window_id, pane_id, width)
                            } else {
                                Seq::empty()
                            },
                        },
                        None => MaintainView::ReadingHidden { window_id },
                    }
                }
            },
            MaintainView::ReadingPath { window_id, pane_id } => MaintainView::Finishing {
                rest: stow(window_id, pane_id, text),
            },
            MaintainView::ReadingHidden { window_id } => if text == "1"@ {
                MaintainView::ReadingHiddenPath { window_id }
            } else {
                MaintainView::Finishing { rest: Seq::empty() }
            },
            MaintainView::ReadingHiddenPath { window_id } => MaintainView::Restoring {
                window_id,
                path: if text.len() == 0 {
                    "~"@
                } else {
                    text
                },
            },
            MaintainView::Restoring { window_id, path } => MaintainView::ReadingWindowWidth {
                window_id,
            },
            MaintainView::Finishing { rest } => MaintainView::Finishing { rest: step::tail(rest) },
        }
    }
}

/// Starts a width-keeping command.
pub fn cmd_maintain_width(args: &[String]) -> (state: MaintainWidth)
    ensures
        state@ == MaintainView::start(strings::texts(args@)),
{
    assert(strings::texts(args@).len() == args@.len());
    if args.len() == 0 {
        MaintainWidth::Finishing { rest: step::no_steps() }
    } else {
        assert(strings::texts(args@)[0] == args@[0]@);
        MaintainWidth::ReadingWindowWidth { window_id: args[0].clone() }
    }
}

/// The requests that hide a sidebar.
fn stow_steps(window_id: &str, pane_id: &str, path: &str) -> (list: Vec<Step>)
    ensures
        step::views(list@) == stow(window_id@, pane_id@, path@),
{
    let mut list = step::no_steps();
    step::add_step(&mut list, step::set_option(window_id, options::SIDEBAR_AUTO_HIDDEN, "1"));
    assert(step::views(list@) =~= seq![
        step::set_window_option(window_id@, options::SIDEBAR_AUTO_HIDDEN@, "1"@),
    ]);
    if !path.is_empty() {
        step::add_step(
            &mut list,
            step::set_option(window_id, options::SIDEBAR_AUTO_HIDDEN_PATH, path),
        );
    }
    step::add_step(&mut list, step::kill(pane_id));
    list
}

/// The requests that resize a sidebar.
fn resize_steps(window_id: &str, pane_id: &str, width: u32) -> (list: Vec<Step>)
    ensures
        step::views(list@) == resize(window_id@, pane_id@, width as nat),
{
    let columns = numbers::to_decimal(width as u64);
    let mut list = step::no_steps();
    step::add_step(
        &mut list,
        step::set_option(window_id, options::SIDEBAR_ADJUSTING_WIDTH, columns.as_str()),
    );
    let change = step::run(&["resize-pane", "-t", pane_id, "-x", columns.as_str()]);
    assert(change@ =~~= resize(window_id@, pane_id@, width as nat)[1]);
    step::add_step(&mut list, change);
    assert(step::views(list@) =~= resize(window_id@, pane_id@, width as nat));
    list
}

impl MaintainWidth {
    /// The request that the command makes now.
    pub fn step(&self) -> (next: Step)
        ensures
            next@ == self@.next_step(),
    {
        match self {
            MaintainWidth::ReadingWindowWidth { window_id } => step::ask(
                window_id.as_str(),
                "#{window_width}",
            ),
            MaintainWidth::ReadingSetting { window_id, .. } => step::ask_option(
                window_id.as_str(),
                options::SIDEBAR_WIDTH,
            ),
            MaintainWidth::ReadingMin { window_id, .. } => step::ask_option(
                window_id.as_str(),
                options::SIDEBAR_MIN_WIDTH,
            ),
            MaintainWidth::ReadingMax { window_id, .. } => step::ask_option(
                window_id.as_str(),
                options::SIDEBAR_MAX_WIDTH,
            ),
            MaintainWidth::ReadingMainMin { window_id, .. } => step::ask_option(
                window_id.as_str(),
                options::SIDEBAR_MAIN_MIN_WIDTH,
            ),
            MaintainWidth::ListingPanes { window_id, .. } => {
                let format = strings::joined(
                    "#{pane_id}|#{pane_width}|#{",
                    options::PANE_ROLE,
                    "}",
                );
                step::list(window_id.as_str(), format.as_str())
            },
            MaintainWidth::ReadingPath { pane_id, .. } => step::ask(
                pane_id.as_str(),
                "#{pane_current_path}",
            ),
            MaintainWidth::ReadingHidden { window_id } => step::ask_option(
                window_id.as_str(),
                options::SIDEBAR_AUTO_HIDDEN,
            ),
            MaintainWidth::ReadingHiddenPath { window_id } => step::ask_option(
                window_id.as_str(),
                options::SIDEBAR_AUTO_HIDDEN_PATH,
            ),
            MaintainWidth::Restoring { window_id, path } => {
                let next = Step::Toggle {
                    args: strings::string_list(
                        &["--create-only", window_id.as_str(), path.as_str()],
                    ),
                };
                assert(next@ =~~= self@.next_step());
                next
            },
            MaintainWidth::Finishing { rest } => step::first_step(rest),
        }
    }

    /// Takes the reply to that request.
    pub fn resume(self, reply: Option<String>) -> (state: MaintainWidth)
        ensures
            state@ == self@.after(strings::opt_text(reply)),
    {
        let text = step::text_of(reply);
        match self {
            MaintainWidth::ReadingWindowWidth { window_id } => MaintainWidth::ReadingSetting {
                window_id,
                window_width: numbers::u32_or(strings::trim(text.as_str()), 0),
            },
            MaintainWidth::ReadingSetting { window_id, window_width } => {
                match toggle::resolve_sidebar_width(text.as_str(), window_width) {
                    Some(preferred) => MaintainWidth::ReadingMin {
                        window_id,
                        window_width,
                        preferred,
                    },
                    None => MaintainWidth::Finishing { rest: step::no_steps() },
                }
            },
            MaintainWidth::ReadingMin { window_id, window_width, preferred } => {
                let min_width: u32 = sidebar_bound(text.as_str(), DEFAULT_MIN_WIDTH, window_width);
                MaintainWidth::ReadingMax { window_id, window_width, preferred, min_width }
            },
            MaintainWidth::ReadingMax { window_id, window_width, preferred, min_width } => {
                let limit: u32 = sidebar_bound(text.as_str(), DEFAULT_MAX_WIDTH, window_width);
                let max_width: u32 = if limit >= min_width {
                    limit
                } else {
                    min_width
                };
                let width: u32 = if preferred < min_width {
                    min_width
                } else if preferred > max_width {
                    max_width
                } else {
                    preferred
                };
                MaintainWidth::ReadingMainMin { window_id, window_width, width }
            },
            MaintainWidth::ReadingMainMin { window_id, window_width, width } => {
                let main_min: u32 = numbers::u32_or(
                    strings::trim(text.as_str()),
                    DEFAULT_MAIN_MIN_WIDTH,
                );
                MaintainWidth::ListingPanes { window_id, window_width, width, main_min }
            },
            MaintainWidth::ListingPanes { window_id, window_width, width, main_min } => {
                let sidebar = find_sidebar(text.as_str());
                if !toggle::responsive_sidebar_fits(window_width, width, main_min) {
                    match sidebar {
                        Some((pane_id, _)) => MaintainWidth::ReadingPath { window_id, pane_id },
                        None => MaintainWidth::Finishing { rest: step::no_steps() },
                    }
                } else {
                    match sidebar {
                        Some((pane_id, current)) => {
                            if toggle::sidebar_width_changed(current.as_str(), width) {
                                MaintainWidth::Finishing {
                                    rest: resize_steps(
                                        window_id.as_str(),
                                        pane_id.as_str(),
                                        width,
                                    ),
                                }
                            } else {
                                MaintainWidth::Finishing { rest: step::no_steps() }
                            }
                        },
                        None => MaintainWidth::ReadingHidden { window_id },
                    }
                }
            },
            MaintainWidth::ReadingPath { window_id, pane_id } => MaintainWidth::Finishing {
                rest: stow_steps(window_id.as_str(), pane_id.as_str(), text.as_str()),
            },
            MaintainWidth::ReadingHidden { window_id } => {
                if strings::same_text(text.as_str(), "1") {
                    MaintainWidth::ReadingHiddenPath { window_id }
                } else {
                    MaintainWidth::Finishing { rest: step::no_steps() }
                }
            },
            MaintainWidth::ReadingHiddenPath { window_id } => {
                let path = if text.as_str().is_empty() {
                    "~".to_owned()
                } else {
                    text
                };
                MaintainWidth::Restoring { window_id, path }
            },
            MaintainWidth::Restoring { window_id, .. } => MaintainWidth::ReadingWindowWidth {
                window_id,
            },
            MaintainWidth::Finishing { rest } => MaintainWidth::Finishing {
                rest: step::later_steps(rest),
            },
        }
    }
}

// ---- remembering ----

/// How far a width-remembering command has come.
pub enum RememberWidth {
    ReadingRole { window_id: String, pane_id: String },
    ReadingAutomatic { window_id: String, pane_id: String },
    ReadingObserved { window_id: String, pane_id: String, automatic: String },
    Unmarking { window_id: String, automatic: String, observed: String },
    ReadingWindowWidth { window_id: String, observed: String },
    ReadingMin { window_id: String, observed: String, window_width: u32 },
    ReadingMax { window_id: String, observed: String, window_width: u32, min_width: u32 },
    ReadingPercent {
        window_id: String,
        observed: String,
        window_width: u32,
        min_width: u32,
        max_width: u32,
    },
    ReadingMainMin {
        window_id: String,
        observed: String,
        window_width: u32,
        min_width: u32,
        max_width: u32,
        max_percent: u32,
    },
    Finishing { rest: Vec<Step> },
}

/// The state of a width-remembering command, as mathematical values.
#[verifier::ext_equal]
pub enum RememberView {
    /// About to read the role of the resized pane.
    ReadingRole { window_id: Seq<char>, pane_id: Seq<char> },
    /// About to read which width an automatic resize announced.
    ReadingAutomatic { window_id: Seq<char>, pane_id: Seq<char> },
    /// About to read the width of the pane.
    ReadingObserved { window_id: Seq<char>, pane_id: Seq<char>, automatic: Seq<char> },
    /// About to forget the announcement.
    Unmarking { window_id: Seq<char>, automatic: Seq<char>, observed: Seq<char> },
    /// About to read the window width.
    ReadingWindowWidth { window_id: Seq<char>, observed: Seq<char> },
    /// About to read the smallest width.
    ReadingMin { window_id: Seq<char>, observed: Seq<char>, window_width: nat },
    /// About to read the largest width.
    ReadingMax { window_id: Seq<char>, observed: Seq<char>, window_width: nat, min_width: nat },
    /// About to read the largest share of the window.
    ReadingPercent {
        window_id: Seq<char>,
        observed: Seq<char>,
        window_width: nat,
        min_width: nat,
        max_width: nat,
    },
    /// About to read what the main area must keep.
    ReadingMainMin {
        window_id: Seq<char>,
        observed: Seq<char>,
        window_width: nat,
        min_width: nat,
        max_width: nat,
        max_percent: nat,
    },
    /// About to make requests whose replies no longer matter, then done.
    Finishing { rest: Seq<StepView> },
}

impl View for RememberWidth {
    type V = RememberView;

    open spec fn view(&self) -> RememberView {
        match self {
            RememberWidth::ReadingRole { window_id, pane_id } => RememberView::ReadingRole {
                window_id: window_id@,
                pane_id: pane_id@,
            },
            RememberWidth::ReadingAutomatic { window_id, pane_id } =>
            RememberView::ReadingAutomatic { window_id: window_id@, pane_id: pane_id@ },
            RememberWidth::ReadingObserved { window_id, pane_id, automatic } =>
            RememberView::ReadingObserved {
                window_id: window_id@,
                pane_id: pane_id@,
                automatic: automatic@,
            },
            RememberWidth::Unmarking { window_id, automatic, observed } =>
            RememberView::Unmarking {
                window_id: window_id@,
                automatic: automatic@,
                observed: observed@,
            },
            RememberWidth::ReadingWindowWidth { window_id, observed } =>
            RememberView::ReadingWindowWidth { window_id: window_id@, observed: observed@ },
            RememberWidth::ReadingMin { window_id, observed, window_width } =>
            RememberView::ReadingMin {
                window_id: window_id@,
                observed: observed@,
                window_width: *window_width as nat,
            },
            RememberWidth::ReadingMax { window_id, observed, window_width, min_width } =>
            RememberView::ReadingMax {
                window_id: window_id@,
                observed: observed@,
                window_width: *window_width as nat,
                min_width: *min_width as nat,
            },
            RememberWidth::ReadingPercent {
                window_id,
                observed,
                window_width,
                min_width,
                max_width,
            } => RememberView::ReadingPercent {
                window_id: window_id@,
                observed: observed@,
                window_width: *window_width as nat,
                min_width: *min_width as nat,
                max_width: *max_width as nat,
            },
            RememberWidth::ReadingMainMin {
                window_id,
                observed,
                window_width,
                min_width,
                max_width,
                max_percent,
            } => RememberView::ReadingMainMin {
                window_id: window_id@,
                observed: observed@,
                window_width: *window_width as nat,
                min_width: *min_width as nat,
                max_width: *max_width as nat,
                max_percent: *max_percent as nat,
            },
            RememberWidth::Finishing { rest } => RememberView::Finishing {
                rest: step::views(rest@),
            },
        }
    }
}

/// The largest share that an option value allows; anything but a positive
/// number counts as the default.
pub open spec fn percent_limit(value: Seq<char>) -> nat {
    match numbers::parsed(strings::trimmed(value), u32::MAX as nat) {
        Some(percent) => if percent > 0 {
            percent
        } else {
            DEFAULT_MAX_PERCENT as nat
        },
        None => DEFAULT_MAX_PERCENT as nat,
    }
}

/// Whether an observed width lies in the range to which the sidebar may be
/// dragged.
pub open spec fn accepted(
    observed: nat,
    window_width: nat,
    min_width: nat,
    max_width: nat,
    max_percent: nat,
    main_min: nat,
) -> bool {
    min_width <= observed <= toggle::drag_limit(window_width, max_width, max_percent, main_min)
}

impl RememberView {
    /// The state in which a command with these arguments starts.
    pub open spec fn start(args: Seq<Seq<char>>) -> RememberView {
        if args.len() < 2 {
            RememberView::Finishing { rest: Seq::empty() }
        } else {
            RememberView::ReadingRole { window_id: args[0], pane_id: args[1] }
        }
    }

    /// The request that the command makes in this state.
    pub open spec fn next_step(self) -> StepView {
        match self {
            RememberView::ReadingRole { window_id, pane_id } => step::read_option(
                pane_id,
                options::PANE_ROLE@,
            ),
            RememberView::ReadingAutomatic { window_id, pane_id } => step::read_option(
                window_id,
                options::SIDEBAR_ADJUSTING_WIDTH@,
            ),
            RememberView::ReadingObserved { window_id, pane_id, automatic } => step::display(
                pane_id,
                "#{pane_width}"@,
            ),
            RememberView::Unmarking { window_id, automatic, observed } => step::unset_window_option(
                window_id,
                options::SIDEBAR_ADJUSTING_WIDTH@,
            ),
            RememberView::ReadingWindowWidth { window_id, observed } => step::display(
                window_id,
                "#{window_width}"@,
            ),
            RememberView::ReadingMin { window_id, observed, window_width } => step::read_option(
                window_id,
                options::SIDEBAR_MIN_WIDTH@,
            ),
            RememberView::ReadingMax { window_id, observed, window_width, min_width } =>
            step::read_option(window_id, options::SIDEBAR_MAX_WIDTH@),
            RememberView::ReadingPercent {
                window_id,
                observed,
                window_width,
                min_width,
                max_width,
            } => step::read_option(window_id, options::SIDEBAR_MAX_WIDTH_PERCENT@),
            RememberView::ReadingMainMin {
                window_id,
                observed,
                window_width,
                min_width,
                max_width,
                max_percent,
            } => step::read_option(window_id, options::SIDEBAR_MAIN_MIN_WIDTH@),
            RememberView::Finishing { rest } => step::head(rest),
        }
    }

    /// The state after the reply to that request.
    pub open spec fn after(self, reply: Option<Seq<char>>) -> RememberView {
        let text = step::reply_text(reply);
        match self {
            RememberView::ReadingRole { window_id, pane_id } => if text == "sidebar"@ {
                RememberView::ReadingAutomatic { window_id, pane_id }
            } else {
                RememberView::Finishing { rest: Seq::empty() }
            },
            RememberView::ReadingAutomatic { window_id, pane_id } => RememberView::ReadingObserved {
                window_id,
                pane_id,
                automatic: text,
            },
            RememberView::ReadingObserved { window_id, pane_id, automatic } => if automatic.len()
                > 0 {
                RememberView::Unmarking { window_id, automatic, observed: text }
            } else {
                RememberView::ReadingWindowWidth { window_id, observed: text }
            },
            RememberView::Unmarking { window_id, automatic, observed } => if automatic == observed {
                RememberView::Finishing { rest: Seq::empty() }
            } else {
                RememberView::ReadingWindowWidth { window_id, observed }
            },
            RememberView::ReadingWindowWidth { window_id, observed } => RememberView::ReadingMin {
                window_id,
                observed,
                window_width: numbers::number_or(strings::trimmed(text), 0),
            },
            RememberView::ReadingMin { window_id, observed, window_width } =>
            RememberView::ReadingMax {
                window_id,
                observed,
                window_width,
                min_width: bound(text, DEFAULT_MIN_WIDTH as nat, window_width),
            },
            RememberView::ReadingMax { window_id, observed, window_width, min_width } =>
            RememberView::ReadingPercent {
                window_id,
                observed,
                window_width,
                min_width,
                max_width: most(bound(text, DEFAULT_MAX_WIDTH as nat, window_width), min_width),
            },
            RememberView::ReadingPercent {
                window_id,
                observed,
                window_width,
                min_width,
                max_width,
            } => RememberView::ReadingMainMin {
                window_id,
                observed,
                window_width,
                min_width,
                max_width,
                max_percent: percent_limit(text),
            },
            RememberView::ReadingMainMin {
                window_id,
                observed,
                window_width,
                min_width,
                max_width,
                max_percent,
            } => {
                let main_min = numbers::number_or(
                    strings::trimmed(text),
                    DEFAULT_MAIN_MIN_WIDTH as nat,
                );
                RememberView::Finishing {
                    rest: match numbers::parsed(observed, u32::MAX as nat) {
                        Some(width) => if accepted(
                            width,
                            window_width,
                            min_width,
                            max_width,
                            max_percent,
                            main_min,
                        ) {
                            seq![
                                step::set_window_option(
                                    window_id,
                                    options::SIDEBAR_WIDTH@,
                                    numbers::decimal(width),
                                ),
                            ]
                        } else {
                            Seq::empty()
                        },
                        None => Seq::empty(),
                    },
                }
            },
            RememberView::Finishing { rest } => RememberView::Finishing { rest: step::tail(rest) },
        }
    }
}

/// Starts a width-remembering command.
pub fn cmd_remember_width(args: &[String]) -> (state: RememberWidth)
    ensures
        state@ == RememberView::start(strings::texts(args@)),
{
    let ghost all = strings::texts(args@);
    assert(all.len() == args@.len());
    if args.len() < 2 {
        RememberWidth::Finishing { rest: step::no_steps() }
    } else {
        assert(all[0] == args@[0]@ && all[1] == args@[1]@);
        RememberWidth::ReadingRole { window_id: args[0].clone(), pane_id: args[1].clone() }
    }
}

impl RememberWidth {
    /// The request that the command makes now.
    pub fn step(&self) -> (next: Step)
        ensures
            next@ == self@.next_step(),
    {
        match self {
            RememberWidth::ReadingRole { pane_id, .. } => step::ask_option(
                pane_id.as_str(),
                options::PANE_ROLE,
            ),
            RememberWidth::ReadingAutomatic { window_id, .. } => step::ask_option(
                window_id.as_str(),
                options::SIDEBAR_ADJUSTING_WIDTH,
            ),
            RememberWidth::ReadingObserved { pane_id, .. } => step::ask(
                pane_id.as_str(),
                "#{pane_width}",
            ),
            RememberWidth::Unmarking { window_id, .. } => step::unset_option(
                window_id.as_str(),
                options::SIDEBAR_ADJUSTING_WIDTH,
            ),
            RememberWidth::ReadingWindowWidth { window_id, .. } => step::ask(
                window_id.as_str(),
                "#{window_width}",
            ),
            RememberWidth::ReadingMin { window_id, .. } => step::ask_option(
                window_id.as_str(),
                options::SIDEBAR_MIN_WIDTH,
            ),
            RememberWidth::ReadingMax { window_id, .. } => step::ask_option(
                window_id.as_str(),
                options::SIDEBAR_MAX_WIDTH,
            ),
            RememberWidth::ReadingPercent { window_id, .. } => step::ask_option(
                window_id.as_str(),
                options::SIDEBAR_MAX_WIDTH_PERCENT,
            ),
            RememberWidth::ReadingMainMin { window_id, .. } => step::ask_option(
                window_id.as_str(),
                options::SIDEBAR_MAIN_MIN_WIDTH,
            ),
            RememberWidth::Finishing { rest } => step::first_step(rest),
        }
    }

    /// Takes the reply to that request.
    pub fn resume(self, reply: Option<String>) -> (state: RememberWidth)
        ensures
            state@ == self@.after(strings::opt_text(reply)),
    {
        let text = step::text_of(reply);
        match self {
            RememberWidth::ReadingRole { window_id, pane_id } => {
                if strings::same_text(text.as_str(), "sidebar") {
                    RememberWidth::ReadingAutomatic { window_id, pane_id }
                } else {
                    RememberWidth::Finishing { rest: step::no_steps() }
                }
            },
            RememberWidth::ReadingAutomatic { window_id, pane_id } =>
            RememberWidth::ReadingObserved { window_id, pane_id, automatic: text },
            RememberWidth::ReadingObserved { window_id, automatic, .. } => {
                if !automatic.as_str().is_empty() {
                    RememberWidth::Unmarking { window_id, automatic, observed: text }
                } else {
                    RememberWidth::ReadingWindowWidth { window_id, observed: text }
                }
            },
            RememberWidth::Unmarking { window_id, automatic, observed } => {
                if strings::same_text(automatic.as_str(), observed.as_str()) {
                    RememberWidth::Finishing { rest: step::no_steps() }
                } else {
                    RememberWidth::ReadingWindowWidth { window_id, observed }
                }
            },
            RememberWidth::ReadingWindowWidth { window_id, observed } => RememberWidth::ReadingMin {
                window_id,
                observed,
                window_width: numbers::u32_or(strings::trim(text.as_str()), 0),
            },
            RememberWidth::ReadingMin { window_id, observed, window_width } => {
                let min_width: u32 = sidebar_bound(text.as_str(), DEFAULT_MIN_WIDTH, window_width);
                RememberWidth::ReadingMax { window_id, observed, window_width, min_width }
            },
            RememberWidth::ReadingMax { window_id, observed, window_width, min_width } => {
                let limit: u32 = sidebar_bound(text.as_str(), DEFAULT_MAX_WIDTH, window_width);
                let max_width: u32 = if limit >= min_width {
                    limit
                } else {
                    min_width
                };
                RememberWidth::ReadingPercent {
                    window_id,
                    observed,
                    window_width,
                    min_width,
                    max_width,
                }
            },
            RememberWidth::ReadingPercent {
                window_id,
                observed,
                window_width,
                min_width,
                max_width,
            } => {
                let max_percent: u32 = match numbers::parse_u32(strings::trim(text.as_str())) {
                    Some(percent) => if percent > 0 {
                        percent
                    } else {
                        DEFAULT_MAX_PERCENT
                    },
                    None => DEFAULT_MAX_PERCENT,
                };
                RememberWidth::ReadingMainMin {
                    window_id,
                    observed,
                    window_width,
                    min_width,
                    max_width,
                    max_percent,
                }
            },
            RememberWidth::ReadingMainMin {
                window_id,
                observed,
                window_width,
                min_width,
                max_width,
                max_percent,
            } => {
                let main_min: u32 = numbers::u32_or(
                    strings::trim(text.as_str()),
                    DEFAULT_MAIN_MIN_WIDTH,
                );
                let mut rest = step::no_steps();
                if let Some(width) = numbers::parse_u32(observed.as_str()) {
                    let range = toggle::drag_width_range(
                        window_width,
                        min_width,
                        max_width,
                        max_percent,
                        main_min,
                    );
                    let inside = match range {
                        Some(r) => r.contains(&width),
                        None => false,
                    };
                    assert(inside == accepted(
                        width as nat,
                        window_width as nat,
                        min_width as nat,
                        max_width as nat,
                        max_percent as nat,
                        main_min as nat,
                    ));
                    if inside {
                        let columns = numbers::to_decimal(width as u64);
                        step::add_step(
                            &mut rest,
                            step::set_option(
                                window_id.as_str(),
                                options::SIDEBAR_WIDTH,
                                columns.as_str(),
                            ),
                        );
                        assert(step::views(rest@) =~= seq![
                            step::set_window_option(
                                window_id@,
                                options::SIDEBAR_WIDTH@,
                                numbers::decimal(width as nat),
                            ),
                        ]);
                    }
                }
                RememberWidth::Finishing { rest }
            },
            RememberWidth::Finishing { rest } => RememberWidth::Finishing {
                rest: step::later_steps(rest),
            },
        }
    }
}

// ---- laws ----

/// A window that has room for a sidebar still has it when it grows, and a
/// narrower sidebar fits wherever a wider one does.
pub proof fn room_grows_with_the_window(
    window_width: nat,
    wider_window: nat,
    sidebar: nat,
    narrower_sidebar: nat,
    main_min: nat,
)
    requires
        toggle::fits(window_width, sidebar, main_min),
        window_width <= wider_window,
        narrower_sidebar <= sidebar,
    ensures
        toggle::fits(wider_window, narrower_sidebar, main_min),
{
}

/// A width setting never resolves to zero columns.
pub proof fn resolved_widths_are_positive(setting: Seq<char>, window_width: nat)
    ensures
        toggle::resolved_width(setting, window_width) matches Some(width) ==> width > 0,
{
}

/// Every width to which the sidebar may be dragged lies between the limits and
/// leaves the main area its columns.
pub proof fn dragged_widths_fit(
    width: nat,
    window_width: nat,
    min_width: nat,
    max_width: nat,
    max_percent: nat,
    main_min: nat,
)
    requires
        accepted(width, window_width, min_width, max_width, max_percent, main_min),
        0 < min_width,
        window_width <= u32::MAX,
    ensures
        min_width <= width <= max_width,
        width <= toggle::share(window_width, max_percent),
        toggle::fits(window_width, width, main_min),
{
}

/// A width that is written as an option reads back as itself, whatever the
/// width of the window.
pub proof fn written_width_reads_back(width: nat, window_width: nat)
    requires
        0 < width <= u32::MAX,
    ensures
        toggle::resolved_width(numbers::decimal(width), window_width) == Some(width),
{
    let text = numbers::decimal(width);
    numbers::lemma_decimal(width);
    numbers::decimal_round_trips(width, u32::MAX as nat);
    assert(numbers::is_digit(text[0]));
    assert(numbers::is_digit(text[text.len() - 1]));
    assert(strings::trimmed_start(text) == text);
    assert(strings::trimmed_end(text) == text);
}

/// A width that the user dragged to and that was remembered is the one to
/// which the sidebar is restored in a window of the same size: the width keeper
/// settles on it, and it fits.
pub proof fn remembered_width_is_restored(
    width: nat,
    window_id: Seq<char>,
    window_width: nat,
    min_text: Seq<char>,
    max_text: Seq<char>,
    max_percent: nat,
    main_text: Seq<char>,
)
    requires
        width <= u32::MAX,
        window_width <= u32::MAX,
        accepted(
            width,
            window_width,
            bound(min_text, DEFAULT_MIN_WIDTH as nat, window_width),
            most(
                bound(max_text, DEFAULT_MAX_WIDTH as nat, window_width),
                bound(min_text, DEFAULT_MIN_WIDTH as nat, window_width),
            ),
            max_percent,
            numbers::number_or(strings::trimmed(main_text), DEFAULT_MAIN_MIN_WIDTH as nat),
        ),
    ensures
        ({
            let main_min = numbers::number_or(
                strings::trimmed(main_text),
                DEFAULT_MAIN_MIN_WIDTH as nat,
            );
            let start = MaintainView::ReadingSetting { window_id, window_width };
            let listing = start.after(Some(numbers::decimal(width))).after(Some(min_text)).after(
                Some(max_text),
            ).after(Some(main_text));
            &&& listing == MaintainView::ListingPanes { window_id, window_width, width, main_min }
            &&& toggle::fits(window_width, width, main_min)
        }),
{
    let min_width = bound(min_text, DEFAULT_MIN_WIDTH as nat, window_width);
    let max_width = most(bound(max_text, DEFAULT_MAX_WIDTH as nat, window_width), min_width);
    let main_min = numbers::number_or(strings::trimmed(main_text), DEFAULT_MAIN_MIN_WIDTH as nat);
    resolved_widths_are_positive(min_text, window_width);
    dragged_widths_fit(width, window_width, min_width, max_width, max_percent, main_min);
    written_width_reads_back(width, window_width);
}

/// The width keeper never squeezes: where the wanted width does not fit, it
/// resizes nothing and takes an existing sidebar away; where it fits, it
/// removes nothing, and any resize is to exactly the wanted width.
pub proof fn width_is_indivisible(
    window_id: Seq<char>,
    window_width: nat,
    width: nat,
    main_min: nat,
    output: Seq<char>,
)
    ensures
        ({
            let next = (MaintainView::ListingPanes {
                window_id,
                window_width,
                width,
                main_min,
            }).after(Some(output));
            if toggle::fits(window_width, width, main_min) {
                match first_sidebar(output) {
                    Some((pane_id, current)) => next == (MaintainView::Finishing {
                        rest: resize(window_id, pane_id, width),
                    }) || (next == (MaintainView::Finishing { rest: Seq::empty() })
                        && !toggle::width_differs(current, width)),
                    None => next is ReadingHidden,
                }
            } else {
                match first_sidebar(output) {
                    Some((pane_id, current)) => forall|path: Option<Seq<char>>|
                        (#[trigger] next.after(path)) == (MaintainView::Finishing {
                            rest: stow(window_id, pane_id, step::reply_text(path)),
                        }),
                    None => next.next_step() == StepView::Done,
                }
            }
        }),
{
}

impl RememberView {
    /// The state after a run of replies to a command with these arguments.
    pub open spec fn reached(args: Seq<Seq<char>>, replies: Seq<Option<Seq<char>>>) -> RememberView
        decreases replies.len(),
    {
        if replies.len() == 0 {
            Self::start(args)
        } else {
            Self::reached(args, replies.drop_last()).after(replies.last())
        }
    }

    /// Whether the limits that the command has read make sense.
    pub open spec fn limits_ordered(self) -> bool {
        match self {
            RememberView::ReadingMin { window_id, observed, window_width } => window_width
                <= u32::MAX,
            RememberView::ReadingMax { window_id, observed, window_width, min_width } => 0
                < min_width && window_width <= u32::MAX,
            RememberView::ReadingPercent {
                window_id,
                observed,
                window_width,
                min_width,
                max_width,
            } => 0 < min_width <= max_width && window_width <= u32::MAX,
            RememberView::ReadingMainMin {
                window_id,
                observed,
                window_width,
                min_width,
                max_width,
                max_percent,
            } => 0 < min_width <= max_width && window_width <= u32::MAX && max_percent > 0,
            _ => true,
        }
    }
}

/// Whatever is replied, a width-remembering command works with a positive
/// minimum and a maximum that is no smaller.
pub proof fn limits_stay_ordered(args: Seq<Seq<char>>, replies: Seq<Option<Seq<char>>>)
    ensures
        RememberView::reached(args, replies).limits_ordered(),
    decreases replies.len(),
{
    if replies.len() > 0 {
        limits_stay_ordered(args, replies.drop_last());
    }
}

/// Only widths that fit are remembered: whatever was replied before, the last
/// reply either stores nothing, or stores a width that the window has room for
/// next to its main area.
pub proof fn only_fitting_widths_are_remembered(
    args: Seq<Seq<char>>,
    replies: Seq<Option<Seq<char>>>,
    reply: Option<Seq<char>>,
)
    requires
        RememberView::reached(args, replies) is ReadingMainMin,
    ensures
        ({
            let state = RememberView::reached(args, replies);
            let main_min = numbers::number_or(
                strings::trimmed(step::reply_text(reply)),
                DEFAULT_MAIN_MIN_WIDTH as nat,
            );
            let rest = state.after(reply)->rest;
            rest.len() > 0 ==> (exists|width: nat|
                rest == seq![
                    #[trigger] step::set_window_option(
                        state->ReadingMainMin_window_id,
                        options::SIDEBAR_WIDTH@,
                        numbers::decimal(width),
                    ),
                ] && toggle::fits(state->ReadingMainMin_window_width, width, main_min)
                    && state->ReadingMainMin_min_width <= width
                    <= state->ReadingMainMin_max_width)
        }),
{
    limits_stay_ordered(args, replies);
    let state = RememberView::reached(args, replies);
    let main_min = numbers::number_or(
        strings::trimmed(step::reply_text(reply)),
        DEFAULT_MAIN_MIN_WIDTH as nat,
    );
    let rest = state.after(reply)->rest;
    if rest.len() > 0 {
        let width = numbers::parsed(state->ReadingMainMin_observed, u32::MAX as nat)->0;
        dragged_widths_fit(
            width,
            state->ReadingMainMin_window_width,
            state->ReadingMainMin_min_width,
            state->ReadingMainMin_max_width,
            state->ReadingMainMin_max_percent,
            main_min,
        );
        assert(rest == seq![
            step::set_window_option(
                state->ReadingMainMin_window_id,
                options::SIDEBAR_WIDTH@,
                numbers::decimal(width),
            ),
        ]);
    }
}

/// A limit of so many columns is that limit, whatever the default; the default
/// counts only where the option does not resolve.
pub proof fn configured_limits_count(n: nat, fallback: nat, window_width: nat, text: Seq<char>)
    requires
        0 < n <= u32::MAX,
    ensures
        bound(numbers::decimal(n), fallback, window_width) == n,
        toggle::resolved_width(text, window_width) is None ==> bound(text, fallback, window_width)
            == fallback,
        toggle::resolved_width(text, window_width) matches Some(width) ==> bound(
            text,
            fallback,
            window_width,
        ) == width,
        bound(Seq::empty(), fallback, window_width) == fallback,
{
    written_width_reads_back(n, window_width);
    lemma_nothing_resolves(window_width);
}

/// An empty option does not resolve and is no number.
proof fn lemma_nothing_resolves(window_width: nat)
    ensures
        toggle::resolved_width(Seq::empty(), window_width) is None,
        strings::trimmed(Seq::empty()) == Seq::<char>::empty(),
        numbers::parsed(Seq::empty(), u32::MAX as nat) is None,
{
    let none = Seq::<char>::empty();
    strings::padding_is_trimmed(none, none, none);
    assert(none + none + none =~= none);
}

/// What the decimal of a number says, on its own and as an option.
proof fn lemma_option_says(n: nat, window_width: nat)
    requires
        n <= u32::MAX,
    ensures
        strings::trimmed(numbers::decimal(n)) == numbers::decimal(n),
        numbers::parsed(numbers::decimal(n), u32::MAX as nat) == Some(n),
        n > 0 ==> toggle::resolved_width(numbers::decimal(n), window_width) == Some(n),
{
    numbers::decimals_are_plain(n, ' ');
    numbers::decimal_round_trips(n, u32::MAX as nat);
    if n > 0 {
        written_width_reads_back(n, window_width);
    }
}

impl MaintainView {
    /// The state of a width keeper that has read the width of the window and its
    /// options, each told by what was replied.
    pub open spec fn informed(
        window_id: Seq<char>,
        window_width: nat,
        preferred: nat,
        min_width: Option<Seq<char>>,
        max_width: Option<Seq<char>>,
        main_min: Option<Seq<char>>,
    ) -> MaintainView {
        MaintainView::start(seq![window_id]).after(Some(numbers::decimal(window_width))).after(
            Some(numbers::decimal(preferred)),
        ).after(min_width).after(max_width).after(main_min)
    }
}

/// The width keeper keeps the preferred width where it lies between the configured
/// limits, and the nearest limit where it does not; the smallest width counts more
/// than the largest.
pub proof fn preferred_widths_are_kept_within_limits(
    window_id: Seq<char>,
    window_width: nat,
    preferred: nat,
    min_width: nat,
    max_width: nat,
    main_min: nat,
)
    requires
        window_width <= u32::MAX,
        0 < preferred <= u32::MAX,
        0 < min_width <= u32::MAX,
        0 < max_width <= u32::MAX,
        main_min <= u32::MAX,
    ensures
        ({
            let state = MaintainView::informed(
                window_id,
                window_width,
                preferred,
                Some(numbers::decimal(min_width)),
                Some(numbers::decimal(max_width)),
                Some(numbers::decimal(main_min)),
            );
            let width = state->ListingPanes_width;
            &&& state is ListingPanes
            &&& state->ListingPanes_window_id == window_id
            &&& state->ListingPanes_window_width == window_width
            &&& state->ListingPanes_main_min == main_min
            &&& min_width <= preferred <= max_width ==> width == preferred
            &&& preferred < min_width ==> width == min_width
            &&& min_width <= max_width < preferred ==> width == max_width
            &&& max_width < min_width <= preferred ==> width == min_width
        }),
{
    lemma_option_says(window_width, window_width);
    lemma_option_says(preferred, window_width);
    lemma_option_says(min_width, window_width);
    lemma_option_says(max_width, window_width);
    lemma_option_says(main_min, window_width);
}

/// Where the limits are not configured, a sidebar has from 36 to 64 columns and
/// leaves 80 to the main area.
pub proof fn unset_limits_are_36_64_and_80(
    window_id: Seq<char>,
    window_width: nat,
    preferred: nat,
    unset: Option<Seq<char>>,
)
    requires
        window_width <= u32::MAX,
        0 < preferred <= u32::MAX,
        unset matches Some(text) ==> text.len() == 0,
    ensures
        ({
            let state = MaintainView::informed(
                window_id,
                window_width,
                preferred,
                unset,
                unset,
                unset,
            );
            let width = state->ListingPanes_width;
            &&& state is ListingPanes
            &&& state->ListingPanes_main_min == 80
            &&& 36 <= preferred <= 64 ==> width == preferred
            &&& preferred < 36 ==> width == 36
            &&& preferred > 64 ==> width == 64
        }),
{
    lemma_option_says(window_width, window_width);
    lemma_option_says(preferred, window_width);
    lemma_nothing_resolves(window_width);
    assert(step::reply_text(unset) =~= Seq::<char>::empty());
}

/// The width keeper asks for the width of its window, then for the preferred, the
/// smallest and the largest width, then for the columns of the main area, and then
/// for the panes. Without a preferred width it does nothing.
pub proof fn width_keepers_ask_in_order(
    window_id: Seq<char>,
    window_width: nat,
    preferred: nat,
    min_width: Option<Seq<char>>,
    max_width: Option<Seq<char>>,
    main_min: Option<Seq<char>>,
)
    requires
        window_width <= u32::MAX,
        0 < preferred <= u32::MAX,
    ensures
        ({
            let start = MaintainView::start(seq![window_id]);
            let setting = start.after(Some(numbers::decimal(window_width)));
            let min = setting.after(Some(numbers::decimal(preferred)));
            let max = min.after(min_width);
            let main = max.after(max_width);
            &&& start.next_step() == (StepView::Display {
                target: window_id,
                format: "#{window_width}"@,
            })
            &&& setting.next_step() == step::read_option(window_id, options::SIDEBAR_WIDTH@)
            &&& setting.after(None).next_step() == StepView::Done
            &&& min.next_step() == step::read_option(window_id, options::SIDEBAR_MIN_WIDTH@)
            &&& max.next_step() == step::read_option(window_id, options::SIDEBAR_MAX_WIDTH@)
            &&& main.next_step() == step::read_option(window_id, options::SIDEBAR_MAIN_MIN_WIDTH@)
            &&& main.after(main_min).next_step() == step::list_panes(window_id, width_format())
            &&& MaintainView::start(Seq::empty()).next_step() == StepView::Done
        }),
{
    lemma_option_says(window_width, window_width);
    lemma_option_says(preferred, window_width);
    lemma_nothing_resolves(window_width);
}

/// A sidebar that fits is resized exactly where it has other columns than wanted,
/// and the resize is announced by the same number.
pub proof fn fitting_sidebars_are_brought_to_their_width(
    window_id: Seq<char>,
    window_width: nat,
    width: nat,
    main_min: nat,
    output: Seq<char>,
    pane_id: Seq<char>,
    current: nat,
)
    requires
        width + main_min + 1 <= window_width <= u32::MAX,
        current <= u32::MAX,
        first_sidebar(output) == Some((pane_id, numbers::decimal(current))),
    ensures
        ({
            let end = (MaintainView::ListingPanes { window_id, window_width, width, main_min }).after(
                Some(output),
            );
            &&& current == width ==> end.next_step() == StepView::Done
            &&& current != width ==> end == (MaintainView::Finishing {
                rest: seq![
                    StepView::Tmux {
                        args: seq![
                            "set"@,
                            "-w"@,
                            "-t"@,
                            window_id,
                            options::SIDEBAR_ADJUSTING_WIDTH@,
                            numbers::decimal(width),
                        ],
                    },
                    StepView::Tmux {
                        args: seq![
                            "resize-pane"@,
                            "-t"@,
                            pane_id,
                            "-x"@,
                            numbers::decimal(width),
                        ],
                    },
                ],
            })
        }),
{
    toggle::reported_widths_are_compared_as_numbers(current, width, output);
}

/// A sidebar without room goes: its window is marked, the directory that its pane
/// tells is kept, and the pane is removed.
pub proof fn sidebars_without_room_are_stowed(
    window_id: Seq<char>,
    window_width: nat,
    width: nat,
    main_min: nat,
    output: Seq<char>,
    pane_id: Seq<char>,
    current: Seq<char>,
    path: Seq<char>,
)
    requires
        window_width < width + main_min + 1 <= u32::MAX,
        first_sidebar(output) == Some((pane_id, current)),
        path.len() > 0,
    ensures
        ({
            let asking = (MaintainView::ListingPanes {
                window_id,
                window_width,
                width,
                main_min,
            }).after(Some(output));
            let mark = StepView::Tmux {
                args: seq!["set"@, "-w"@, "-t"@, window_id, options::SIDEBAR_AUTO_HIDDEN@, "1"@],
            };
            let keep = StepView::Tmux {
                args: seq![
                    "set"@,
                    "-w"@,
                    "-t"@,
                    window_id,
                    options::SIDEBAR_AUTO_HIDDEN_PATH@,
                    path,
                ],
            };
            let kill = StepView::Tmux { args: seq!["kill-pane"@, "-t"@, pane_id] };
            &&& asking.next_step() == (StepView::Display {
                target: pane_id,
                format: "#{pane_current_path}"@,
            })
            &&& asking.after(Some(path)) == (MaintainView::Finishing {
                rest: seq![mark, keep, kill],
            })
            &&& asking.after(None) == (MaintainView::Finishing { rest: seq![mark, kill] })
        }),
{
    assert(stow(window_id, pane_id, path) =~= seq![
        step::set_window_option(window_id, options::SIDEBAR_AUTO_HIDDEN@, "1"@),
        step::set_window_option(window_id, options::SIDEBAR_AUTO_HIDDEN_PATH@, path),
        step::kill_pane(pane_id),
    ]);
    assert(stow(window_id, pane_id, Seq::empty()) =~= seq![
        step::set_window_option(window_id, options::SIDEBAR_AUTO_HIDDEN@, "1"@),
        step::kill_pane(pane_id),
    ]);
}

/// A window without a sidebar is left alone where there is no room for one. Where
/// there is, a sidebar that was hidden is created again in its directory, or in
/// the home directory, and its width is then kept from the start; one that was
/// never hidden is not.
pub proof fn hidden_sidebars_come_back(
    window_id: Seq<char>,
    window_width: nat,
    width: nat,
    main_min: nat,
    output: Option<Seq<char>>,
    hidden: Option<Seq<char>>,
    path: Seq<char>,
    reply: Option<Seq<char>>,
)
    requires
        width + main_min + 1 <= u32::MAX,
        first_sidebar(step::reply_text(output)) is None,
        path.len() > 0,
    ensures
        ({
            let next = (MaintainView::ListingPanes {
                window_id,
                window_width,
                width,
                main_min,
            }).after(output);
            let found = next.after(Some("1"@));
            let restoring = found.after(Some(path));
            &&& window_width < width + main_min + 1 ==> next.next_step() == StepView::Done
            &&& width + main_min + 1 <= window_width ==> {
                &&& next.next_step() == step::read_option(window_id, options::SIDEBAR_AUTO_HIDDEN@)
                &&& hidden != Some("1"@) ==> next.after(hidden).next_step() == StepView::Done
                &&& found.next_step() == step::read_option(
                    window_id,
                    options::SIDEBAR_AUTO_HIDDEN_PATH@,
                )
                &&& restoring.next_step() == (StepView::Toggle {
                    args: seq!["--create-only"@, window_id, path],
                })
                &&& found.after(None).next_step() == (StepView::Toggle {
                    args: seq!["--create-only"@, window_id, "~"@],
                })
                &&& restoring.after(reply) == MaintainView::start(seq![window_id])
            }
        }),
{
    reveal_strlit("1");
    assert("1"@.len() == 1);
}

/// The first line that tells of a sidebar counts, whatever stands before it that
/// tells of none: the pane is its first field, and the width its second.
pub proof fn first_sidebar_line_counts(
    pane_id: Seq<char>,
    width: Seq<char>,
    role: Seq<char>,
    rest: Seq<Seq<char>>,
)
    requires
        !pane_id.contains('|'),
        !width.contains('|'),
    ensures
        role == "sidebar"@ ==> first_sidebar_in(
            seq![pane_id.push('|') + (width.push('|') + role)] + rest,
        ) == Some((pane_id, width)),
        role != "sidebar"@ ==> first_sidebar_in(
            seq![pane_id.push('|') + (width.push('|') + role)] + rest,
        ) == first_sidebar_in(rest),
        first_sidebar_in(Seq::empty()) is None,
{
    let line = pane_id.push('|') + (width.push('|') + role);
    fields::one_field_is_the_text(role, '|', Some(1));
    fields::first_field_splits_off(width, '|', role, Some(2));
    fields::first_field_splits_off(pane_id, '|', width.push('|') + role, Some(3));
    assert((seq![line] + rest).drop_first() =~= rest);
    assert((seq![line] + rest).first() == line);
}

/// A percentage of the window is taken as it is configured; 30 counts where it is
/// unset, zero or no number.
pub proof fn percentages_count_as_configured(percent: nat, text: Seq<char>)
    requires
        0 < percent <= u32::MAX,
    ensures
        percent_limit(numbers::decimal(percent)) == percent,
        percent_limit(numbers::decimal(0)) == 30,
        percent_limit(Seq::empty()) == 30,
        numbers::parsed(strings::trimmed(text), u32::MAX as nat) is None ==> percent_limit(text)
            == 30,
{
    lemma_option_says(percent, 0);
    lemma_option_says(0, 0);
    lemma_nothing_resolves(0);
}

impl RememberView {
    /// The state of a width-remembering command that has found a sidebar of this
    /// width which nothing but the user resized, and has read the width of the
    /// window and its options.
    pub open spec fn informed(
        window_id: Seq<char>,
        pane_id: Seq<char>,
        observed: nat,
        window_width: nat,
        min_width: nat,
        max_width: nat,
        max_percent: nat,
    ) -> RememberView {
        RememberView::start(seq![window_id, pane_id]).after(Some("sidebar"@)).after(None).after(
            Some(numbers::decimal(observed)),
        ).after(Some(numbers::decimal(window_width))).after(
            Some(numbers::decimal(min_width)),
        ).after(Some(numbers::decimal(max_width))).after(Some(numbers::decimal(max_percent)))
    }
}

/// What a width-remembering command knows once it has read its options.
proof fn lemma_informed(
    window_id: Seq<char>,
    pane_id: Seq<char>,
    observed: nat,
    window_width: nat,
    min_width: nat,
    max_width: nat,
    max_percent: nat,
)
    requires
        window_width <= u32::MAX,
        0 < min_width <= u32::MAX,
        0 < max_width <= u32::MAX,
        0 < max_percent <= u32::MAX,
    ensures
        RememberView::informed(
            window_id,
            pane_id,
            observed,
            window_width,
            min_width,
            max_width,
            max_percent,
        ) == (RememberView::ReadingMainMin {
            window_id,
            observed: numbers::decimal(observed),
            window_width,
            min_width,
            max_width: most(max_width, min_width),
            max_percent,
        }),
{
    lemma_option_says(window_width, window_width);
    lemma_option_says(min_width, window_width);
    lemma_option_says(max_width, window_width);
    lemma_option_says(max_percent, window_width);
}

/// A width that the user dragged to is remembered exactly where it lies between
/// the configured limits, within the configured share of the window, and leaves
/// the main area and the border their columns; and then just that width is.
pub proof fn widths_within_the_limits_are_remembered(
    window_id: Seq<char>,
    pane_id: Seq<char>,
    observed: nat,
    window_width: nat,
    min_width: nat,
    max_width: nat,
    max_percent: nat,
    main_min: nat,
)
    requires
        observed <= u32::MAX,
        window_width <= u32::MAX,
        0 < min_width <= max_width <= u32::MAX,
        0 < max_percent <= u32::MAX,
        window_width * max_percent <= u32::MAX,
        main_min < u32::MAX,
    ensures
        ({
            let end = RememberView::informed(
                window_id,
                pane_id,
                observed,
                window_width,
                min_width,
                max_width,
                max_percent,
            ).after(Some(numbers::decimal(main_min)));
            if min_width <= observed <= max_width && observed * 100 <= window_width * max_percent
                && observed + main_min + 1 <= window_width {
                end == (RememberView::Finishing {
                    rest: seq![
                        StepView::Tmux {
                            args: seq![
                                "set"@,
                                "-w"@,
                                "-t"@,
                                window_id,
                                options::SIDEBAR_WIDTH@,
                                numbers::decimal(observed),
                            ],
                        },
                    ],
                })
            } else {
                end.next_step() == StepView::Done
            }
        }),
{
    lemma_informed(
        window_id,
        pane_id,
        observed,
        window_width,
        min_width,
        max_width,
        max_percent,
    );
    lemma_option_says(observed, window_width);
    lemma_option_says(main_min, window_width);
    if observed > 0 {
        toggle::drags_end_at_the_nearest_limit(
            observed,
            window_width,
            max_width,
            max_percent,
            main_min,
        );
    }
}

/// Nothing but a sidebar is remembered; a width that an automatic resize announced
/// is not either, and the announcement is forgotten once it was seen, whether it
/// told the width or another.
pub proof fn announced_widths_are_not_remembered(
    window_id: Seq<char>,
    pane_id: Seq<char>,
    role: Option<Seq<char>>,
    announced: Seq<char>,
    observed: Seq<char>,
    reply: Option<Seq<char>>,
)
    requires
        announced.len() > 0,
    ensures
        ({
            let start = RememberView::start(seq![window_id, pane_id]);
            let sidebar = start.after(Some("sidebar"@));
            let watching = sidebar.after(Some(announced));
            let seen = watching.after(Some(observed));
            let unmark = StepView::Tmux {
                args: seq!["set"@, "-wu"@, "-t"@, window_id, options::SIDEBAR_ADJUSTING_WIDTH@],
            };
            &&& start.next_step() == step::read_option(pane_id, options::PANE_ROLE@)
            &&& role != Some("sidebar"@) ==> start.after(role).next_step() == StepView::Done
            &&& sidebar.next_step() == step::read_option(
                window_id,
                options::SIDEBAR_ADJUSTING_WIDTH@,
            )
            &&& watching.next_step() == (StepView::Display {
                target: pane_id,
                format: "#{pane_width}"@,
            })
            &&& seen.next_step() == unmark
            &&& announced == observed ==> seen.after(reply).next_step() == StepView::Done
            &&& announced != observed ==> seen.after(reply) == sidebar.after(None).after(
                Some(observed),
            )
            &&& sidebar.after(None).after(Some(observed)).next_step() == (StepView::Display {
                target: window_id,
                format: "#{window_width}"@,
            })
            &&& RememberView::start(seq![window_id]).next_step() == StepView::Done
        }),
{
    reveal_strlit("sidebar");
    assert("sidebar"@.len() == 7);
}

/// A width-remembering command asks for each limit by its own option, and keeps
/// apart what it was told.
pub proof fn remembered_limits_are_asked_for_in_order(
    window_id: Seq<char>,
    observed: Seq<char>,
    window_width: nat,
    min_width: Option<Seq<char>>,
    max_width: Option<Seq<char>>,
    percent: Option<Seq<char>>,
)
    requires
        window_width <= u32::MAX,
    ensures
        ({
            let start = RememberView::ReadingWindowWidth { window_id, observed };
            let min = start.after(Some(numbers::decimal(window_width)));
            let max = min.after(min_width);
            let share = max.after(max_width);
            let main = share.after(percent);
            &&& min.next_step() == step::read_option(window_id, options::SIDEBAR_MIN_WIDTH@)
            &&& max.next_step() == step::read_option(window_id, options::SIDEBAR_MAX_WIDTH@)
            &&& share.next_step() == step::read_option(
                window_id,
                options::SIDEBAR_MAX_WIDTH_PERCENT@,
            )
            &&& main.next_step() == step::read_option(window_id, options::SIDEBAR_MAIN_MIN_WIDTH@)
        }),
{
}

/// Where no limit is configured, a width is remembered from 36 to 64 columns, up
/// to 30 percent of the window, and with 80 columns left to the main area.
pub proof fn unset_limits_hold_for_dragging(
    window_id: Seq<char>,
    observed: nat,
    window_width: nat,
)
    requires
        observed <= u32::MAX,
        window_width * 30 <= u32::MAX,
    ensures
        ({
            let end = (RememberView::ReadingWindowWidth {
                window_id,
                observed: numbers::decimal(observed),
            }).after(Some(numbers::decimal(window_width))).after(None).after(None).after(None).after(
                None,
            );
            end.next_step() == (if 36 <= observed <= 64 && observed * 100 <= window_width * 30
                && observed + 81 <= window_width {
                StepView::Tmux {
                    args: seq![
                        "set"@,
                        "-w"@,
                        "-t"@,
                        window_id,
                        options::SIDEBAR_WIDTH@,
                        numbers::decimal(observed),
                    ],
                }
            } else {
                StepView::Done
            })
        }),
{
    lemma_option_says(window_width, window_width);
    lemma_option_says(observed, window_width);
    lemma_nothing_resolves(window_width);
    if observed > 0 {
        toggle::drags_end_at_the_nearest_limit(observed, window_width, 64, 30, 80);
    }
}

/// A request that fails counts as one with an empty reply.
pub proof fn failed_requests_count_as_empty(keeper: MaintainView, memory: RememberView)
    ensures
        keeper.after(None) == keeper.after(Some(Seq::empty())),
        memory.after(None) == memory.after(Some(Seq::empty())),
{
}

/// Blanks around a number in a reply do not matter.
pub proof fn blanks_around_replies_do_not_matter(
    window_id: Seq<char>,
    observed: Seq<char>,
    limits: (nat, nat, nat, nat, nat),
    n: nat,
    left: Seq<char>,
    right: Seq<char>,
)
    requires
        strings::blank(left),
        strings::blank(right),
    ensures
        ({
            let padded = Some(left + numbers::decimal(n) + right);
            let plain = Some(numbers::decimal(n));
            let (window_width, min_width, max_width, max_percent, width) = limits;
            let a = MaintainView::ReadingWindowWidth { window_id };
            let b = MaintainView::ReadingSetting { window_id, window_width };
            let c = MaintainView::ReadingMin { window_id, window_width, preferred: width };
            let d = MaintainView::ReadingMax { window_id, window_width, preferred: width, min_width };
            let e = MaintainView::ReadingMainMin { window_id, window_width, width };
            let f = RememberView::ReadingWindowWidth { window_id, observed };
            let g = RememberView::ReadingMin { window_id, observed, window_width };
            let h = RememberView::ReadingMax { window_id, observed, window_width, min_width };
            let i = RememberView::ReadingPercent {
                window_id,
                observed,
                window_width,
                min_width,
                max_width,
            };
            let j = RememberView::ReadingMainMin {
                window_id,
                observed,
                window_width,
                min_width,
                max_width,
                max_percent,
            };
            &&& a.after(padded) == a.after(plain)
            &&& b.after(padded) == b.after(plain)
            &&& c.after(padded) == c.after(plain)
            &&& d.after(padded) == d.after(plain)
            &&& e.after(padded) == e.after(plain)
            &&& f.after(padded) == f.after(plain)
            &&& g.after(padded) == g.after(plain)
            &&& h.after(padded) == h.after(plain)
            &&& i.after(padded) == i.after(plain)
            &&& j.after(padded) == j.after(plain)
        }),
{
    numbers::blanks_around_a_number(n, left, right, u32::MAX as nat);
}

/// A pane whose width is no number is neither remembered nor resized.
pub proof fn unknown_widths_are_left_alone(
    window_id: Seq<char>,
    pane_id: Seq<char>,
    text: Seq<char>,
    limits: (nat, nat, nat, nat, nat),
    output: Seq<char>,
    reply: Option<Seq<char>>,
)
    requires
        numbers::parsed(text, u32::MAX as nat) is None,
        numbers::parsed(strings::trimmed(text), u32::MAX as nat) is None,
        first_sidebar(output) == Some((pane_id, text)),
        limits.4 + limits.1 + 1 <= limits.0 <= u32::MAX,
    ensures
        ({
            let (window_width, main_min, max_width, max_percent, width) = limits;
            &&& (RememberView::ReadingMainMin {
                window_id,
                observed: text,
                window_width,
                min_width: width,
                max_width,
                max_percent,
            }).after(reply).next_step() == StepView::Done
            &&& (MaintainView::ListingPanes { window_id, window_width, width, main_min }).after(
                Some(output),
            ).next_step() == StepView::Done
        }),
{
}

/// A preferred width that does not resolve leaves the window as it is.
pub proof fn unset_widths_keep_nothing(window_id: Seq<char>, window_width: nat, text: Seq<char>)
    ensures
        toggle::resolved_width(text, window_width) is None ==> (MaintainView::ReadingSetting {
            window_id,
            window_width,
        }).after(Some(text)).next_step() == StepView::Done,
        toggle::resolved_width(text, window_width) matches Some(preferred) ==> (
        MaintainView::ReadingSetting { window_id, window_width }).after(Some(text)) == (
        MaintainView::ReadingMin { window_id, window_width, preferred }),
{
}

} // verus!
