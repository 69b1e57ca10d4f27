//! The toggle command: create the sidebar of a window, or remove it.

use vstd::prelude::*;

use crate::cli::toggle;
use crate::cli::toggle::SidebarPosition;
use crate::text::numbers;
use crate::text::strings;
use crate::tmux::options;
use crate::tmux::step;
use crate::tmux::step::Step;
#[allow(unused_imports)]
use crate::tmux::step::StepView;

verus! {

/// What a toggle command was asked to do.
pub struct Request {
    /// Only create: an existing sidebar stays.
    pub create_only: bool,
    /// Window to work in.
    pub window_id: String,
    /// Working directory of a new sidebar.
    pub pane_path: String,
}

/// A request as mathematical text.
#[verifier::ext_equal]
pub struct RequestView {
    pub create_only: bool,
    pub window_id: Seq<char>,
    pub pane_path: Seq<char>,
}

impl View for Request {
    type V = RequestView;

    open spec fn view(&self) -> RequestView {
        RequestView {
            create_only: self.create_only,
            window_id: self.window_id@,
            pane_path: self.pane_path@,
        }
    }
}

/// The arguments other than the `--create-only` flag.
pub open spec fn positional(args: Seq<Seq<char>>) -> Seq<Seq<char>>
    decreases args.len(),
{
    if args.len() == 0 {
        Seq::empty()
    } else if args.last() == "--create-only"@ {
        positional(args.drop_last())
    } else {
        positional(args.drop_last()).push(args.last())
    }
}

/// The request that the arguments make: a window, a directory (`~` where it is
/// missing), and the flag anywhere among them. Without a window there is none.
pub open spec fn request(args: Seq<Seq<char>>) -> Option<RequestView> {
    let rest = positional(args);
    if rest.len() == 0 {
        None
    } else {
        Some(
            RequestView {
                create_only: args.contains("--create-only"@),
                window_id: rest[0],
                pane_path: if rest.len() > 1 {
                    rest[1]
                } else {
                    "~"@
                },
            },
        )
    }
}

/// Size and place of the sidebar to create.
pub struct Plan {
    /// Width of the window, 0 where it is unknown.
    pub window_width: u32,
    /// Width of the sidebar, where the setting makes sense.
    pub width: Option<u32>,
    /// Width of the sidebar as it is handed to tmux.
    pub width_text: String,
    /// Side of the window.
    pub position: SidebarPosition,
}

/// Size and place of the sidebar, as mathematical values.
#[verifier::ext_equal]
pub struct PlanView {
    pub window_width: nat,
    pub width: Option<nat>,
    pub width_text: Seq<char>,
    pub position: SidebarPosition,
}

impl View for Plan {
    type V = PlanView;

    open spec fn view(&self) -> PlanView {
        PlanView {
            window_width: self.window_width as nat,
            width: match self.width {
                Some(w) => Some(w as nat),
                None => None,
            },
            width_text: self.width_text@,
            position: self.position,
        }
    }
}

/// The plan for a width setting, a window width and a side. A setting that
/// resolves is handed on in columns, any other one as it is.
pub open spec fn plan(
    setting: Seq<char>,
    window_width: nat,
    position: SidebarPosition,
) -> PlanView {
    let width = toggle::resolved_width(setting, window_width);
    PlanView {
        window_width,
        width,
        width_text: match width {
            Some(w) => numbers::decimal(w),
            None => setting,
        },
        position,
    }
}

/// How far a toggle command has come. Each state but the last is about to make
/// one request and waits for the reply.
pub enum Toggle {
    Locking { req: Request },
    ReadingGate { req: Request },
    ReadingGateWidth { req: Request, min_width: u32 },
    ReadingWidth { req: Request },
    ReadingWindowWidth { req: Request, setting: String },
    ReadingPosition { req: Request, setting: String, window_width: u32 },
    ListingPanes { req: Request, plan: Plan },
    ReadingMainMin { req: Request, plan: Plan },
    ListingGeometry { req: Request, plan: Plan, main_min: u32 },
    ReadingActive { req: Request, plan: Plan, main_min: u32, target: String },
    FindingProgram { req: Request, plan: Plan, main_min: u32, target: String, active: String },
    Splitting {
        req: Request,
        plan: Plan,
        main_min: u32,
        target: String,
        active: String,
        program: String,
    },
    Finishing { rest: Vec<Step> },
}

/// The state of a toggle command, as mathematical values.
#[verifier::ext_equal]
pub enum ToggleView {
    /// About to take the window's creation lock.
    Locking { req: RequestView },
    /// About to read the width below which hooks create nothing.
    ReadingGate { req: RequestView },
    /// About to read the window width for that test.
    ReadingGateWidth { req: RequestView, min_width: nat },
    /// About to read the sidebar width setting.
    ReadingWidth { req: RequestView },
    /// About to read the window width.
    ReadingWindowWidth { req: RequestView, setting: Seq<char> },
    /// About to read the side.
    ReadingPosition { req: RequestView, setting: Seq<char>, window_width: nat },
    /// About to list the panes of the window with their roles.
    ListingPanes { req: RequestView, plan: PlanView },
    /// About to read what the main area must keep.
    ReadingMainMin { req: RequestView, plan: PlanView },
    /// About to list where the panes are.
    ListingGeometry { req: RequestView, plan: PlanView, main_min: nat },
    /// About to read which pane is active.
    ReadingActive { req: RequestView, plan: PlanView, main_min: nat, target: Seq<char> },
    /// About to find the program to run in the new pane.
    FindingProgram {
        req: RequestView,
        plan: PlanView,
        main_min: nat,
        target: Seq<char>,
        active: Seq<char>,
    },
    /// About to split the window.
    Splitting {
        req: RequestView,
        plan: PlanView,
        main_min: nat,
        target: Seq<char>,
        active: Seq<char>,
        program: Seq<char>,
    },
    /// About to make requests whose replies no longer matter, then done.
    Finishing { rest: Seq<StepView> },
}

impl View for Toggle {
    type V = ToggleView;

    open spec fn view(&self) -> ToggleView {
        match self {
            Toggle::Locking { req } => ToggleView::Locking { req: req@ },
            Toggle::ReadingGate { req } => ToggleView::ReadingGate { req: req@ },
            Toggle::ReadingGateWidth { req, min_width } => ToggleView::ReadingGateWidth {
                req: req@,
                min_width: *min_width as nat,
            },
            Toggle::ReadingWidth { req } => ToggleView::ReadingWidth { req: req@ },
            Toggle::ReadingWindowWidth { req, setting } => ToggleView::ReadingWindowWidth {
                req: req@,
                setting: setting@,
            },
            Toggle::ReadingPosition { req, setting, window_width } => ToggleView::ReadingPosition {
                req: req@,
                setting: setting@,
                window_width: *window_width as nat,
            },
            Toggle::ListingPanes { req, plan } => ToggleView::ListingPanes {
                req: req@,
                plan: plan@,
            },
            Toggle::ReadingMainMin { req, plan } => ToggleView::ReadingMainMin {
                req: req@,
                plan: plan@,
            },
            Toggle::ListingGeometry { req, plan, main_min } => ToggleView::ListingGeometry {
                req: req@,
                plan: plan@,
                main_min: *main_min as nat,
            },
            Toggle::ReadingActive { req, plan, main_min, target } => ToggleView::ReadingActive {
                req: req@,
                plan: plan@,
                main_min: *main_min as nat,
                target: target@,
            },
            Toggle::FindingProgram { req, plan, main_min, target, active } =>
            ToggleView::FindingProgram {
                req: req@,
                plan: plan@,
                main_min: *main_min as nat,
                target: target@,
                active: active@,
            },
            Toggle::Splitting { req, plan, main_min, target, active, program } =>
            ToggleView::Splitting {
                req: req@,
                plan: plan@,
                main_min: *main_min as nat,
                target: target@,
                active: active@,
                program: program@,
            },
            Toggle::Finishing { rest } => ToggleView::Finishing { rest: step::views(rest@) },
        }
    }
}

/// The two requests that forget that a sidebar was hidden.
pub open spec fn clear_marker(window_id: Seq<char>) -> Seq<StepView> {
    seq![
        step::unset_window_option(window_id, options::SIDEBAR_AUTO_HIDDEN@),
        step::unset_window_option(window_id, options::SIDEBAR_AUTO_HIDDEN_PATH@),
    ]
}

/// The requests that remove a list of panes.
pub open spec fn kill_all(panes: Seq<Seq<char>>) -> Seq<StepView> {
    Seq::new(panes.len(), |i: int| step::kill_pane(panes[i]))
}

/// What happens to the sidebars that are already in the window: all but the
/// first are removed, and unless the request only creates, the marker is
/// cleared and the first is removed too.
pub open spec fn reconcile(req: RequestView, sidebars: Seq<Seq<char>>) -> Seq<StepView> {
    let duplicates = kill_all(sidebars.skip(1));
    if req.create_only {
        duplicates
    } else {
        duplicates + clear_marker(req.window_id) + seq![step::kill_pane(sidebars[0])]
    }
}

/// What happens where the sidebar does not fit: a hook's request is remembered
/// for a wider window, any other one is dropped.
pub open spec fn postpone(req: RequestView) -> Seq<StepView> {
    if req.create_only {
        seq![
            step::set_window_option(req.window_id, options::SIDEBAR_AUTO_HIDDEN@, "1"@),
            step::set_window_option(
                req.window_id,
                options::SIDEBAR_AUTO_HIDDEN_PATH@,
                req.pane_path,
            ),
        ]
    } else {
        Seq::empty()
    }
}

/// Gives the focus back to the pane that was active.
pub open spec fn restore_focus(window_id: Seq<char>, active: Seq<char>) -> StepView {
    if active.len() > 0 {
        step::tmux(seq!["select-pane"@, "-t"@, active])
    } else {
        step::tmux(seq!["select-pane"@, "-t"@, window_id, "-l"@])
    }
}

/// What follows the split: the new pane is marked as a sidebar, and the focus
/// goes back.
pub open spec fn settle(req: RequestView, active: Seq<char>, pane: Seq<char>) -> Seq<StepView> {
    let marks = if pane.len() > 0 {
        seq![
            StepView::SetPaneOption {
                pane_id: pane,
                option: options::PANE_ROLE@,
                value: "sidebar"@,
            },
        ] + clear_marker(req.window_id)
    } else {
        Seq::empty()
    };
    marks.push(restore_focus(req.window_id, active))
}

impl ToggleView {
    /// The state in which a command with these arguments starts.
    pub open spec fn start(args: Seq<Seq<char>>) -> ToggleView {
        match request(args) {
            Some(req) => ToggleView::Locking { req },
            None => ToggleView::Finishing { rest: Seq::empty() },
        }
    }

    /// The request that the command makes in this state.
    pub open spec fn next_step(self) -> StepView {
        match self {
            ToggleView::Locking { req } => StepView::Lock { window_id: req.window_id },
            ToggleView::ReadingGate { req } => step::read_option(
                req.window_id,
                options::SIDEBAR_AUTO_CREATE_MIN_WIDTH@,
            ),
            ToggleView::ReadingGateWidth { req, min_width } => step::display(
                req.window_id,
                "#{window_width}"@,
            ),
            ToggleView::ReadingWidth { req } => step::read_option(
                req.window_id,
                options::SIDEBAR_WIDTH@,
            ),
            ToggleView::ReadingWindowWidth { req, setting } => step::display(
                req.window_id,
                "#{window_width}"@,
            ),
            ToggleView::ReadingPosition { req, setting, window_width } => step::read_option(
                req.window_id,
                options::SIDEBAR_POSITION@,
            ),
            ToggleView::ListingPanes { req, plan } => step::list_panes(
                req.window_id,
                toggle::role_format(),
            ),
            ToggleView::ReadingMainMin { req, plan } => step::read_option(
                req.window_id,
                options::SIDEBAR_MAIN_MIN_WIDTH@,
            ),
            ToggleView::ListingGeometry { req, plan, main_min } => step::list_panes(
                req.window_id,
                "#{pane_left} #{pane_width} #{pane_id}"@,
            ),
            ToggleView::ReadingActive { req, plan, main_min, target } => step::display(
                req.window_id,
                "#{pane_id}"@,
            ),
            ToggleView::FindingProgram { req, plan, main_min, target, active } =>
            StepView::CurrentExe,
            ToggleView::Splitting { req, plan, main_min, target, active, program } => step::tmux(
                seq![
                    "split-window"@,
                    toggle::split_flags(plan.position),
                    "-l"@,
                    plan.width_text,
                    "-t"@,
                    target,
                    "-c"@,
                    req.pane_path,
                    "-P"@,
                    "-F"@,
                    "#{pane_id}"@,
                    program,
                ],
            ),
            ToggleView::Finishing { rest } => step::head(rest),
        }
    }

    /// The state after the reply to that request.
    pub open spec fn after(self, reply: Option<Seq<char>>) -> ToggleView {
        let text = step::reply_text(reply);
        match self {
            ToggleView::Locking { req } => if reply is None {
                ToggleView::Finishing { rest: Seq::empty() }
            } else if req.create_only {
                ToggleView::ReadingGate { req }
            } else {
                ToggleView::ReadingWidth { req }
            },
            ToggleView::ReadingGate { req } => {
                let min_width = numbers::number_or(strings::trimmed(text), 0);
                if min_width > 0 {
                    ToggleView::ReadingGateWidth { req, min_width }
                } else {
                    ToggleView::ReadingWidth { req }
                }
            },
            ToggleView::ReadingGateWidth { req, min_width } => {
                let window_width = numbers::number_or(strings::trimmed(text), 0);
                if window_width != 0 && window_width < min_width {
                    ToggleView::Finishing { rest: Seq::empty() }
                } else {
                    ToggleView::ReadingWidth { req }
                }
            },
            ToggleView::ReadingWidth { req } => ToggleView::ReadingWindowWidth {
                req,
                setting: if text.len() == 0 {
                    "48"@
                } else {
                    text
                },
            },
            ToggleView::ReadingWindowWidth { req, setting } => ToggleView::ReadingPosition {
                req,
                setting,
                window_width: numbers::number_or(text, 0),
            },
            ToggleView::ReadingPosition { req, setting, window_width } => ToggleView::ListingPanes {
                req,
                plan: plan(setting, window_width, SidebarPosition::of_setting(text)),
            },
            ToggleView::ListingPanes { req, plan } => {
                let sidebars = toggle::sidebars(text);
                if sidebars.len() > 0 {
                    ToggleView::Finishing { rest: reconcile(req, sidebars) }
                } else {
                    ToggleView::ReadingMainMin { req, plan }
                }
            },
            ToggleView::ReadingMainMin { req, plan } => {
                let main_min = numbers::number_or(strings::trimmed(text), 80);
                if plan.width matches Some(w) && !toggle::fits(plan.window_width, w, main_min) {
                    ToggleView::Finishing { rest: postpone(req) }
                } else {
                    ToggleView::ListingGeometry { req, plan, main_min }
                }
            },
            ToggleView::ListingGeometry { req, plan, main_min } => ToggleView::ReadingActive {
                req,
                plan,
                main_min,
                target: match toggle::split_target(text, plan.position) {
                    Some(pane_id) => pane_id,
                    None => req.window_id,
                },
            },
            ToggleView::ReadingActive { req, plan, main_min, target } =>
            ToggleView::FindingProgram { req, plan, main_min, target, active: text },
            ToggleView::FindingProgram { req, plan, main_min, target, active } =>
            ToggleView::Splitting {
                req,
                plan,
                main_min,
                target,
                active,
                program: match reply {
                    Some(path) => path,
                    None => "tmux-agent-sidebar"@,
                },
            },
            ToggleView::Splitting { req, plan, main_min, target, active, program } =>
            ToggleView::Finishing { rest: settle(req, active, strings::trimmed(text)) },
            ToggleView::Finishing { rest } => ToggleView::Finishing { rest: step::tail(rest) },
        }
    }
}

/// Reads the arguments of a toggle command.
fn parse_request(args: &[String]) -> (req: Option<Request>)
    ensures
        match req {
            Some(r) => request(strings::texts(args@)) == Some(r@),
            None => request(strings::texts(args@)) is None,
        },
{
    let ghost all = strings::texts(args@);
    let mut create_only: bool = false;
    let mut rest: Vec<String> = Vec::new();
    assert(strings::texts(rest@) =~= positional(all.take(0)));
    for i in 0..args.len()
        invariant
            all == strings::texts(args@),
            create_only == all.take(i as int).contains("--create-only"@),
            strings::texts(rest@) == positional(all.take(i as int)),
    {
        let ghost before = strings::texts(rest@);
        let ghost seen = all.take(i as int);
        assert(all.take(i + 1) =~= seen.push(all[i as int]));
        assert(all.take(i + 1).drop_last() =~= seen);
        assert(all[i as int] == args@[i as int]@);
        if strings::same_text(args[i].as_str(), "--create-only") {
            create_only = true;
            assert(all.take(i + 1)[i as int] == "--create-only"@);
        } else {
            rest.push(args[i].clone());
            assert(strings::texts(rest@) =~= before.push(all[i as int]));
            assert(all.take(i + 1).contains("--create-only"@) == seen.contains("--create-only"@))
                by {
                if seen.contains("--create-only"@) {
                    let k = choose|k: int| 0 <= k < seen.len() && seen[k] == "--create-only"@;
                    assert(all.take(i + 1)[k] == "--create-only"@);
                }
            }
        }
    }
    assert(all.take(all.len() as int) == all);
    let ghost places = strings::texts(rest@);
    assert(places.len() == rest@.len());
    if rest.len() == 0 {
        return None;
    }
    assert(places[0] == rest@[0]@);
    let pane_path = if rest.len() > 1 {
        assert(places[1] == rest@[1]@);
        rest[1].clone()
    } else {
        "~".to_owned()
    };
    Some(Request { create_only, window_id: rest[0].clone(), pane_path })
}

/// Starts a toggle command.
pub fn cmd_toggle(args: &[String]) -> (state: Toggle)
    ensures
        state@ == ToggleView::start(strings::texts(args@)),
{
    match parse_request(args) {
        Some(req) => Toggle::Locking { req },
        None => finished(),
    }
}

/// Nothing left to do.
fn finished() -> (state: Toggle)
    ensures
        state@ == (ToggleView::Finishing { rest: Seq::empty() }),
{
    Toggle::Finishing { rest: step::no_steps() }
}

/// Appends the requests that forget that a sidebar was hidden.
fn clear_auto_hidden_marker(list: &mut Vec<Step>, window_id: &str)
    ensures
        step::views(final(list)@) == step::views(old(list)@) + clear_marker(window_id@),
{
    step::add_step(list, step::unset_option(window_id, options::SIDEBAR_AUTO_HIDDEN));
    step::add_step(list, step::unset_option(window_id, options::SIDEBAR_AUTO_HIDDEN_PATH));
    assert(step::views(list@) =~= step::views(old(list)@) + clear_marker(window_id@));
}

/// The requests for the sidebars that are already in the window.
fn reconcile_steps(req: &Request, sidebars: &Vec<String>) -> (list: Vec<Step>)
    requires
        sidebars@.len() > 0,
    ensures
        step::views(list@) == reconcile(req@, strings::texts(sidebars@)),
{
    let ghost all = strings::texts(sidebars@);
    let mut list = step::no_steps();
    assert(step::views(list@) =~= kill_all(all.skip(1).take(0)));
    for i in 1..sidebars.len()
        invariant
            sidebars@.len() > 0,
            all == strings::texts(sidebars@),
            step::views(list@) == kill_all(all.skip(1).take(i - 1)),
    {
        step::add_step(&mut list, step::kill(sidebars[i].as_str()));
        assert(all.skip(1)[i - 1] == sidebars@[i as int]@);
        assert(kill_all(all.skip(1).take(i as int)) =~= kill_all(all.skip(1).take(i - 1)).push(
            step::kill_pane(sidebars@[i as int]@),
        ));
    }
    assert(all.skip(1).take(all.len() - 1) =~= all.skip(1));
    if !req.create_only {
        let ghost duplicates = step::views(list@);
        clear_auto_hidden_marker(&mut list, req.window_id.as_str());
        step::add_step(&mut list, step::kill(sidebars[0].as_str()));
        assert(all[0] == sidebars@[0]@);
        assert(step::views(list@) =~= duplicates + clear_marker(req.window_id@) + seq![
            step::kill_pane(all[0]),
        ]);
    }
    list
}

/// The requests for a sidebar that does not fit.
fn postpone_steps(req: &Request) -> (list: Vec<Step>)
    ensures
        step::views(list@) == postpone(req@),
{
    let mut list = step::no_steps();
    if req.create_only {
        step::add_step(
            &mut list,
            step::set_option(req.window_id.as_str(), options::SIDEBAR_AUTO_HIDDEN, "1"),
        );
        step::add_step(
            &mut list,
            step::set_option(
                req.window_id.as_str(),
                options::SIDEBAR_AUTO_HIDDEN_PATH,
                req.pane_path.as_str(),
            ),
        );
        assert(step::views(list@) =~= postpone(req@));
    }
    list
}

/// The requests that follow the split.
fn settle_steps(req: &Request, active: &str, pane: &str) -> (list: Vec<Step>)
    ensures
        step::views(list@) == settle(req@, active@, pane@),
{
    let mut list = step::no_steps();
    if !pane.is_empty() {
        step::add_step(
            &mut list,
            Step::SetPaneOption {
                pane_id: pane.to_owned(),
                option: options::PANE_ROLE.to_owned(),
                value: "sidebar".to_owned(),
            },
        );
        assert(step::views(list@) =~= seq![
            StepView::SetPaneOption {
                pane_id: pane@,
                option: options::PANE_ROLE@,
                value: "sidebar"@,
            },
        ]);
        clear_auto_hidden_marker(&mut list, req.window_id.as_str());
    }
    let focus = if !active.is_empty() {
        let focus = step::run(&["select-pane", "-t", active]);
        assert(focus@ =~~= restore_focus(req@.window_id, active@));
        focus
    } else {
        let focus = step::run(&["select-pane", "-t", req.window_id.as_str(), "-l"]);
        assert(focus@ =~~= restore_focus(req@.window_id, active@));
        focus
    };
    step::add_step(&mut list, focus);
    list
}

impl Toggle {
    /// The request that the command makes now.
    pub fn step(&self) -> (next: Step)
        ensures
            next@ == self@.next_step(),
    {
        match self {
            Toggle::Locking { req } => Step::Lock { window_id: req.window_id.clone() },
            Toggle::ReadingGate { req } => step::ask_option(
                req.window_id.as_str(),
                options::SIDEBAR_AUTO_CREATE_MIN_WIDTH,
            ),
            Toggle::ReadingGateWidth { req, .. } => step::ask(
                req.window_id.as_str(),
                "#{window_width}",
            ),
            Toggle::ReadingWidth { req } => step::ask_option(
                req.window_id.as_str(),
                options::SIDEBAR_WIDTH,
            ),
            Toggle::ReadingWindowWidth { req, .. } => step::ask(
                req.window_id.as_str(),
                "#{window_width}",
            ),
            Toggle::ReadingPosition { req, .. } => step::ask_option(
                req.window_id.as_str(),
                options::SIDEBAR_POSITION,
            ),
            Toggle::ListingPanes { req, .. } => step::list(
                req.window_id.as_str(),
                toggle::pane_id_role_format().as_str(),
            ),
            Toggle::ReadingMainMin { req, .. } => step::ask_option(
                req.window_id.as_str(),
                options::SIDEBAR_MAIN_MIN_WIDTH,
            ),
            Toggle::ListingGeometry { req, .. } => step::list(
                req.window_id.as_str(),
                "#{pane_left} #{pane_width} #{pane_id}",
            ),
            Toggle::ReadingActive { req, .. } => step::ask(req.window_id.as_str(), "#{pane_id}"),
            Toggle::FindingProgram { .. } => Step::CurrentExe,
            Toggle::Splitting { req, plan, target, program, .. } => {
                let next = step::run(
                    &[
                        "split-window",
                        toggle::split_window_flags(plan.position),
                        "-l",
                        plan.width_text.as_str(),
                        "-t",
                        target.as_str(),
                        "-c",
                        req.pane_path.as_str(),
                        "-P",
                        "-F",
                        "#{pane_id}",
                        program.as_str(),
                    ],
                );
                assert(next@ =~~= self@.next_step());
                next
            },
            Toggle::Finishing { rest } => step::first_step(rest),
        }
    }

    /// Takes the reply to that request.
    pub fn resume(self, reply: Option<String>) -> (state: Toggle)
        ensures
            state@ == self@.after(strings::opt_text(reply)),
    {
        match self {
            Toggle::Locking { req } => {
                if reply.is_none() {
                    finished()
                } else if req.create_only {
                    Toggle::ReadingGate { req }
                } else {
                    Toggle::ReadingWidth { req }
                }
            },
            Toggle::ReadingGate { req } => {
                let text = step::text_of(reply);
                let min_width: u32 = numbers::u32_or(strings::trim(text.as_str()), 0);
                if min_width > 0 {
                    Toggle::ReadingGateWidth { req, min_width }
                } else {
                    Toggle::ReadingWidth { req }
                }
            },
            Toggle::ReadingGateWidth { req, min_width } => {
                let text = step::text_of(reply);
                let window_width: u32 = numbers::u32_or(strings::trim(text.as_str()), 0);
                if toggle::auto_create_blocked_by_width(min_width, window_width) {
                    finished()
                } else {
                    Toggle::ReadingWidth { req }
                }
            },
            Toggle::ReadingWidth { req } => {
                let text = step::text_of(reply);
                let setting = if text.as_str().is_empty() {
                    "48".to_owned()
                } else {
                    text
                };
                Toggle::ReadingWindowWidth { req, setting }
            },
            Toggle::ReadingWindowWidth { req, setting } => {
                let text = step::text_of(reply);
                Toggle::ReadingPosition {
                    req,
                    setting,
                    window_width: numbers::u32_or(text.as_str(), 0),
                }
            },
            Toggle::ReadingPosition { req, setting, window_width } => {
                let text = step::text_of(reply);
                let width = toggle::resolve_sidebar_width(setting.as_str(), window_width);
                let position = SidebarPosition::from_setting(text.as_str());
                let width_text = match width {
                    Some(w) => numbers::to_decimal(w as u64),
                    None => setting,
                };
                Toggle::ListingPanes {
                    req,
                    plan: Plan { window_width, width, width_text, position },
                }
            },
            Toggle::ListingPanes { req, plan } => {
                let text = step::text_of(reply);
                let sidebars = toggle::sidebar_panes(text.as_str());
                assert(strings::texts(sidebars@).len() == sidebars@.len());
                if sidebars.len() > 0 {
                    Toggle::Finishing { rest: reconcile_steps(&req, &sidebars) }
                } else {
                    Toggle::ReadingMainMin { req, plan }
                }
            },
            Toggle::ReadingMainMin { req, plan } => {
                let text = step::text_of(reply);
                let main_min: u32 = numbers::u32_or(strings::trim(text.as_str()), 80);
                let blocked = match plan.width {
                    Some(w) => !toggle::responsive_sidebar_fits(plan.window_width, w, main_min),
                    None => false,
                };
                if blocked {
                    Toggle::Finishing { rest: postpone_steps(&req) }
                } else {
                    Toggle::ListingGeometry { req, plan, main_min }
                }
            },
            Toggle::ListingGeometry { req, plan, main_min } => {
                let text = step::text_of(reply);
                let target = match toggle::target_pane_for_position(text.as_str(), plan.position) {
                    Some(pane_id) => pane_id,
                    None => req.window_id.clone(),
                };
                Toggle::ReadingActive { req, plan, main_min, target }
            },
            Toggle::ReadingActive { req, plan, main_min, target } => {
                let active = step::text_of(reply);
                Toggle::FindingProgram { req, plan, main_min, target, active }
            },
            Toggle::FindingProgram { req, plan, main_min, target, active } => {
                let program = match reply {
                    Some(path) => path,
                    None => "tmux-agent-sidebar".to_owned(),
                };
                Toggle::Splitting { req, plan, main_min, target, active, program }
            },
            Toggle::Splitting { req, active, .. } => {
                let text = step::text_of(reply);
                Toggle::Finishing {
                    rest: settle_steps(&req, active.as_str(), strings::trim(text.as_str())),
                }
            },
            Toggle::Finishing { rest } => Toggle::Finishing { rest: step::later_steps(rest) },
        }
    }
}

// ---- laws ----

impl ToggleView {
    /// The state after a run of replies to a command with these arguments.
    pub open spec fn reached(args: Seq<Seq<char>>, replies: Seq<Option<Seq<char>>>) -> ToggleView
        decreases replies.len(),
    {
        if replies.len() == 0 {
            Self::start(args)
        } else {
            Self::reached(args, replies.drop_last()).after(replies.last())
        }
    }

    /// Whether the command has found the window free of sidebars.
    pub open spec fn past_listing(self) -> bool {
        ||| self is ReadingMainMin
        ||| self is ListingGeometry
        ||| self is ReadingActive
        ||| self is FindingProgram
        ||| self is Splitting
    }

    /// Whether the sidebar has room next to the main area, as far as the
    /// command knows it.
    pub open spec fn has_room(self) -> bool {
        match self {
            ToggleView::ListingGeometry { req, plan, main_min } => plan.width matches Some(w)
                ==> toggle::fits(plan.window_width, w, main_min),
            ToggleView::ReadingActive { req, plan, main_min, target } => plan.width matches Some(w)
                ==> toggle::fits(plan.window_width, w, main_min),
            ToggleView::FindingProgram { req, plan, main_min, target, active } =>
            plan.width matches Some(w) ==> toggle::fits(plan.window_width, w, main_min),
            ToggleView::Splitting { req, plan, main_min, target, active, program } =>
            plan.width matches Some(w) ==> toggle::fits(plan.window_width, w, main_min),
            _ => true,
        }
    }

    /// How many kinds of request are still ahead before only the closing ones
    /// are left.
    pub open spec fn stages_left(self) -> nat {
        match self {
            ToggleView::Locking { .. } => 12,
            ToggleView::ReadingGate { .. } => 11,
            ToggleView::ReadingGateWidth { .. } => 10,
            ToggleView::ReadingWidth { .. } => 9,
            ToggleView::ReadingWindowWidth { .. } => 8,
            ToggleView::ReadingPosition { .. } => 7,
            ToggleView::ListingPanes { .. } => 6,
            ToggleView::ReadingMainMin { .. } => 5,
            ToggleView::ListingGeometry { .. } => 4,
            ToggleView::ReadingActive { .. } => 3,
            ToggleView::FindingProgram { .. } => 2,
            ToggleView::Splitting { .. } => 1,
            ToggleView::Finishing { .. } => 0,
        }
    }

    /// The closing requests that are still ahead.
    pub open spec fn closing_left(self) -> nat {
        match self {
            ToggleView::Finishing { rest } => rest.len(),
            _ => 0,
        }
    }
}

/// Every toggle command comes to its end: whatever is replied, each reply
/// brings it a stage or a closing request nearer.
pub proof fn toggle_always_finishes(state: ToggleView, reply: Option<Seq<char>>)
    requires
        state.next_step() != StepView::Done,
    ensures
        state.after(reply).stages_left() < state.stages_left() || (state.after(reply).stages_left()
            == state.stages_left() && state.after(reply).closing_left() < state.closing_left()),
{
}

/// A command that is refused the window's lock does nothing more.
pub proof fn refused_lock_ends_the_toggle(args: Seq<Seq<char>>)
    requires
        request(args) is Some,
    ensures
        ToggleView::start(args).next_step() == (StepView::Lock {
            window_id: request(args)->0.window_id,
        }),
        ToggleView::start(args).after(None).next_step() == StepView::Done,
{
}

/// A create-only request keeps the first sidebar of the window and removes
/// every other one.
pub proof fn create_only_keeps_one_sidebar(req: RequestView, sidebars: Seq<Seq<char>>)
    requires
        req.create_only,
        sidebars.len() > 0,
        sidebars.no_duplicates(),
    ensures
        !reconcile(req, sidebars).contains(step::kill_pane(sidebars[0])),
        forall|i: int|
            1 <= i < sidebars.len() ==> reconcile(req, sidebars).contains(
                step::kill_pane(#[trigger] sidebars[i]),
            ),
{
    let steps = reconcile(req, sidebars);
    assert forall|k: int| 0 <= k < steps.len() implies steps[k] != step::kill_pane(sidebars[0]) by {
        assert(steps[k] == step::kill_pane(sidebars[k + 1]));
        lemma_kill_pane_names_its_pane(sidebars[k + 1], sidebars[0]);
    }
    assert forall|i: int| 1 <= i < sidebars.len() implies steps.contains(
        step::kill_pane(#[trigger] sidebars[i]),
    ) by {
        assert(steps[i - 1] == step::kill_pane(sidebars[i]));
    }
}

/// A manual toggle of a window with sidebars removes all of them.
pub proof fn manual_toggle_removes_every_sidebar(req: RequestView, sidebars: Seq<Seq<char>>)
    requires
        !req.create_only,
        sidebars.len() > 0,
    ensures
        forall|i: int|
            0 <= i < sidebars.len() ==> reconcile(req, sidebars).contains(
                step::kill_pane(#[trigger] sidebars[i]),
            ),
{
    let steps = reconcile(req, sidebars);
    let duplicates = kill_all(sidebars.skip(1));
    assert forall|i: int| 0 <= i < sidebars.len() implies steps.contains(
        step::kill_pane(#[trigger] sidebars[i]),
    ) by {
        if i == 0 {
            assert(steps[steps.len() - 1] == step::kill_pane(sidebars[0]));
        } else {
            assert(steps[i - 1] == duplicates[i - 1]);
            assert(duplicates[i - 1] == step::kill_pane(sidebars[i]));
        }
    }
}

proof fn lemma_kill_pane_names_its_pane(a: Seq<char>, b: Seq<char>)
    ensures
        step::kill_pane(a) == step::kill_pane(b) ==> a == b,
{
    if step::kill_pane(a) == step::kill_pane(b) {
        let left = seq!["kill-pane"@, "-t"@, a];
        let right = seq!["kill-pane"@, "-t"@, b];
        assert(step::kill_pane(a)->Tmux_args == left);
        assert(step::kill_pane(b)->Tmux_args == right);
        assert(left[2] == a && right[2] == b);
    }
}

/// The sidebar is created only in a window that was found free of sidebars
/// while the lock was held, and only where it leaves the main area its
/// columns.
pub proof fn split_needs_a_free_and_wide_window(
    args: Seq<Seq<char>>,
    replies: Seq<Option<Seq<char>>>,
)
    requires
        ToggleView::reached(args, replies).past_listing(),
    ensures
        replies[0] is Some,
        exists|i: int|
            0 < i < replies.len() && #[trigger] ToggleView::reached(
                args,
                replies.take(i),
            ) is ListingPanes && toggle::sidebars(step::reply_text(replies[i])).len() == 0,
        ToggleView::reached(args, replies).has_room(),
    decreases replies.len(),
{
    let before = replies.drop_last();
    let state = ToggleView::reached(args, before);
    if state.past_listing() {
        split_needs_a_free_and_wide_window(args, before);
        let i = choose|i: int|
            0 < i < before.len() && #[trigger] ToggleView::reached(
                args,
                before.take(i),
            ) is ListingPanes && toggle::sidebars(step::reply_text(before[i])).len() == 0;
        assert(before.take(i) =~= replies.take(i));
        assert(ToggleView::reached(args, replies.take(i)) is ListingPanes);
    } else {
        let i = replies.len() - 1;
        assert(replies.take(i) =~= before);
        assert(ToggleView::reached(args, replies.take(i)) is ListingPanes);
        lemma_listing_holds_the_lock(args, before);
    }
}

/// A command that lists panes was granted its lock.
proof fn lemma_listing_holds_the_lock(args: Seq<Seq<char>>, replies: Seq<Option<Seq<char>>>)
    requires
        !(ToggleView::reached(args, replies) is Finishing),
        !(ToggleView::reached(args, replies) is Locking),
    ensures
        replies.len() > 0,
        replies[0] is Some,
    decreases replies.len(),
{
    if replies.len() > 0 {
        let before = replies.drop_last();
        if ToggleView::reached(args, before) is Locking {
            lemma_locking_is_first(args, before);
        } else {
            lemma_listing_holds_the_lock(args, before);
        }
    }
}

proof fn lemma_locking_is_first(args: Seq<Seq<char>>, replies: Seq<Option<Seq<char>>>)
    requires
        ToggleView::reached(args, replies) is Locking,
    ensures
        replies.len() == 0,
{
}

/// A toggle command takes its window and its directory from its arguments in
/// this order, wherever the flag stands; a missing directory is the home
/// directory, and without a window nothing is done.
pub proof fn arguments_name_a_window_and_a_directory(window_id: Seq<char>, path: Seq<char>)
    requires
        window_id != "--create-only"@,
        path != "--create-only"@,
    ensures
        ({
            let flag = "--create-only"@;
            let manual = RequestView { create_only: false, window_id, pane_path: path };
            let hooked = RequestView { create_only: true, window_id, pane_path: path };
            &&& ToggleView::start(seq![window_id, path]) == (ToggleView::Locking { req: manual })
            &&& ToggleView::start(seq![flag, window_id, path]) == (ToggleView::Locking {
                req: hooked,
            })
            &&& ToggleView::start(seq![window_id, flag, path]) == (ToggleView::Locking {
                req: hooked,
            })
            &&& ToggleView::start(seq![window_id, path, flag]) == (ToggleView::Locking {
                req: hooked,
            })
            &&& ToggleView::start(seq![window_id]) == (ToggleView::Locking {
                req: RequestView { create_only: false, window_id, pane_path: "~"@ },
            })
            &&& ToggleView::start(seq![flag]).next_step() == StepView::Done
            &&& ToggleView::start(Seq::empty()).next_step() == StepView::Done
        }),
{
    let flag = "--create-only"@;
    let none = Seq::<Seq<char>>::empty();
    reveal_with_fuel(positional, 5);
    assert(seq![window_id].drop_last() =~= none);
    assert(seq![flag].drop_last() =~= none);
    assert(seq![window_id, path].drop_last() =~= seq![window_id]);
    assert(seq![flag, window_id].drop_last() =~= seq![flag]);
    assert(seq![window_id, flag].drop_last() =~= seq![window_id]);
    assert(seq![flag, window_id, path].drop_last() =~= seq![flag, window_id]);
    assert(seq![window_id, flag, path].drop_last() =~= seq![window_id, flag]);
    assert(seq![window_id, path, flag].drop_last() =~= seq![window_id, path]);
    assert(seq![flag, window_id, path][0] == flag);
    assert(seq![window_id, flag, path][1] == flag);
    assert(seq![window_id, path, flag][2] == flag);
    assert(positional(seq![window_id]) =~= seq![window_id]);
    assert(positional(seq![window_id, path]) =~= seq![window_id, path]);
    assert(positional(seq![flag, window_id, path]) =~= seq![window_id, path]);
    assert(positional(seq![window_id, flag, path]) =~= seq![window_id, path]);
    assert(positional(seq![window_id, path, flag]) =~= seq![window_id, path]);
    assert(!seq![window_id, path].contains(flag));
    assert(!seq![window_id].contains(flag));
}

/// A width setting never resolves to more columns than 32 bits count.
pub proof fn resolved_widths_are_bounded(setting: Seq<char>, window_width: nat)
    ensures
        toggle::resolved_width(setting, window_width) matches Some(width) ==> width <= u32::MAX,
{
}

impl ToggleView {
    /// The state after the setting, the width of the window and the side were
    /// answered.
    pub open spec fn configured(
        req: RequestView,
        setting: Seq<char>,
        window_width: nat,
        side: Seq<char>,
    ) -> ToggleView {
        (ToggleView::ReadingWidth { req }).after(Some(setting)).after(
            Some(numbers::decimal(window_width)),
        ).after(Some(side))
    }
}

/// The sidebar of a free window is split off as configured: with the columns to
/// which its setting resolves, or with the setting itself where it does not; on
/// the side that the option names; from the outermost pane, or from the window
/// where none is known; in the directory of the request; and with this program.
pub proof fn new_sidebars_are_split_as_configured(
    req: RequestView,
    setting: Seq<char>,
    window_width: nat,
    side: Seq<char>,
    panes: Seq<char>,
    main_min: nat,
    placements: Seq<char>,
    active: Seq<char>,
    program: Seq<char>,
)
    requires
        setting.len() > 0,
        window_width <= u32::MAX,
        main_min <= u32::MAX,
        toggle::sidebars(panes).len() == 0,
        toggle::resolved_width(setting, window_width) matches Some(width) ==> width + main_min + 1
            <= window_width,
    ensures
        ({
            let listing = ToggleView::configured(req, setting, window_width, side);
            let asking = listing.after(Some(panes));
            let placing = asking.after(Some(numbers::decimal(main_min)));
            let focusing = placing.after(Some(placements));
            let finding = focusing.after(Some(active));
            let splitting = finding.after(Some(program));
            let args = splitting.next_step()->Tmux_args;
            let width = toggle::resolved_width(setting, window_width);
            &&& listing.next_step() == step::list_panes(req.window_id, toggle::role_format())
            &&& asking.next_step() == step::read_option(
                req.window_id,
                options::SIDEBAR_MAIN_MIN_WIDTH@,
            )
            &&& placing.next_step() == step::list_panes(
                req.window_id,
                "#{pane_left} #{pane_width} #{pane_id}"@,
            )
            &&& focusing.next_step() == (StepView::Display {
                target: req.window_id,
                format: "#{pane_id}"@,
            })
            &&& finding.next_step() == StepView::CurrentExe
            &&& splitting.next_step() is Tmux
            &&& args.len() == 12
            &&& args[0] == "split-window"@
            &&& args[1] == (if SidebarPosition::of_setting(side) == SidebarPosition::Right {
                "-hf"@
            } else {
                "-hfb"@
            })
            &&& args[2] == "-l"@
            &&& width is Some ==> numbers::parsed(args[3], u32::MAX as nat) == width
            &&& width is None ==> args[3] == setting
            &&& args[4] == "-t"@
            &&& toggle::split_target(placements, SidebarPosition::of_setting(side)) is Some
                ==> args[5] == toggle::split_target(placements, SidebarPosition::of_setting(side))->0
            &&& toggle::split_target(placements, SidebarPosition::of_setting(side)) is None
                ==> args[5] == req.window_id
            &&& args[6] == "-c"@
            &&& args[7] == req.pane_path
            &&& args[8] == "-P"@
            &&& args[9] == "-F"@
            &&& args[10] == "#{pane_id}"@
            &&& args[11] == program
            &&& finding.after(None).next_step()->Tmux_args[11] == "tmux-agent-sidebar"@
        }),
{
    resolved_widths_are_bounded(setting, window_width);
    numbers::decimals_are_plain(window_width, ' ');
    numbers::decimals_are_plain(main_min, ' ');
    numbers::decimal_round_trips(window_width, u32::MAX as nat);
    numbers::decimal_round_trips(main_min, u32::MAX as nat);
    if let Some(width) = toggle::resolved_width(setting, window_width) {
        numbers::decimal_round_trips(width, u32::MAX as nat);
    }
}

/// A sidebar configured to so many columns, which fit, is split off with just so
/// many.
pub proof fn configured_columns_reach_the_split(
    req: RequestView,
    columns: nat,
    window_width: nat,
    side: Seq<char>,
    panes: Seq<char>,
    main_min: nat,
    placements: Seq<char>,
    active: Seq<char>,
    program: Seq<char>,
)
    requires
        0 < columns,
        columns + main_min + 1 <= window_width <= u32::MAX,
        toggle::sidebars(panes).len() == 0,
    ensures
        ({
            let end = ToggleView::configured(
                req,
                numbers::decimal(columns),
                window_width,
                side,
            ).after(Some(panes)).after(Some(numbers::decimal(main_min))).after(
                Some(placements),
            ).after(Some(active)).after(Some(program)).next_step();
            &&& end is Tmux
            &&& end->Tmux_args[0] == "split-window"@
            &&& end->Tmux_args[2] == "-l"@
            &&& numbers::parsed(end->Tmux_args[3], u32::MAX as nat) == Some(columns)
        }),
{
    let none = Seq::<char>::empty();
    numbers::decimals_are_plain(columns, ' ');
    toggle::settings_resolve_to_what_they_say(columns, window_width, none, none, none);
    assert(none + numbers::decimal(columns) + none =~= numbers::decimal(columns));
    new_sidebars_are_split_as_configured(
        req,
        numbers::decimal(columns),
        window_width,
        side,
        panes,
        main_min,
        placements,
        active,
        program,
    );
}

/// Where no width is configured, it is as if the setting were 48.
pub proof fn sidebars_have_48_columns_by_default(req: RequestView)
    ensures
        ({
            let reading = ToggleView::ReadingWidth { req };
            &&& reading.next_step() == step::read_option(req.window_id, options::SIDEBAR_WIDTH@)
            &&& reading.after(None) == reading.after(Some(numbers::decimal(48)))
            &&& reading.after(Some(Seq::empty())) == reading.after(Some(numbers::decimal(48)))
        }),
{
    reveal_strlit("48");
    assert("48"@.len() == 2);
    reveal_with_fuel(numbers::decimal, 3);
    assert(numbers::decimal(48) =~= "48"@);
    numbers::decimals_are_plain(48, ' ');
    let none = Seq::<char>::empty();
    strings::padding_is_trimmed(none, none, none);
    assert(none + none + none =~= none);
}

/// A window with sidebars gets none: a request that only creates removes all but
/// the first, in order, and any other one removes those, forgets that a sidebar
/// was hidden, and removes the first as well.
pub proof fn existing_sidebars_are_reconciled_in_order(
    req: RequestView,
    plan: PlanView,
    panes: Seq<char>,
    i: int,
)
    requires
        toggle::sidebars(panes).len() > 0,
    ensures
        ({
            let found = toggle::sidebars(panes);
            let n = found.len() as int;
            let end = (ToggleView::ListingPanes { req, plan }).after(Some(panes));
            let rest = end->rest;
            &&& end is Finishing
            &&& rest.len() == if req.create_only {
                n - 1
            } else {
                n + 2
            }
            &&& 0 <= i < n - 1 ==> rest[i] == (StepView::Tmux {
                args: seq!["kill-pane"@, "-t"@, found[i + 1]],
            })
            &&& !req.create_only ==> rest[n - 1] == (StepView::Tmux {
                args: seq!["set"@, "-wu"@, "-t"@, req.window_id, options::SIDEBAR_AUTO_HIDDEN@],
            }) && rest[n] == (StepView::Tmux {
                args: seq![
                    "set"@,
                    "-wu"@,
                    "-t"@,
                    req.window_id,
                    options::SIDEBAR_AUTO_HIDDEN_PATH@,
                ],
            }) && rest[n + 1] == (StepView::Tmux {
                args: seq!["kill-pane"@, "-t"@, found[0]],
            })
        }),
{
}

/// A sidebar that would leave the main area too few columns is not created. A
/// request that only creates marks the window and keeps the directory for later;
/// any other one leaves no trace.
pub proof fn sidebars_without_room_are_postponed(
    req: RequestView,
    plan: PlanView,
    width: nat,
    main_min: nat,
)
    requires
        plan.width == Some(width),
        plan.window_width < width + main_min + 1 <= u32::MAX,
    ensures
        ({
            let end = (ToggleView::ReadingMainMin { req, plan }).after(
                Some(numbers::decimal(main_min)),
            );
            &&& end is Finishing
            &&& req.create_only ==> end->rest == seq![
                StepView::Tmux {
                    args: seq![
                        "set"@,
                        "-w"@,
                        "-t"@,
                        req.window_id,
                        options::SIDEBAR_AUTO_HIDDEN@,
                        "1"@,
                    ],
                },
                StepView::Tmux {
                    args: seq![
                        "set"@,
                        "-w"@,
                        "-t"@,
                        req.window_id,
                        options::SIDEBAR_AUTO_HIDDEN_PATH@,
                        req.pane_path,
                    ],
                },
            ]
            &&& !req.create_only ==> end.next_step() == StepView::Done
        }),
{
    numbers::decimals_are_plain(main_min, ' ');
    numbers::decimal_round_trips(main_min, u32::MAX as nat);
}

/// Where the columns of the main area are not configured, it keeps 80.
pub proof fn main_areas_keep_80_columns_by_default(
    req: RequestView,
    plan: PlanView,
    width: nat,
)
    requires
        plan.width == Some(width),
        width + 81 <= u32::MAX,
    ensures
        (ToggleView::ReadingMainMin { req, plan }).after(None) is ListingGeometry <==> width + 81
            <= plan.window_width,
{
    let none = Seq::<char>::empty();
    strings::padding_is_trimmed(none, none, none);
    assert(none + none + none =~= none);
    assert(numbers::parsed(none, u32::MAX as nat) is None);
}

/// A request that only creates stops at a window narrower than the configured
/// number of columns, and goes on at any other one, at one of unknown width, and
/// where no number is configured. A manual toggle is not held up.
pub proof fn narrow_windows_stop_hooks(req: RequestView, min_width: nat, window_width: nat)
    requires
        min_width <= u32::MAX,
        window_width <= u32::MAX,
    ensures
        ({
            let reading = ToggleView::ReadingWidth { req };
            let gate = ToggleView::ReadingGate { req };
            let gated = gate.after(Some(numbers::decimal(min_width)));
            let end = gated.after(Some(numbers::decimal(window_width)));
            &&& (ToggleView::Locking { req }).after(Some(Seq::empty())) == if req.create_only {
                gate
            } else {
                reading
            }
            &&& gate.next_step() == step::read_option(
                req.window_id,
                options::SIDEBAR_AUTO_CREATE_MIN_WIDTH@,
            )
            &&& gate.after(None) == reading
            &&& min_width == 0 ==> gated == reading
            &&& min_width > 0 ==> gated.next_step() == (StepView::Display {
                target: req.window_id,
                format: "#{window_width}"@,
            })
            &&& 0 < window_width < min_width ==> end.next_step() == StepView::Done
            &&& min_width > 0 && (window_width == 0 || window_width >= min_width) ==> end
                == reading
            &&& min_width > 0 ==> gated.after(None) == reading
        }),
{
    let none = Seq::<char>::empty();
    strings::padding_is_trimmed(none, none, none);
    assert(none + none + none =~= none);
    assert(numbers::parsed(none, u32::MAX as nat) is None);
    numbers::decimals_are_plain(min_width, ' ');
    numbers::decimal_round_trips(min_width, u32::MAX as nat);
    numbers::decimals_are_plain(window_width, ' ');
    numbers::decimal_round_trips(window_width, u32::MAX as nat);
}

/// A new pane is marked as a sidebar, its window is no longer one whose sidebar
/// is hidden, and the pane that was active is so again. Where no pane came, only
/// the focus goes back.
pub proof fn new_panes_are_marked_and_the_focus_goes_back(
    req: RequestView,
    plan: PlanView,
    main_min: nat,
    target: Seq<char>,
    active: Seq<char>,
    program: Seq<char>,
    pane: Seq<char>,
    right: Seq<char>,
)
    requires
        strings::blank(right),
        pane.len() > 0,
        !strings::is_whitespace(pane.first()),
        !strings::is_whitespace(pane.last()),
    ensures
        ({
            let splitting = ToggleView::Splitting { req, plan, main_min, target, active, program };
            let focus = if active.len() > 0 {
                StepView::Tmux { args: seq!["select-pane"@, "-t"@, active] }
            } else {
                StepView::Tmux { args: seq!["select-pane"@, "-t"@, req.window_id, "-l"@] }
            };
            &&& splitting.after(Some(pane + right)) == (ToggleView::Finishing {
                rest: seq![
                    StepView::SetPaneOption {
                        pane_id: pane,
                        option: options::PANE_ROLE@,
                        value: "sidebar"@,
                    },
                    StepView::Tmux {
                        args: seq![
                            "set"@,
                            "-wu"@,
                            "-t"@,
                            req.window_id,
                            options::SIDEBAR_AUTO_HIDDEN@,
                        ],
                    },
                    StepView::Tmux {
                        args: seq![
                            "set"@,
                            "-wu"@,
                            "-t"@,
                            req.window_id,
                            options::SIDEBAR_AUTO_HIDDEN_PATH@,
                        ],
                    },
                    focus,
                ],
            })
            &&& splitting.after(None) == (ToggleView::Finishing { rest: seq![focus] })
            &&& splitting.after(Some(right)) == (ToggleView::Finishing { rest: seq![focus] })
        }),
{
    let none = Seq::<char>::empty();
    strings::padding_is_trimmed(none, pane, right);
    assert(none + pane + right =~= pane + right);
    strings::padding_is_trimmed(none, none, right);
    assert(none + none + right =~= right);
    strings::padding_is_trimmed(none, none, none);
    assert(none + none + none =~= none);
    let splitting = ToggleView::Splitting { req, plan, main_min, target, active, program };
    let focus = restore_focus(req.window_id, active);
    assert(splitting.after(Some(pane + right))->rest =~= settle(req, active, pane));
    assert(settle(req, active, pane) =~= seq![
        StepView::SetPaneOption {
            pane_id: pane,
            option: options::PANE_ROLE@,
            value: "sidebar"@,
        },
        step::unset_window_option(req.window_id, options::SIDEBAR_AUTO_HIDDEN@),
        step::unset_window_option(req.window_id, options::SIDEBAR_AUTO_HIDDEN_PATH@),
        focus,
    ]);
    assert(settle(req, active, none) =~= seq![focus]);
}

/// A request that fails counts as one with an empty reply, but for the lock, and
/// for the path of this program, which then goes by its name.
pub proof fn failed_requests_count_as_empty(state: ToggleView)
    requires
        state !is Locking,
        state !is FindingProgram,
    ensures
        state.after(None) == state.after(Some(Seq::empty())),
{
}

/// Blanks around a number in a reply do not matter, but for the width of the
/// window in which a sidebar is created: with blanks it is not known.
pub proof fn blanks_around_replies_do_not_matter(
    req: RequestView,
    plan: PlanView,
    setting: Seq<char>,
    min_width: nat,
    n: nat,
    left: Seq<char>,
    right: Seq<char>,
)
    requires
        strings::blank(left),
        strings::blank(right),
    ensures
        ({
            let padded = Some(left + numbers::decimal(n) + right);
            let plain = Some(numbers::decimal(n));
            let gate = ToggleView::ReadingGate { req };
            let width = ToggleView::ReadingGateWidth { req, min_width };
            let main = ToggleView::ReadingMainMin { req, plan };
            let window = ToggleView::ReadingWindowWidth { req, setting };
            &&& gate.after(padded) == gate.after(plain)
            &&& width.after(padded) == width.after(plain)
            &&& main.after(padded) == main.after(plain)
            &&& left.len() + right.len() > 0 ==> window.after(padded) == window.after(None)
        }),
{
    let none = Seq::<char>::empty();
    numbers::blanks_around_a_number(n, left, right, u32::MAX as nat);
    assert(numbers::parsed(none, u32::MAX as nat) is None);
}

/// A gate that says no number, or zero, holds nothing up; a main area whose option
/// says no number keeps its 80 columns.
pub proof fn replies_without_a_number_say_nothing(
    req: RequestView,
    plan: PlanView,
    min_width: nat,
    text: Seq<char>,
)
    requires
        numbers::parsed(strings::trimmed(text), u32::MAX as nat) is None,
    ensures
        (ToggleView::ReadingGate { req }).after(Some(text)) == (ToggleView::ReadingWidth { req }),
        (ToggleView::ReadingGateWidth { req, min_width }).after(Some(text)) == (
        ToggleView::ReadingWidth { req }),
        (ToggleView::ReadingMainMin { req, plan }).after(Some(text)) == (
        ToggleView::ReadingMainMin { req, plan }).after(Some(numbers::decimal(80))),
{
    numbers::decimals_are_plain(80, ' ');
    numbers::decimal_round_trips(80, u32::MAX as nat);
}

/// The focus goes back to the pane that was active before the split.
pub proof fn the_focus_goes_back_to_the_active_pane(
    req: RequestView,
    plan: PlanView,
    main_min: nat,
    target: Seq<char>,
    active: Seq<char>,
    program: Option<Seq<char>>,
)
    requires
        active.len() > 0,
    ensures
        (ToggleView::ReadingActive { req, plan, main_min, target }).after(Some(active)).after(
            program,
        ).after(None).next_step() == (StepView::Tmux {
            args: seq!["select-pane"@, "-t"@, active],
        }),
{
    let none = Seq::<char>::empty();
    strings::padding_is_trimmed(none, none, none);
    assert(none + none + none =~= none);
}

/// Arguments behind the window and the directory do not matter.
pub proof fn further_arguments_do_not_matter(args: Seq<Seq<char>>, more: Seq<char>)
    requires
        positional(args).len() >= 2,
        more != "--create-only"@,
    ensures
        ToggleView::start(args.push(more)) == ToggleView::start(args),
{
    assert(args.push(more).drop_last() =~= args);
    assert(args.push(more).contains("--create-only"@) == args.contains("--create-only"@)) by {
        if args.contains("--create-only"@) {
            let k = choose|k: int| 0 <= k < args.len() && args[k] == "--create-only"@;
            assert(args.push(more)[k] == "--create-only"@);
        }
    }
}

} // verus!
