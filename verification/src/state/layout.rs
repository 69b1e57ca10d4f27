//! What is where on the screen, and what clicks there do.

use vstd::prelude::*;

use crate::clock;
use crate::state::app_state::AgentPane;
use crate::state::app_state::AppState;
use crate::state::app_state::Popup;
use crate::state::app_state::RepoGroup;
use crate::state::filter;
use crate::state::filter::RepoFilter;
use crate::state::filter::StatusFilter;
use crate::state::geometry;
use crate::state::geometry::Rect;
use crate::state::global::GlobalState;
use crate::state::timers::RefreshTimers;
use crate::text::numbers;
use crate::text::strings;

verus! {

// ---- the frame ----

/// A row of the agent list.
#[derive(Debug, Clone)]
pub struct RowTarget {
    pub pane_id: String,
}

/// The button that opens the spawn dialog of a repository.
#[derive(Debug, Clone)]
pub struct RepoSpawnTarget {
    pub rect: Rect,
    pub repo_name: String,
    pub repo_root: String,
}

/// The mark that removes a pane which the sidebar spawned.
#[derive(Debug, Clone)]
pub struct SpawnRemoveTarget {
    pub rect: Rect,
    pub pane_id: String,
}

/// A hyperlink written over the screen after a frame.
#[derive(Debug, Clone)]
pub struct HyperlinkOverlay {
    pub x: u16,
    pub y: u16,
    pub text: String,
    pub url: String,
}

/// What the last frame put where. Each frame writes it anew, and input is
/// matched against it until the next.
#[derive(Debug, Clone)]
pub struct FrameLayout {
    /// Listed panes, in the order of their rows.
    pub pane_row_targets: Vec<RowTarget>,
    /// Row of each rendered line; none for headers and blank lines.
    pub line_to_row: Vec<Option<usize>>,
    /// Column of the repository button in the secondary header, while it is
    /// shown.
    pub repo_button_col: Option<u16>,
    /// Spawn buttons of the visible repositories.
    pub repo_spawn_targets: Vec<RepoSpawnTarget>,
    /// Remove marks of the visible panes.
    pub spawn_remove_targets: Vec<SpawnRemoveTarget>,
    /// Hyperlinks to write after the frame.
    pub hyperlink_overlays: Vec<HyperlinkOverlay>,
    /// Handle that shows or hides the bottom panel, while the window is compact.
    pub bottom_toggle_target: Option<Rect>,
}

impl FrameLayout {
    /// Whether nothing is on the screen.
    pub open spec fn is_blank(self) -> bool {
        &&& self.pane_row_targets@.len() == 0
        &&& self.line_to_row@.len() == 0
        &&& self.repo_button_col is None
        &&& self.repo_spawn_targets@.len() == 0
        &&& self.spawn_remove_targets@.len() == 0
        &&& self.hyperlink_overlays@.len() == 0
        &&& self.bottom_toggle_target is None
    }

    /// An empty screen.
    pub fn new() -> (layout: FrameLayout)
        ensures
            layout.is_blank(),
    {
        FrameLayout {
            pane_row_targets: Vec::new(),
            line_to_row: Vec::new(),
            repo_button_col: None,
            repo_spawn_targets: Vec::new(),
            spawn_remove_targets: Vec::new(),
            hyperlink_overlays: Vec::new(),
            bottom_toggle_target: None,
        }
    }
}

impl Default for FrameLayout {
    fn default() -> (layout: FrameLayout)
        ensures
            layout.is_blank(),
    {
        FrameLayout::new()
    }
}

/// What input asks of the rest of the sidebar.
pub enum Effect {
    /// Write the status filter to tmux.
    SaveFilter,
    /// Write the repository filter to tmux.
    SaveRepoFilter,
    /// Scroll the bottom panel.
    ScrollBottom { delta: isize },
    /// Scroll the agent list.
    ScrollPanes { delta: isize },
    ToggleNoticesPopup,
    ToggleRepoPopup,
    /// Copy the prompt whose button is at this place of the notices popup, if
    /// there is one.
    CopyNoticesAt { row: u16, col: u16 },
    CloseNoticesPopup,
    /// Select this entry of the repository popup and confirm it.
    ConfirmRepo { index: usize },
    CloseRepoPopup,
    CloseSpawnInput,
    CloseRemoveConfirm,
    /// Open the spawn dialog of a repository below this row.
    OpenSpawnInput { repo_name: String, repo_root: String, anchor_y: u16 },
    /// Ask whether to remove a pane.
    OpenRemoveConfirm { pane_id: String },
    /// Go to the pane in the selected row.
    ActivateSelectedPane,
}

/// An effect as mathematical values.
#[verifier::ext_equal]
pub enum EffectView {
    SaveFilter,
    SaveRepoFilter,
    ScrollBottom { delta: int },
    ScrollPanes { delta: int },
    ToggleNoticesPopup,
    ToggleRepoPopup,
    CopyNoticesAt { row: u16, col: u16 },
    CloseNoticesPopup,
    ConfirmRepo { index: nat },
    CloseRepoPopup,
    CloseSpawnInput,
    CloseRemoveConfirm,
    OpenSpawnInput { repo_name: Seq<char>, repo_root: Seq<char>, anchor_y: u16 },
    OpenRemoveConfirm { pane_id: Seq<char> },
    ActivateSelectedPane,
}

impl View for Effect {
    type V = EffectView;

    open spec fn view(&self) -> EffectView {
        match self {
            Effect::SaveFilter => EffectView::SaveFilter,
            Effect::SaveRepoFilter => EffectView::SaveRepoFilter,
            Effect::ScrollBottom { delta } => EffectView::ScrollBottom { delta: *delta as int },
            Effect::ScrollPanes { delta } => EffectView::ScrollPanes { delta: *delta as int },
            Effect::ToggleNoticesPopup => EffectView::ToggleNoticesPopup,
            Effect::ToggleRepoPopup => EffectView::ToggleRepoPopup,
            Effect::CopyNoticesAt { row, col } => EffectView::CopyNoticesAt {
                row: *row,
                col: *col,
            },
            Effect::CloseNoticesPopup => EffectView::CloseNoticesPopup,
            Effect::ConfirmRepo { index } => EffectView::ConfirmRepo { index: *index as nat },
            Effect::CloseRepoPopup => EffectView::CloseRepoPopup,
            Effect::CloseSpawnInput => EffectView::CloseSpawnInput,
            Effect::CloseRemoveConfirm => EffectView::CloseRemoveConfirm,
            Effect::OpenSpawnInput { repo_name, repo_root, anchor_y } =>
            EffectView::OpenSpawnInput {
                repo_name: repo_name@,
                repo_root: repo_root@,
                anchor_y: *anchor_y,
            },
            Effect::OpenRemoveConfirm { pane_id } => EffectView::OpenRemoveConfirm {
                pane_id: pane_id@,
            },
            Effect::ActivateSelectedPane => EffectView::ActivateSelectedPane,
        }
    }
}

/// The effects in a list.
pub open spec fn effects(list: Seq<Effect>) -> Seq<EffectView> {
    Seq::new(list.len(), |i: int| list[i]@)
}

/// No effects.
fn no_effects() -> (list: Vec<Effect>)
    ensures
        effects(list@) == Seq::<EffectView>::empty(),
{
    let list: Vec<Effect> = Vec::new();
    assert(effects(list@) =~= Seq::<EffectView>::empty());
    list
}

/// One effect.
fn one_effect(effect: Effect) -> (list: Vec<Effect>)
    ensures
        effects(list@) == seq![effect@],
{
    let mut list: Vec<Effect> = Vec::new();
    list.push(effect);
    assert(effects(list@) =~= seq![effect@]);
    list
}

// ---- the bottom panel ----

/// The sum of two heights, within the range of a row number.
pub open spec fn rows(a: u16, b: u16) -> int {
    if a + b <= u16::MAX {
        a + b
    } else {
        u16::MAX as int
    }
}

impl AppState {
    /// Rows that the agent list keeps before the bottom panel may share the
    /// window with it.
    pub const COMPACT_LIST_MIN: u16 = 10;

    /// Whether a window of `height` rows is compact, and whether it shows the
    /// bottom panel. A window is compact where the panel would leave the list
    /// too few rows; then the panel is hidden until the user shows it. Any
    /// other window shows the panel, and a panel of no height is never shown.
    pub open spec fn visibility(self, height: u16) -> (bool, bool) {
        if self.bottom_panel_height == 0 {
            (false, false)
        } else if height < rows(self.bottom_panel_height, Self::COMPACT_LIST_MIN) {
            (true, self.bottom_override == Some(true))
        } else {
            (false, true)
        }
    }

    /// Resolves, for a window of `height` rows, whether it is compact and
    /// whether it shows the bottom panel.
    pub fn bottom_visibility(&self, height: u16) -> (compact_shown: (bool, bool))
        ensures
            compact_shown == self.visibility(height),
    {
        if self.bottom_panel_height == 0 {
            return (false, false);
        }
        let compact = height < self.bottom_panel_height.saturating_add(Self::COMPACT_LIST_MIN);
        let shown = if compact {
            self.bottom_override.unwrap_or(false)
        } else {
            true
        };
        (compact, shown)
    }

    /// The state after a frame: when compactness changed since the frame before,
    /// the user's choice is forgotten.
    pub open spec fn synced(self, compact: bool) -> AppState {
        AppState {
            bottom_override: if self.last_compact == Some(!compact) {
                None
            } else {
                self.bottom_override
            },
            last_compact: Some(compact),
            ..self
        }
    }

    /// Records whether a frame is compact, and forgets the user's choice when
    /// that changed. The first frame only records.
    pub fn sync_bottom_regime(&mut self, compact: bool)
        ensures
            *final(self) == old(self).synced(compact),
    {
        if let Some(prev) = self.last_compact {
            if prev != compact {
                self.bottom_override = None;
            }
        }
        self.last_compact = Some(compact);
    }

    /// Whether the last frame showed the bottom panel.
    pub fn bottom_panel_visible(&self) -> (visible: bool)
        ensures
            visible == self.visibility(self.last_viewport_height).1,
    {
        self.bottom_visibility(self.last_viewport_height).1
    }

    /// The state after the user asked to show or hide the bottom panel: a
    /// compact window obeys, any other one changes nothing.
    pub open spec fn toggled(self) -> AppState {
        let (compact, shown) = self.visibility(self.last_viewport_height);
        if compact {
            AppState { bottom_override: Some(!shown), ..self }
        } else {
            self
        }
    }

    /// Shows or hides the bottom panel of a compact window.
    pub fn toggle_bottom_panel(&mut self)
        ensures
            *final(self) == old(self).toggled(),
    {
        if self.bottom_panel_height == 0 {
            return;
        }
        let (compact, shown) = self.bottom_visibility(self.last_viewport_height);
        if !compact {
            return;
        }
        self.bottom_override = Some(!shown);
    }

    /// Whether a click lands on the handle of the bottom panel.
    pub open spec fn on_handle(self, row: u16, col: u16) -> bool {
        self.layout.bottom_toggle_target matches Some(rect) && rect.covers(col, row)
    }

    /// Takes a click on the handle of the bottom panel, and reports whether it
    /// was one.
    pub fn handle_bottom_toggle_click(&mut self, row: u16, col: u16) -> (taken: bool)
        ensures
            taken == old(self).on_handle(row, col),
            *final(self) == (if taken {
                old(self).toggled()
            } else {
                *old(self)
            }),
    {
        if let Some(rect) = self.layout.bottom_toggle_target {
            if geometry::point_in_rect(row, col, rect) {
                self.toggle_bottom_panel();
                return true;
            }
        }
        false
    }
}

// ---- the agent list ----

/// The panes of a group that a filter lists, in order.
pub open spec fn listed_panes(panes: Seq<AgentPane>, status: StatusFilter) -> Seq<Seq<char>>
    decreases panes.len(),
{
    if panes.len() == 0 {
        Seq::empty()
    } else {
        let head = listed_panes(panes.drop_last(), status);
        if status.admits(panes.last().status) {
            head.push(panes.last().pane_id@)
        } else {
            head
        }
    }
}

/// The panes of all groups that the filters list, in order.
pub open spec fn listed(
    groups: Seq<RepoGroup>,
    repo: Option<Seq<char>>,
    status: StatusFilter,
) -> Seq<Seq<char>>
    decreases groups.len(),
{
    if groups.len() == 0 {
        Seq::empty()
    } else {
        let head = listed(groups.drop_last(), repo, status);
        if filter::lists_repo(repo, groups.last().name@) {
            head + listed_panes(groups.last().panes@, status)
        } else {
            head
        }
    }
}

/// Whether a repository has a group.
pub open spec fn has_group(groups: Seq<RepoGroup>, name: Seq<char>) -> bool {
    exists|i: int| 0 <= i < groups.len() && (#[trigger] groups[i]).name@ == name
}

/// Whether a repository filter names a repository that is gone.
pub open spec fn is_stale(groups: Seq<RepoGroup>, repo: Option<Seq<char>>) -> bool {
    repo matches Some(name) && !has_group(groups, name)
}

/// The panes of a list of rows.
pub open spec fn row_panes(targets: Seq<RowTarget>) -> Seq<Seq<char>> {
    Seq::new(targets.len(), |i: int| targets[i].pane_id@)
}

/// The row of the cursor in a list of `count` rows: past the end it moves to
/// the last row, and in an empty list it stays.
pub open spec fn cursor_row(selected: usize, count: nat) -> int {
    if selected >= count && count > 0 {
        count - 1
    } else {
        selected as int
    }
}

/// Finds out whether a repository has a group.
fn knows_group(groups: &Vec<RepoGroup>, name: &str) -> (known: bool)
    ensures
        known == has_group(groups@, name@),
{
    for i in 0..groups.len()
        invariant
            forall|k: int| 0 <= k < i ==> (#[trigger] groups@[k]).name@ != name@,
    {
        if strings::same_text(groups[i].name.as_str(), name) {
            return true;
        }
    }
    false
}

/// Appends the panes of a group that a filter lists.
fn list_group(group: &RepoGroup, status: StatusFilter, targets: &mut Vec<RowTarget>)
    ensures
        row_panes(final(targets)@) == row_panes(old(targets)@) + listed_panes(group.panes@, status),
{
    let ghost start = row_panes(targets@);
    assert(row_panes(targets@) =~= start + listed_panes(group.panes@.take(0), status));
    for i in 0..group.panes.len()
        invariant
            row_panes(targets@) == start + listed_panes(group.panes@.take(i as int), status),
    {
        let ghost before = row_panes(targets@);
        assert(group.panes@.take(i + 1).drop_last() == group.panes@.take(i as int));
        assert(group.panes@.take(i + 1).last() == group.panes@[i as int]);
        if status.matches(&group.panes[i].status) {
            targets.push(RowTarget { pane_id: group.panes[i].pane_id.clone() });
            assert(row_panes(targets@) =~= before.push(group.panes@[i as int].pane_id@));
            assert(row_panes(targets@) =~= start + listed_panes(
                group.panes@.take(i + 1),
                status,
            ));
        }
    }
    assert(group.panes@.take(group.panes@.len() as int) == group.panes@);
}

/// What the mouse wheel scrolls in a window whose last rows are the bottom panel.
pub open spec fn wheel_effect(
    row: u16,
    term_height: u16,
    bottom_panel_height: u16,
    delta: int,
) -> EffectView {
    if row + bottom_panel_height >= term_height {
        EffectView::ScrollBottom { delta }
    } else {
        EffectView::ScrollPanes { delta }
    }
}

impl AppState {
    /// Whether this state follows from `before` by listing the agents anew: a
    /// repository filter without a repository is dropped, the rows are the
    /// panes that the filters list, and the cursor stays on a row.
    pub open spec fn relisted(self, before: AppState) -> bool {
        let repo = if is_stale(before.repo_groups@, before.global.repo_filter@) {
            RepoFilter::All
        } else {
            before.global.repo_filter
        };
        let rows = listed(before.repo_groups@, repo@, before.global.status_filter);
        &&& row_panes(self.layout.pane_row_targets@) == rows
        &&& self == AppState {
            global: GlobalState {
                repo_filter: repo,
                selected_pane_row: cursor_row(
                    before.global.selected_pane_row,
                    rows.len(),
                ) as usize,
                ..before.global
            },
            layout: FrameLayout {
                pane_row_targets: self.layout.pane_row_targets,
                ..before.layout
            },
            ..before
        }
    }

    /// What listing the agents anew asks for: a dropped repository filter is
    /// written to tmux, so that no other sidebar reads it again.
    pub open spec fn relisting_effects(self) -> Seq<EffectView> {
        if is_stale(self.repo_groups@, self.global.repo_filter@) {
            seq![EffectView::SaveRepoFilter]
        } else {
            Seq::empty()
        }
    }

    /// Lists the agents anew.
    pub fn rebuild_row_targets(&mut self) -> (list: Vec<Effect>)
        ensures
            final(self).relisted(*old(self)),
            effects(list@) == old(self).relisting_effects(),
    {
        let mut list = no_effects();
        let stale = match &self.global.repo_filter {
            RepoFilter::Repo(name) => !knows_group(&self.repo_groups, name.as_str()),
            RepoFilter::All => false,
        };
        if stale {
            self.global.repo_filter = RepoFilter::All;
            list = one_effect(Effect::SaveRepoFilter);
        }
        let ghost repo = self.global.repo_filter@;
        let ghost status = self.global.status_filter;
        let ghost groups = self.repo_groups@;
        let mut targets: Vec<RowTarget> = Vec::new();
        assert(row_panes(targets@) =~= listed(groups.take(0), repo, status));
        for i in 0..self.repo_groups.len()
            invariant
                repo == self.global.repo_filter@,
                status == self.global.status_filter,
                groups == self.repo_groups@,
                row_panes(targets@) == listed(groups.take(i as int), repo, status),
        {
            assert(groups.take(i + 1).drop_last() == groups.take(i as int));
            assert(groups.take(i + 1).last() == groups[i as int]);
            if self.global.repo_filter.matches_group(self.repo_groups[i].name.as_str()) {
                list_group(&self.repo_groups[i], self.global.status_filter, &mut targets);
            }
        }
        assert(groups.take(groups.len() as int) == groups);
        assert(row_panes(targets@).len() == targets@.len());
        let count: usize = targets.len();
        self.layout.pane_row_targets = targets;
        if self.global.selected_pane_row >= count && count > 0 {
            self.global.selected_pane_row = count - 1;
        }
        list
    }

    /// Routes the mouse wheel to the bottom panel or the agent list, by the row
    /// of the pointer.
    pub fn handle_mouse_scroll(
        &self,
        row: u16,
        term_height: u16,
        bottom_panel_height: u16,
        delta: isize,
    ) -> (effect: Effect)
        ensures
            effect@ == wheel_effect(row, term_height, bottom_panel_height, delta as int),
    {
        let bottom_start: u16 = term_height.saturating_sub(bottom_panel_height);
        if row >= bottom_start {
            Effect::ScrollBottom { delta }
        } else {
            Effect::ScrollPanes { delta }
        }
    }
}

// ---- the filter bar ----

/// Agents in each state, as the filter bar shows them.
#[derive(Clone, Copy, Debug, PartialEq, Eq, Structural)]
pub struct StatusCounts {
    pub all: usize,
    pub running: usize,
    pub background: usize,
    pub waiting: usize,
    pub idle: usize,
    pub error: usize,
}

/// Shortest time between two clicks that the filter bar takes.
pub const FILTER_CLICK_DEBOUNCE: u64 = 150_000_000;

/// Width of a filter in the bar: its icon and its count.
pub open spec fn cell_width(count: usize) -> nat {
    1 + numbers::decimal(count as nat).len()
}

impl StatusCounts {
    /// The filters in the bar from left to right, with their widths.
    pub open spec fn cells(self) -> Seq<(StatusFilter, nat)> {
        seq![
            (StatusFilter::All, cell_width(self.all)),
            (StatusFilter::Running, cell_width(self.running)),
            (StatusFilter::Background, cell_width(self.background)),
            (StatusFilter::Waiting, cell_width(self.waiting)),
            (StatusFilter::Idle, cell_width(self.idle)),
            (StatusFilter::Error, cell_width(self.error)),
        ]
    }

    /// The filter at a column of the bar, which starts with one blank.
    pub open spec fn filter_at(self, col: u16) -> Option<StatusFilter> {
        cell_at(self.cells(), 1, col as nat)
    }
}

/// The filter at a column, in a bar whose first cell starts at column `x`. Two
/// blanks part the cells.
pub open spec fn cell_at(
    cells: Seq<(StatusFilter, nat)>,
    x: nat,
    col: nat,
) -> Option<StatusFilter>
    decreases cells.len(),
{
    if cells.len() == 0 {
        None
    } else if x <= col < x + cells[0].1 {
        Some(cells[0].0)
    } else {
        cell_at(cells.drop_first(), x + cells[0].1 + 2, col)
    }
}

/// The column at which a cell starts, in a bar whose first cell starts at
/// column `x`.
pub open spec fn cell_start(cells: Seq<(StatusFilter, nat)>, x: nat, i: int) -> nat
    decreases i,
{
    if i <= 0 {
        x
    } else {
        cell_start(cells, x, i - 1) + cells[i - 1].1 + 2
    }
}

/// Measures a filter in the bar.
fn measure(count: usize) -> (width: usize)
    ensures
        width == cell_width(count),
        width <= 21,
{
    1 + numbers::decimal_len(count as u64)
}

/// Finds the filter at a column of the bar.
fn find_filter(counts: StatusCounts, col: u16) -> (found: Option<StatusFilter>)
    ensures
        found == counts.filter_at(col),
{
    let items: Vec<(StatusFilter, usize)> = vec![
        (StatusFilter::All, measure(counts.all)),
        (StatusFilter::Running, measure(counts.running)),
        (StatusFilter::Background, measure(counts.background)),
        (StatusFilter::Waiting, measure(counts.waiting)),
        (StatusFilter::Idle, measure(counts.idle)),
        (StatusFilter::Error, measure(counts.error)),
    ];
    let ghost cells = counts.cells();
    let at: usize = col as usize;
    let mut x: usize = 1;
    assert(cells.skip(0) == cells);
    for i in 0..items.len()
        invariant
            cells.len() == items@.len() == 6,
            forall|k: int|
                0 <= k < 6 ==> (#[trigger] items@[k]).0 == cells[k].0 && items@[k].1 == cells[k].1
                    && items@[k].1 <= 21,
            x <= 1 + 23 * i,
            at == col,
            counts.filter_at(col) == cell_at(cells.skip(i as int), x as nat, col as nat),
    {
        let (filter, width): (StatusFilter, usize) = items[i];
        assert(cells.skip(i as int).drop_first() == cells.skip(i + 1));
        assert(cells.skip(i as int)[0] == cells[i as int]);
        if at >= x && at < x + width {
            return Some(filter);
        }
        x = x + width + 2;
    }
    None
}

impl AppState {
    /// The state in which the agents are listed anew when a filter was clicked.
    pub open spec fn with_filter(self, status_filter: StatusFilter, now: u64) -> AppState {
        AppState {
            global: GlobalState { status_filter, ..self.global },
            timers: RefreshTimers { last_filter_click: now, ..self.timers },
            ..self
        }
    }

    /// Whether this state and these effects follow from `before` by a click on
    /// the filter bar. A click too soon after the last one is ignored. Any other
    /// one is noted, and one on a filter selects it, writes it to tmux and lists
    /// the agents anew.
    pub open spec fn filter_clicked(
        self,
        before: AppState,
        effects: Seq<EffectView>,
        col: u16,
        counts: StatusCounts,
        now: u64,
    ) -> bool {
        if clock::passed(now, before.timers.last_filter_click) < FILTER_CLICK_DEBOUNCE {
            self == before && effects.len() == 0
        } else {
            match counts.filter_at(col) {
                Some(filter) => {
                    &&& self.relisted(before.with_filter(filter, now))
                    &&& effects == seq![EffectView::SaveFilter] + before.relisting_effects()
                },
                None => {
                    &&& self == AppState {
                        timers: RefreshTimers { last_filter_click: now, ..before.timers },
                        ..before
                    }
                    &&& effects.len() == 0
                },
            }
        }
    }

    /// Takes a click on the filter bar, which shows these counts.
    pub fn handle_filter_click(&mut self, col: u16, counts: StatusCounts, now: u64) -> (list: Vec<
        Effect,
    >)
        ensures
            final(self).filter_clicked(*old(self), effects(list@), col, counts, now),
    {
        if clock::elapsed(now, self.timers.last_filter_click) < FILTER_CLICK_DEBOUNCE {
            return no_effects();
        }
        self.timers.last_filter_click = now;
        match find_filter(counts, col) {
            Some(filter) => {
                self.global.status_filter = filter;
                let mut list = one_effect(Effect::SaveFilter);
                let mut relisting = self.rebuild_row_targets();
                let ghost first = list@;
                let ghost rest = relisting@;
                list.append(&mut relisting);
                assert(effects(list@) =~= effects(first) + effects(rest));
                list
            },
            None => no_effects(),
        }
    }

    /// What a click on the secondary header asks for.
    pub open spec fn header_effects(self, col: u16) -> Seq<EffectView> {
        if self.notices_button_col == Some(col) {
            seq![EffectView::ToggleNoticesPopup]
        } else if self.layout.repo_button_col matches Some(button) && col >= button {
            seq![EffectView::ToggleRepoPopup]
        } else {
            Seq::empty()
        }
    }

    /// Takes a click on the secondary header, at whose right end the repository
    /// button is.
    pub fn handle_secondary_header_click(&self, col: u16) -> (list: Vec<Effect>)
        ensures
            effects(list@) == self.header_effects(col),
    {
        if let Some(button) = self.notices_button_col {
            if col == button {
                return one_effect(Effect::ToggleNoticesPopup);
            }
        }
        if let Some(button) = self.layout.repo_button_col {
            if col >= button {
                return one_effect(Effect::ToggleRepoPopup);
            }
        }
        no_effects()
    }
}

// ---- clicks ----

impl Popup {
    /// Whether a click lands inside the popup as it was last drawn.
    pub open spec fn takes(self, row: u16, col: u16) -> bool {
        self.area matches Some(area) && area.covers(col, row)
    }

    /// Whether a click lands inside the popup as it was last drawn.
    fn hit(&self, row: u16, col: u16) -> (inside: bool)
        ensures
            inside == self.takes(row, col),
    {
        match self.area {
            Some(area) => geometry::point_in_rect(row, col, area),
            None => false,
        }
    }
}

/// The first of several rectangles in which a cell lies.
pub open spec fn first_covering(rects: Seq<Rect>, row: u16, col: u16) -> Option<int>
    decreases rects.len(),
{
    if rects.len() == 0 {
        None
    } else if first_covering(rects.drop_last(), row, col) is Some {
        first_covering(rects.drop_last(), row, col)
    } else if rects.last().covers(col, row) {
        Some(rects.len() - 1)
    } else {
        None
    }
}

/// Where the spawn buttons are.
pub open spec fn spawn_rects(targets: Seq<RepoSpawnTarget>) -> Seq<Rect> {
    Seq::new(targets.len(), |i: int| targets[i].rect)
}

/// Where the remove marks are.
pub open spec fn remove_rects(targets: Seq<SpawnRemoveTarget>) -> Seq<Rect> {
    Seq::new(targets.len(), |i: int| targets[i].rect)
}

/// If no rectangle before one covers a cell and that one does, it is the first.
proof fn lemma_first_covering(rects: Seq<Rect>, i: int, row: u16, col: u16)
    requires
        0 <= i < rects.len(),
        first_covering(rects.take(i), row, col) is None,
        rects[i].covers(col, row),
    ensures
        first_covering(rects, row, col) == Some(i),
    decreases rects.len(),
{
    if i < rects.len() - 1 {
        assert(rects.drop_last().take(i) == rects.take(i));
        lemma_first_covering(rects.drop_last(), i, row, col);
    } else {
        assert(rects.drop_last() == rects.take(i));
    }
}

/// Finds the spawn button under the pointer.
fn spawn_target_at(targets: &Vec<RepoSpawnTarget>, row: u16, col: u16) -> (found: Option<usize>)
    ensures
        match found {
            Some(i) => i < targets@.len() && first_covering(spawn_rects(targets@), row, col)
                == Some(i as int),
            None => first_covering(spawn_rects(targets@), row, col) is None,
        },
{
    let ghost rects = spawn_rects(targets@);
    for i in 0..targets.len()
        invariant
            rects == spawn_rects(targets@),
            first_covering(rects.take(i as int), row, col) is None,
    {
        if geometry::point_in_rect(row, col, targets[i].rect) {
            proof {
                lemma_first_covering(rects, i as int, row, col);
            }
            return Some(i);
        }
        assert(rects.take(i + 1).drop_last() == rects.take(i as int));
    }
    assert(rects.take(rects.len() as int) == rects);
    None
}

/// Finds the remove mark under the pointer.
fn remove_target_at(targets: &Vec<SpawnRemoveTarget>, row: u16, col: u16) -> (found: Option<usize>)
    ensures
        match found {
            Some(i) => i < targets@.len() && first_covering(remove_rects(targets@), row, col)
                == Some(i as int),
            None => first_covering(remove_rects(targets@), row, col) is None,
        },
{
    let ghost rects = remove_rects(targets@);
    for i in 0..targets.len()
        invariant
            rects == remove_rects(targets@),
            first_covering(rects.take(i as int), row, col) is None,
    {
        if geometry::point_in_rect(row, col, targets[i].rect) {
            proof {
                lemma_first_covering(rects, i as int, row, col);
            }
            return Some(i);
        }
        assert(rects.take(i + 1).drop_last() == rects.take(i as int));
    }
    assert(rects.take(rects.len() as int) == rects);
    None
}

impl AppState {
    /// Whether a popup is open.
    pub open spec fn has_popup(self) -> bool {
        self.popups.notices.open || self.popups.repo.open || self.popups.spawn_input.open
            || self.popups.remove_confirm.open
    }

    /// What a click asks for while a popup is open: inside the popup it goes to
    /// its contents, and anywhere else it closes the popup.
    pub open spec fn popup_effects(self, row: u16, col: u16) -> Seq<EffectView> {
        let popups = self.popups;
        if popups.notices.open {
            if popups.notices.takes(row, col) {
                seq![EffectView::CopyNoticesAt { row, col }]
            } else {
                seq![EffectView::CloseNoticesPopup]
            }
        } else if popups.repo.open {
            if popups.repo.takes(row, col) {
                let index = row - popups.repo.area->0.y - 1;
                if 0 <= index < popups.repo_count {
                    seq![EffectView::ConfirmRepo { index: index as nat }]
                } else {
                    Seq::empty()
                }
            } else {
                seq![EffectView::CloseRepoPopup]
            }
        } else if popups.spawn_input.open {
            if popups.spawn_input.takes(row, col) {
                Seq::empty()
            } else {
                seq![EffectView::CloseSpawnInput]
            }
        } else if popups.remove_confirm.takes(row, col) {
            Seq::empty()
        } else {
            seq![EffectView::CloseRemoveConfirm]
        }
    }

    /// The agent row at a row of the screen. Two header rows stand above the
    /// list, which is scrolled.
    pub open spec fn agent_row_at(self, row: u16) -> Option<usize> {
        let line = row - 2 + self.panes_offset;
        if 2 <= row && line < self.layout.line_to_row@.len() {
            self.layout.line_to_row@[line]
        } else {
            None
        }
    }

    /// Whether this state and these effects follow from `before` by a click in
    /// the agent list. The spawn buttons come first, then the remove marks, and
    /// then the row of an agent, which is selected and gone to.
    pub open spec fn list_clicked(
        self,
        before: AppState,
        effects: Seq<EffectView>,
        row: u16,
        col: u16,
    ) -> bool {
        let spawns = before.layout.repo_spawn_targets@;
        let removes = before.layout.spawn_remove_targets@;
        match first_covering(spawn_rects(spawns), row, col) {
            Some(i) => self == before && effects == seq![
                EffectView::OpenSpawnInput {
                    repo_name: spawns[i].repo_name@,
                    repo_root: spawns[i].repo_root@,
                    anchor_y: spawns[i].rect.y,
                },
            ],
            None => match first_covering(remove_rects(removes), row, col) {
                Some(i) => self == before && effects == seq![
                    EffectView::OpenRemoveConfirm { pane_id: removes[i].pane_id@ },
                ],
                None => match before.agent_row_at(row) {
                    Some(agent_row) => {
                        &&& self == AppState {
                            global: GlobalState { selected_pane_row: agent_row, ..before.global },
                            ..before
                        }
                        &&& effects == seq![EffectView::ActivateSelectedPane]
                    },
                    None => self == before && effects.len() == 0,
                },
            },
        }
    }

    /// Whether this state and these effects follow from `before` by a click. An
    /// open popup gets it; otherwise the topmost row is the filter bar, the next
    /// one the secondary header, and the rest the agent list.
    pub open spec fn clicked(
        self,
        before: AppState,
        effects: Seq<EffectView>,
        row: u16,
        col: u16,
        counts: StatusCounts,
        now: u64,
    ) -> bool {
        if before.has_popup() {
            self == before && effects == before.popup_effects(row, col)
        } else if row == 0 {
            self.filter_clicked(before, effects, col, counts, now)
        } else if row == 1 {
            self == before && effects == before.header_effects(col)
        } else {
            self.list_clicked(before, effects, row, col)
        }
    }

    /// Takes a click while a popup is open.
    fn handle_popup_click(&self, row: u16, col: u16) -> (list: Vec<Effect>)
        requires
            self.has_popup(),
        ensures
            effects(list@) == self.popup_effects(row, col),
    {
        if self.popups.notices.open {
            if self.popups.notices.hit(row, col) {
                return one_effect(Effect::CopyNoticesAt { row, col });
            }
            return one_effect(Effect::CloseNoticesPopup);
        }
        if self.popups.repo.open {
            if let Some(area) = self.popups.repo.area {
                if geometry::point_in_rect(row, col, area) {
                    // The first row of the popup is its title.
                    if row > area.y {
                        let index: usize = (row - area.y - 1) as usize;
                        if index < self.popups.repo_count {
                            return one_effect(Effect::ConfirmRepo { index });
                        }
                    }
                    return no_effects();
                }
            }
            return one_effect(Effect::CloseRepoPopup);
        }
        if self.popups.spawn_input.open {
            if self.popups.spawn_input.hit(row, col) {
                return no_effects();
            }
            return one_effect(Effect::CloseSpawnInput);
        }
        if self.popups.remove_confirm.hit(row, col) {
            return no_effects();
        }
        one_effect(Effect::CloseRemoveConfirm)
    }

    /// Finds the agent row at a row of the list.
    fn find_agent_row(&self, row: u16) -> (found: Option<usize>)
        requires
            row >= 2,
        ensures
            found == self.agent_row_at(row),
    {
        let count: usize = self.layout.line_to_row.len();
        match ((row - 2) as usize).checked_add(self.panes_offset) {
            Some(line) => {
                if line < count {
                    self.layout.line_to_row[line]
                } else {
                    None
                }
            },
            None => None,
        }
    }

    /// Takes a click. An open popup gets it; otherwise the topmost row is the
    /// filter bar, the next one the secondary header, and the rest the agent
    /// list.
    pub fn handle_mouse_click(
        &mut self,
        row: u16,
        col: u16,
        counts: StatusCounts,
        now: u64,
    ) -> (list: Vec<Effect>)
        ensures
            final(self).clicked(*old(self), effects(list@), row, col, counts, now),
    {
        if self.popups.notices.open || self.popups.repo.open || self.popups.spawn_input.open
            || self.popups.remove_confirm.open {
            return self.handle_popup_click(row, col);
        }
        if row == 0 {
            return self.handle_filter_click(col, counts, now);
        }
        if row == 1 {
            return self.handle_secondary_header_click(col);
        }
        if let Some(i) = spawn_target_at(&self.layout.repo_spawn_targets, row, col) {
            let target = &self.layout.repo_spawn_targets[i];
            return one_effect(
                Effect::OpenSpawnInput {
                    repo_name: target.repo_name.clone(),
                    repo_root: target.repo_root.clone(),
                    anchor_y: target.rect.y,
                },
            );
        }
        if let Some(i) = remove_target_at(&self.layout.spawn_remove_targets, row, col) {
            return one_effect(
                Effect::OpenRemoveConfirm {
                    pane_id: self.layout.spawn_remove_targets[i].pane_id.clone(),
                },
            );
        }
        match self.find_agent_row(row) {
            Some(agent_row) => {
                self.global.selected_pane_row = agent_row;
                one_effect(Effect::ActivateSelectedPane)
            },
            None => no_effects(),
        }
    }
}

// ---- laws ----

/// A window with room for both shows the bottom panel, whatever the user chose
/// before; a panel of no height is never shown.
pub proof fn roomy_windows_show_the_panel(state: AppState, height: u16)
    ensures
        state.bottom_panel_height == 0 ==> state.visibility(height) == (false, false),
        state.bottom_panel_height > 0 && height >= state.bottom_panel_height
            + AppState::COMPACT_LIST_MIN ==> state.visibility(height) == (false, true),
{
}

/// In a compact window a toggle flips the panel and a second one flips it back;
/// in any other window a toggle changes nothing.
pub proof fn toggling_twice_restores_the_panel(state: AppState)
    ensures
        ({
            let height = state.last_viewport_height;
            let (compact, shown) = state.visibility(height);
            &&& compact ==> state.toggled().visibility(height) == (true, !shown)
            &&& compact ==> state.toggled().toggled().visibility(height) == (true, shown)
            &&& !compact ==> state.toggled() == state
        }),
{
}

/// A window that becomes compact hides the panel and one that stops being so
/// shows it, whatever the user chose before. The first frame keeps the choice,
/// and so does a frame like the one before it.
pub proof fn crossing_the_threshold_forgets_the_choice(
    state: AppState,
    compact: bool,
    height: u16,
)
    requires
        state.bottom_panel_height > 0,
        state.visibility(height).0 == compact,
    ensures
        state.last_compact == Some(!compact) ==> state.synced(compact).visibility(height) == (
            compact,
            !compact,
        ),
        state.last_compact != Some(!compact) ==> state.synced(compact).visibility(height)
            == state.visibility(height),
        state.synced(compact).synced(compact) == state.synced(compact),
{
}

/// The listed panes are those whose group and status the filters admit.
pub proof fn listed_panes_pass_both_filters(
    groups: Seq<RepoGroup>,
    repo: Option<Seq<char>>,
    status: StatusFilter,
    id: Seq<char>,
)
    ensures
        listed(groups, repo, status).contains(id) <==> exists|g: int, p: int|
            0 <= g < groups.len() && 0 <= p < groups[g].panes@.len() && filter::lists_repo(
                repo,
                groups[g].name@,
            ) && status.admits((#[trigger] groups[g].panes@[p]).status)
                && groups[g].panes@[p].pane_id@ == id,
    decreases groups.len(),
{
    if groups.len() > 0 {
        let head = groups.drop_last();
        let last = groups.last();
        let rows = listed(groups, repo, status);
        let before = listed(head, repo, status);
        listed_panes_pass_both_filters(head, repo, status, id);
        lemma_listed_in_group(last.panes@, status, id);
        if rows.contains(id) {
            let i = choose|i: int| 0 <= i < rows.len() && rows[i] == id;
            if i < before.len() {
                assert(before.contains(before[i]));
                let (g, p) = choose|g: int, p: int|
                    0 <= g < head.len() && 0 <= p < head[g].panes@.len() && filter::lists_repo(
                        repo,
                        head[g].name@,
                    ) && status.admits((#[trigger] head[g].panes@[p]).status)
                        && head[g].panes@[p].pane_id@ == id;
                assert(groups[g].panes@[p].pane_id@ == id);
            } else {
                let own = listed_panes(last.panes@, status);
                assert(own.contains(own[i - before.len()]));
                let p = choose|p: int|
                    0 <= p < last.panes@.len() && status.admits((#[trigger] last.panes@[p]).status)
                        && last.panes@[p].pane_id@ == id;
                assert(groups[groups.len() - 1].panes@[p].pane_id@ == id);
            }
        }
        if exists|g: int, p: int|
            0 <= g < groups.len() && 0 <= p < groups[g].panes@.len() && filter::lists_repo(
                repo,
                groups[g].name@,
            ) && status.admits((#[trigger] groups[g].panes@[p]).status)
                && groups[g].panes@[p].pane_id@ == id {
            let (g, p) = choose|g: int, p: int|
                0 <= g < groups.len() && 0 <= p < groups[g].panes@.len() && filter::lists_repo(
                    repo,
                    groups[g].name@,
                ) && status.admits((#[trigger] groups[g].panes@[p]).status)
                    && groups[g].panes@[p].pane_id@ == id;
            if g < head.len() {
                assert(head[g].panes@[p].pane_id@ == id);
                assert(before.contains(id));
                let i = choose|i: int| 0 <= i < before.len() && before[i] == id;
                assert(rows[i] == id);
            } else {
                let own = listed_panes(last.panes@, status);
                assert(own.contains(id));
                let i = choose|i: int| 0 <= i < own.len() && own[i] == id;
                assert(rows[before.len() + i] == id);
            }
        }
    }
}

proof fn lemma_listed_in_group(panes: Seq<AgentPane>, status: StatusFilter, id: Seq<char>)
    ensures
        listed_panes(panes, status).contains(id) <==> exists|p: int|
            0 <= p < panes.len() && status.admits((#[trigger] panes[p]).status)
                && panes[p].pane_id@ == id,
    decreases panes.len(),
{
    if panes.len() > 0 {
        let head = panes.drop_last();
        let rows = listed_panes(panes, status);
        let before = listed_panes(head, status);
        lemma_listed_in_group(head, status, id);
        if rows.contains(id) {
            let i = choose|i: int| 0 <= i < rows.len() && rows[i] == id;
            if i < before.len() {
                assert(before.contains(before[i]));
                let p = choose|p: int|
                    0 <= p < head.len() && status.admits((#[trigger] head[p]).status)
                        && head[p].pane_id@ == id;
                assert(panes[p].pane_id@ == id);
            } else {
                assert(panes[panes.len() - 1].pane_id@ == id);
            }
        }
        if exists|p: int|
            0 <= p < panes.len() && status.admits((#[trigger] panes[p]).status)
                && panes[p].pane_id@ == id {
            let p = choose|p: int|
                0 <= p < panes.len() && status.admits((#[trigger] panes[p]).status)
                    && panes[p].pane_id@ == id;
            if p < head.len() {
                assert(head[p].pane_id@ == id);
                let i = choose|i: int| 0 <= i < before.len() && before[i] == id;
                assert(rows[i] == id);
            } else {
                assert(rows[rows.len() - 1] == id);
            }
        }
    }
}

/// After the agents are listed anew the cursor is on a row, unless there is
/// none, and the repository filter names a repository that exists. Listing them
/// once more changes nothing.
pub proof fn relisting_settles(before: AppState, once: AppState, twice: AppState)
    requires
        once.relisted(before),
        twice.relisted(once),
    ensures
        once.layout.pane_row_targets@.len() > 0 ==> once.global.selected_pane_row
            < once.layout.pane_row_targets@.len(),
        !is_stale(once.repo_groups@, once.global.repo_filter@),
        once.relisting_effects() == Seq::<EffectView>::empty(),
        row_panes(twice.layout.pane_row_targets@) == row_panes(once.layout.pane_row_targets@),
        twice.global == once.global,
{
    let rows = row_panes(once.layout.pane_row_targets@);
    assert(rows.len() == once.layout.pane_row_targets@.len());
}

/// A click on any column of a filter's cell selects that filter, and a click on
/// the blanks before the first cell or after a cell selects none.
pub proof fn each_cell_selects_its_filter(counts: StatusCounts, i: int, col: u16)
    requires
        0 <= i < 6,
    ensures
        ({
            let cells = counts.cells();
            let start = cell_start(cells, 1, i);
            &&& start <= col < start + cells[i].1 ==> counts.filter_at(col) == Some(cells[i].0)
            &&& start + cells[i].1 <= col < start + cells[i].1 + 2 ==> counts.filter_at(
                col,
            ) is None
            &&& col == 0 ==> counts.filter_at(col) is None
        }),
{
    lemma_cell_at(counts.cells(), 1, i, col as nat);
    lemma_nothing_before(counts.cells(), 1, col as nat);
}

proof fn lemma_cell_at(cells: Seq<(StatusFilter, nat)>, x: nat, i: int, col: nat)
    requires
        0 <= i < cells.len(),
    ensures
        ({
            let start = cell_start(cells, x, i);
            &&& x <= start
            &&& i > 0 ==> start >= x + cells[0].1 + 2
            &&& start <= col < start + cells[i].1 ==> cell_at(cells, x, col) == Some(cells[i].0)
            &&& start + cells[i].1 <= col < start + cells[i].1 + 2 ==> cell_at(
                cells,
                x,
                col,
            ) is None
        }),
    decreases cells.len(),
{
    let rest = cells.drop_first();
    let next = x + cells[0].1 + 2;
    if i == 0 {
        lemma_nothing_before(rest, next, col);
    } else {
        lemma_cell_at(rest, next, i - 1, col);
        lemma_cell_start_shifts(cells, x, i);
    }
}

proof fn lemma_cell_start_shifts(cells: Seq<(StatusFilter, nat)>, x: nat, i: int)
    requires
        0 < i < cells.len(),
    ensures
        cell_start(cells, x, i) == cell_start(cells.drop_first(), x + cells[0].1 + 2, i - 1),
    decreases i,
{
    if i > 1 {
        lemma_cell_start_shifts(cells, x, i - 1);
        assert(cells.drop_first()[i - 2] == cells[i - 1]);
    } else {
        assert(cell_start(cells, x, 0) == x);
    }
}

proof fn lemma_nothing_before(cells: Seq<(StatusFilter, nat)>, x: nat, col: nat)
    ensures
        col < x ==> cell_at(cells, x, col) is None,
    decreases cells.len(),
{
    if cells.len() > 0 {
        lemma_nothing_before(cells.drop_first(), x + cells[0].1 + 2, col);
    }
}

/// A window with less than ten rows beside the bottom panel is compact, and shows
/// the panel exactly where the user has asked for it.
pub proof fn compact_windows_hide_the_panel(state: AppState, height: u16)
    requires
        state.bottom_panel_height > 0,
        state.bottom_panel_height + 10 <= u16::MAX,
    ensures
        state.visibility(height).0 <==> height < state.bottom_panel_height + 10,
        height < state.bottom_panel_height + 10 ==> (state.visibility(height).1
            <==> state.bottom_override == Some(true)),
{
}

/// The wheel scrolls the bottom panel from its first row on and the list above it,
/// by as much as it was turned.
pub proof fn the_wheel_scrolls_what_is_under_it(row: u16, above: u16, bottom: u16, delta: int)
    requires
        above + bottom <= u16::MAX,
    ensures
        wheel_effect(row, (above + bottom) as u16, bottom, delta) == (if row < above {
            EffectView::ScrollPanes { delta }
        } else {
            EffectView::ScrollBottom { delta }
        }),
{
}

/// Listing the agents anew keeps the cursor where its row still exists, and moves
/// it to the last row where it does not. A repository filter stays where its
/// repository has a group, and is dropped and written to tmux where it has none.
/// Nothing else changes.
pub proof fn relisting_keeps_what_it_can(before: AppState, after: AppState)
    requires
        after.relisted(before),
    ensures
        ({
            let rows = after.layout.pane_row_targets@.len();
            let at = before.global.selected_pane_row;
            &&& at < rows ==> after.global.selected_pane_row == at
            &&& rows == 0 ==> after.global.selected_pane_row == at
            &&& 0 < rows <= at ==> after.global.selected_pane_row == rows - 1
        }),
        before.global.repo_filter@ is None ==> after.global.repo_filter@ is None
            && before.relisting_effects().len() == 0,
        before.global.repo_filter@ matches Some(name) ==> {
            let known = exists|i: int|
                0 <= i < before.repo_groups@.len() && (#[trigger] before.repo_groups@[i]).name@
                    == name;
            &&& known ==> after.global.repo_filter == before.global.repo_filter
            &&& known ==> before.relisting_effects().len() == 0
            &&& !known ==> after.global.repo_filter@ is None
            &&& !known ==> before.relisting_effects() == seq![EffectView::SaveRepoFilter]
        },
        after.global.status_filter == before.global.status_filter,
        after.global.last_saved_filter == before.global.last_saved_filter,
        after.global.last_saved_repo_filter == before.global.last_saved_repo_filter,
        after.global.pending_broadcast_since == before.global.pending_broadcast_since,
        after.repo_groups == before.repo_groups,
        after.timers == before.timers,
        after.popups == before.popups,
        after.focus == before.focus,
        after.layout.line_to_row == before.layout.line_to_row,
{
    assert(row_panes(after.layout.pane_row_targets@).len()
        == after.layout.pane_row_targets@.len());
}

/// The rows are listed in the order of the groups and, within a group, of its
/// panes.
pub proof fn rows_are_listed_in_order(
    groups: Seq<RepoGroup>,
    group: RepoGroup,
    panes: Seq<AgentPane>,
    pane: AgentPane,
    repo: Option<Seq<char>>,
    status: StatusFilter,
)
    ensures
        listed(groups.push(group), repo, status) == (if repo is None || repo == Some(group.name@) {
            listed(groups, repo, status) + listed_panes(group.panes@, status)
        } else {
            listed(groups, repo, status)
        }),
        listed(Seq::empty(), repo, status).len() == 0,
        listed_panes(panes.push(pane), status) == (if status.admits(pane.status) {
            listed_panes(panes, status).push(pane.pane_id@)
        } else {
            listed_panes(panes, status)
        }),
        listed_panes(Seq::empty(), status).len() == 0,
{
    assert(groups.push(group).drop_last() =~= groups);
    assert(panes.push(pane).drop_last() =~= panes);
}

/// The filter bar starts with a blank and shows the filters in this order, each as
/// an icon and its count, two blanks apart. A column selects the filter whose cell
/// it is in, and a column past the last cell selects none.
pub proof fn the_bar_shows_the_filters_in_order(counts: StatusCounts, col: u16)
    ensures
        ({
            let running = 4 + numbers::decimal(counts.all as nat).len();
            let background = running + 3 + numbers::decimal(counts.running as nat).len();
            let waiting = background + 3 + numbers::decimal(counts.background as nat).len();
            let idle = waiting + 3 + numbers::decimal(counts.waiting as nat).len();
            let error = idle + 3 + numbers::decimal(counts.idle as nat).len();
            let end = error + 3 + numbers::decimal(counts.error as nat).len();
            let found = counts.filter_at(col);
            &&& found == Some(StatusFilter::All) <==> 1 <= col < running - 2
            &&& found == Some(StatusFilter::Running) <==> running <= col < background - 2
            &&& found == Some(StatusFilter::Background) <==> background <= col < waiting - 2
            &&& found == Some(StatusFilter::Waiting) <==> waiting <= col < idle - 2
            &&& found == Some(StatusFilter::Idle) <==> idle <= col < error - 2
            &&& found == Some(StatusFilter::Error) <==> error <= col < end - 2
        }),
{
    let cells = counts.cells();
    let c1 = cells.drop_first();
    let c2 = c1.drop_first();
    let c3 = c2.drop_first();
    let c4 = c3.drop_first();
    let c5 = c4.drop_first();
    reveal_with_fuel(cell_at, 7);
    assert(c1[0] == cells[1] && c2[0] == cells[2] && c3[0] == cells[3] && c4[0] == cells[4]
        && c5[0] == cells[5]);
    assert(c5.drop_first().len() == 0);
}

/// A click on the filter bar within 150 milliseconds of the last one does nothing.
/// A later one starts that time anew; on a filter it selects the filter, writes it,
/// and lists the agents under it; beside the filters it does nothing more.
pub proof fn filter_clicks_select_and_save(
    before: AppState,
    after: AppState,
    list: Seq<EffectView>,
    col: u16,
    counts: StatusCounts,
    now: u64,
)
    requires
        after.filter_clicked(before, list, col, counts, now),
        before.timers.last_filter_click <= now,
    ensures
        now - before.timers.last_filter_click < 150_000_000 ==> after == before && list.len() == 0,
        now - before.timers.last_filter_click >= 150_000_000 ==> {
            &&& after.timers.last_filter_click == now
            &&& counts.filter_at(col) is None ==> after.global == before.global && after.layout
                == before.layout && list.len() == 0
            &&& counts.filter_at(col) matches Some(filter) ==> {
                &&& after.global.status_filter == filter
                &&& list.len() >= 1 && list[0] == EffectView::SaveFilter
                &&& row_panes(after.layout.pane_row_targets@) == listed(
                    before.repo_groups@,
                    after.global.repo_filter@,
                    filter,
                )
            }
        },
{
}

/// In the secondary header the notices button is one column, and the repository
/// button takes the columns from its own on; other columns do nothing, and so do
/// buttons that are not shown.
pub proof fn header_buttons_are_where_they_show(state: AppState, col: u16, button: u16)
    ensures
        state.notices_button_col == Some(col) ==> state.header_effects(col) == seq![
            EffectView::ToggleNoticesPopup,
        ],
        state.notices_button_col != Some(col) && state.layout.repo_button_col == Some(button)
            && col >= button ==> state.header_effects(col) == seq![EffectView::ToggleRepoPopup],
        state.notices_button_col != Some(col) && state.layout.repo_button_col == Some(button)
            && col < button ==> state.header_effects(col).len() == 0,
        state.notices_button_col != Some(col) && state.layout.repo_button_col is None
            ==> state.header_effects(col).len() == 0,
{
}

/// An open popup takes every click: beside it the click closes it, and inside it
/// goes to its contents. In the notices popup it copies what is there. In the
/// repository popup it confirms the entry in its row, the first of which stands
/// below the title, and does nothing on the title and below the last entry. The
/// two dialogs ignore it.
pub proof fn popups_take_the_click(state: AppState, row: u16, col: u16, area: Rect)
    ensures
        ({
            let popups = state.popups;
            let list = state.popup_effects(row, col);
            let inside = area.covers(col, row);
            &&& popups.notices.open && popups.notices.area == Some(area) ==> list == (if inside {
                seq![EffectView::CopyNoticesAt { row, col }]
            } else {
                seq![EffectView::CloseNoticesPopup]
            })
            &&& popups.notices.open && popups.notices.area is None ==> list == seq![
                EffectView::CloseNoticesPopup,
            ]
            &&& !popups.notices.open && popups.repo.open && popups.repo.area == Some(area) ==> {
                &&& !inside ==> list == seq![EffectView::CloseRepoPopup]
                &&& inside && row == area.y ==> list.len() == 0
                &&& inside && area.y < row <= area.y + popups.repo_count ==> list == seq![
                    EffectView::ConfirmRepo { index: (row - area.y - 1) as nat },
                ]
                &&& inside && row > area.y + popups.repo_count ==> list.len() == 0
            }
            &&& !popups.notices.open && !popups.repo.open && popups.spawn_input.open
                && popups.spawn_input.area == Some(area) ==> list == (if inside {
                Seq::empty()
            } else {
                seq![EffectView::CloseSpawnInput]
            })
            &&& !popups.notices.open && !popups.repo.open && !popups.spawn_input.open
                && popups.remove_confirm.area == Some(area) ==> list == (if inside {
                Seq::empty()
            } else {
                seq![EffectView::CloseRemoveConfirm]
            })
        }),
{
}

/// The first rectangle that covers a cell is found, and none where no rectangle
/// does.
pub proof fn the_first_covering_rectangle_is_found(rects: Seq<Rect>, row: u16, col: u16)
    ensures
        match first_covering(rects, row, col) {
            Some(i) => 0 <= i < rects.len() && rects[i].covers(col, row) && (forall|k: int|
                0 <= k < i ==> !(#[trigger] rects[k]).covers(col, row)),
            None => forall|k: int|
                0 <= k < rects.len() ==> !(#[trigger] rects[k]).covers(col, row),
        },
    decreases rects.len(),
{
    if rects.len() > 0 {
        let head = rects.drop_last();
        the_first_covering_rectangle_is_found(head, row, col);
        assert forall|k: int| 0 <= k < head.len() implies head[k] == #[trigger] rects[k] by {
        }
    }
}

/// The line of an agent is found two rows below the top, and as many lines further
/// as the list is scrolled; there is none in the header rows and below the list.
pub proof fn agent_rows_follow_the_scroll(state: AppState, line: nat, row: u16)
    ensures
        row >= 2 && line == row - 2 + state.panes_offset ==> state.agent_row_at(row) == (if line
            < state.layout.line_to_row@.len() {
            state.layout.line_to_row@[line as int]
        } else {
            None
        }),
        row < 2 ==> state.agent_row_at(row) is None,
{
}

/// A click in the agent list opens the spawn dialog of the button under it, below
/// that button; or else asks about the pane whose mark is under it; or else selects
/// the agent in its row and goes there; or else does nothing.
pub proof fn list_clicks_go_to_what_is_under_them(
    before: AppState,
    after: AppState,
    list: Seq<EffectView>,
    row: u16,
    col: u16,
    i: int,
)
    requires
        after.list_clicked(before, list, row, col),
    ensures
        ({
            let spawns = before.layout.repo_spawn_targets@;
            let removes = before.layout.spawn_remove_targets@;
            let on_spawn = exists|k: int|
                0 <= k < spawns.len() && (#[trigger] spawns[k]).rect.covers(col, row);
            let on_mark = exists|k: int|
                0 <= k < removes.len() && (#[trigger] removes[k]).rect.covers(col, row);
            &&& 0 <= i < spawns.len() && spawns[i].rect.covers(col, row) && (forall|k: int|
                0 <= k < i ==> !(#[trigger] spawns[k]).rect.covers(col, row)) ==> list == seq![
                EffectView::OpenSpawnInput {
                    repo_name: spawns[i].repo_name@,
                    repo_root: spawns[i].repo_root@,
                    anchor_y: spawns[i].rect.y,
                },
            ]
            &&& !on_spawn && 0 <= i < removes.len() && removes[i].rect.covers(col, row) && (forall|
                k: int,
            |
                0 <= k < i ==> !(#[trigger] removes[k]).rect.covers(col, row)) ==> list == seq![
                EffectView::OpenRemoveConfirm { pane_id: removes[i].pane_id@ },
            ]
            &&& !on_spawn && !on_mark ==> match before.agent_row_at(row) {
                Some(at) => list == seq![EffectView::ActivateSelectedPane]
                    && after.global.selected_pane_row == at,
                None => list.len() == 0 && after == before,
            }
            &&& on_spawn || on_mark ==> after == before
            &&& after.global.status_filter == before.global.status_filter
            &&& after.global.repo_filter == before.global.repo_filter
            &&& after.layout == before.layout
            &&& after.timers == before.timers
        }),
{
    let spawns = before.layout.repo_spawn_targets@;
    let removes = before.layout.spawn_remove_targets@;
    let a = spawn_rects(spawns);
    let b = remove_rects(removes);
    the_first_covering_rectangle_is_found(a, row, col);
    the_first_covering_rectangle_is_found(b, row, col);
    assert forall|k: int| 0 <= k < spawns.len() implies a[k] == (#[trigger] spawns[k]).rect by {
    }
    assert forall|k: int| 0 <= k < removes.len() implies b[k] == (#[trigger] removes[k]).rect by {
    }
    if let Some(k) = first_covering(a, row, col) {
        assert(spawns[k].rect.covers(col, row));
        if 0 <= i < spawns.len() && spawns[i].rect.covers(col, row) && k < i {
            assert(spawns[k].rect == a[k]);
        }
        if 0 <= i < spawns.len() && i < k {
            assert(a[i] == spawns[i].rect);
        }
    } else {
        assert forall|k: int| 0 <= k < spawns.len() implies !(#[trigger] spawns[k]).rect.covers(
            col,
            row,
        ) by {
            assert(!a[k].covers(col, row));
        }
        if let Some(k) = first_covering(b, row, col) {
            assert(removes[k].rect.covers(col, row));
            if 0 <= i < removes.len() && removes[i].rect.covers(col, row) && k < i {
                assert(removes[k].rect == b[k]);
            }
            if 0 <= i < removes.len() && i < k {
                assert(b[i] == removes[i].rect);
            }
        } else {
            assert forall|k: int| 0 <= k < removes.len() implies !(
            #[trigger] removes[k]).rect.covers(col, row) by {
                assert(!b[k].covers(col, row));
            }
        }
    }
}

/// A click on the handle shows or hides the panel of a compact window, and a click
/// beside it is not taken.
pub proof fn the_handle_toggles_the_panel(state: AppState, handle: Rect, row: u16, col: u16)
    ensures
        state.layout.bottom_toggle_target == Some(handle) ==> (state.on_handle(row, col)
            <==> handle.covers(col, row)),
        state.layout.bottom_toggle_target is None ==> !state.on_handle(row, col),
        state.toggled().bottom_override == (if state.visibility(state.last_viewport_height).0 {
            Some(!state.visibility(state.last_viewport_height).1)
        } else {
            state.bottom_override
        }),
        state.toggled().layout == state.layout,
        state.toggled().global == state.global,
{
}

/// A click goes to an open popup, whichever it is and wherever the click lands,
/// and leaves the sidebar as it is. Without a popup the first row is the filter
/// bar, the second the header, and every other one the list.
pub proof fn clicks_go_to_popups_first(
    before: AppState,
    after: AppState,
    list: Seq<EffectView>,
    row: u16,
    col: u16,
    counts: StatusCounts,
    now: u64,
)
    requires
        after.clicked(before, list, row, col, counts, now),
    ensures
        before.popups.notices.open || before.popups.repo.open || before.popups.spawn_input.open
            || before.popups.remove_confirm.open ==> after == before && list
            == before.popup_effects(row, col),
        !before.has_popup() && row == 0 ==> after.filter_clicked(before, list, col, counts, now),
        !before.has_popup() && row == 1 ==> after == before && list == before.header_effects(col),
        !before.has_popup() && row >= 2 ==> after.list_clicked(before, list, row, col),
        before.has_popup() ==> before.popups.notices.open || before.popups.repo.open
            || before.popups.spawn_input.open || before.popups.remove_confirm.open,
{
}

} // verus!
