//! What a frame shows where.

use vstd::prelude::*;

use crate::state::app_state::AppState;
use crate::state::app_state::Focus;
use crate::state::geometry;
use crate::state::geometry::Rect;
use crate::state::global;
use crate::state::layout::FrameLayout;
use crate::text::map::TextMap;
use crate::text::numbers;
use crate::text::strings;
use crate::tmux::options;

verus! {

/// Rows of the bottom panel where the option is unset.
pub const BOTTOM_PANEL_HEIGHT: u16 = 20;

/// Rows between the agent list and the bottom panel while the pet is enabled.
/// The pet and its furniture stay within them.
pub const PET_SCENE_HEIGHT: u16 = 5;

// ---- options ----

/// The height of the bottom panel under these options: the number that the
/// option holds, white space aside, or else the default.
pub open spec fn panel_height(opts: Map<Seq<char>, String>) -> nat {
    match global::option_text(opts, options::SIDEBAR_BOTTOM_HEIGHT@) {
        Some(text) => match numbers::parsed(strings::trimmed(text), u16::MAX as nat) {
            Some(height) => height,
            None => BOTTOM_PANEL_HEIGHT as nat,
        },
        None => BOTTOM_PANEL_HEIGHT as nat,
    }
}

/// Reads the height of the bottom panel; 0 turns the panel off.
pub fn bottom_panel_height_from_options(opts: &TextMap<String>) -> (height: u16)
    ensures
        height == panel_height(opts@),
{
    match global::option_of(opts, options::SIDEBAR_BOTTOM_HEIGHT) {
        Some(text) => match numbers::parse_u16(strings::trim(text)) {
            Some(height) => height,
            None => BOTTOM_PANEL_HEIGHT,
        },
        None => BOTTOM_PANEL_HEIGHT,
    }
}

/// Whether a setting means yes, white space and case aside.
pub open spec fn is_affirmative(text: Seq<char>) -> bool {
    let word = strings::lowered(strings::trimmed(text));
    word == "on"@ || word == "true"@ || word == "1"@ || word == "yes"@
}

/// Whether the pet is enabled under these options.
pub open spec fn pet_wanted(opts: Map<Seq<char>, String>) -> bool {
    global::option_text(opts, options::SIDEBAR_PET@) matches Some(text) && is_affirmative(text)
}

/// Reads whether the pet is enabled; it is not where the option is unset.
pub fn pet_enabled_from_options(opts: &TextMap<String>) -> (enabled: bool)
    ensures
        enabled == pet_wanted(opts@),
{
    match global::option_of(opts, options::SIDEBAR_PET) {
        Some(text) => {
            let word = strings::lower(strings::trim(text));
            strings::same_text(word.as_str(), "on") || strings::same_text(word.as_str(), "true")
                || strings::same_text(word.as_str(), "1") || strings::same_text(
                word.as_str(),
                "yes",
            )
        },
        None => false,
    }
}

// ---- frames ----

/// What to draw where.
#[derive(Clone, Copy, Debug, PartialEq, Eq, Structural)]
pub enum DrawPlan {
    /// A compact window: the handle of the bottom panel in the last row, and
    /// above it either the panel, with an open popup on top, or the list.
    Compact { body: Rect, handle: Rect, shown: bool },
    /// The list alone.
    ListOnly { area: Rect },
    /// The list, the rows of the pet, and the bottom panel.
    Stacked { list: Rect, scene: Rect, bottom: Rect, pet: bool },
}

/// The rows of the handle in a window of `height` rows.
pub open spec fn handle_rows(height: u16) -> int {
    if height == 0 {
        0
    } else {
        1
    }
}

/// The handle: the last row of the window.
pub open spec fn handle_of(area: Rect) -> Rect {
    Rect {
        y: (area.y + area.height - handle_rows(area.height)) as u16,
        height: handle_rows(area.height) as u16,
        ..area
    }
}

/// What is left above the handle.
pub open spec fn body_of(area: Rect) -> Rect {
    Rect { height: (area.height - handle_rows(area.height)) as u16, ..area }
}

/// The rows between the list and the bottom panel.
pub open spec fn scene_rows(pet: bool) -> u16 {
    if pet {
        PET_SCENE_HEIGHT
    } else {
        1
    }
}

/// Whether `list`, `scene` and `bottom` share out the rows of a window from top
/// to bottom. Where all fit, the lower two have their full heights and the list
/// has the rest.
pub open spec fn stacked(
    area: Rect,
    list: Rect,
    scene: Rect,
    bottom: Rect,
    scene_height: u16,
    bottom_height: u16,
) -> bool {
    &&& area.has_rows(list)
    &&& area.has_rows(scene)
    &&& area.has_rows(bottom)
    &&& area.y + area.height <= u16::MAX && 1 + scene_height + bottom_height <= area.height ==> {
        &&& list.y == area.y
        &&& list.y + list.height == scene.y
        &&& scene.height == scene_height
        &&& scene.y + scene.height == bottom.y
        &&& bottom.height == bottom_height
        &&& bottom.y + bottom.height == area.y + area.height
    }
}

/// Where the focus is after a frame: never in a panel that is not shown, and in
/// the panel where a compact window shows it.
pub open spec fn settled_focus(focus: Focus, compact: bool, shown: bool) -> Focus {
    if !shown && focus == Focus::ActivityLog {
        Focus::Panes
    } else if shown && compact {
        Focus::ActivityLog
    } else {
        focus
    }
}

impl AppState {
    /// Whether a window shows the bottom panel once compactness is settled.
    pub open spec fn shows(self, height: u16) -> bool {
        self.synced(self.visibility(height).0).visibility(height).1
    }

    /// Whether this state follows from `before` by a frame in `area`: the window
    /// is measured, compactness and focus are settled, no hyperlinks are left
    /// over, and a compact window has its handle in the last row.
    pub open spec fn framed(self, before: AppState, area: Rect) -> bool {
        let (compact, _) = before.visibility(area.height);
        let synced = before.synced(compact);
        &&& self.layout.hyperlink_overlays@.len() == 0
        &&& self == AppState {
            layout: FrameLayout {
                hyperlink_overlays: self.layout.hyperlink_overlays,
                bottom_toggle_target: if compact {
                    Some(handle_of(area))
                } else {
                    None
                },
                ..before.layout
            },
            last_viewport_height: area.height,
            focus: settled_focus(before.focus, compact, before.shows(area.height)),
            ..synced
        }
    }
}

impl DrawPlan {
    /// Whether this is the plan of a frame of `before` in `area`.
    pub open spec fn is_for(self, before: AppState, area: Rect) -> bool {
        let (compact, _) = before.visibility(area.height);
        let shown = before.shows(area.height);
        if compact {
            self == DrawPlan::Compact { body: body_of(area), handle: handle_of(area), shown }
        } else if !shown {
            self == DrawPlan::ListOnly { area }
        } else {
            self matches DrawPlan::Stacked { list, scene, bottom, pet } && pet == before.pet_enabled
                && stacked(
                area,
                list,
                scene,
                bottom,
                scene_rows(pet),
                before.bottom_panel_height,
            )
        }
    }
}

/// Settles a frame in `area` and plans what it shows where.
///
/// A compact window has a last row, so its rows end within the range of a row
/// number.
pub fn draw(state: &mut AppState, area: Rect) -> (plan: DrawPlan)
    requires
        old(state).visibility(area.height).0 ==> area.y + area.height - handle_rows(area.height)
            <= u16::MAX,
    ensures
        final(state).framed(*old(state), area),
        plan.is_for(*old(state), area),
{
    state.layout.hyperlink_overlays.clear();
    state.layout.bottom_toggle_target = None;
    state.last_viewport_height = area.height;
    let (compact, _) = state.bottom_visibility(area.height);
    state.sync_bottom_regime(compact);
    let (compact, shown) = state.bottom_visibility(area.height);
    if !shown {
        if state.focus == Focus::ActivityLog {
            state.focus = Focus::Panes;
        }
    } else if compact {
        state.focus = Focus::ActivityLog;
    }
    if compact {
        let handle_height: u16 = if area.height == 0 {
            0
        } else {
            1
        };
        let rest: u16 = area.height - handle_height;
        let body = Rect { x: area.x, y: area.y, width: area.width, height: rest };
        let handle = Rect {
            x: area.x,
            y: area.y + rest,
            width: area.width,
            height: handle_height,
        };
        state.layout.bottom_toggle_target = Some(handle);
        return DrawPlan::Compact { body, handle, shown };
    }
    if !shown {
        return DrawPlan::ListOnly { area };
    }
    let scene_height: u16 = if state.pet_enabled {
        PET_SCENE_HEIGHT
    } else {
        1
    };
    let (list, scene, bottom) = geometry::split_rows(
        area,
        1,
        scene_height,
        state.bottom_panel_height,
    );
    DrawPlan::Stacked { list, scene, bottom, pet: state.pet_enabled }
}

// ---- the handle ----

/// The name on the handle of the bottom panel.
pub const HANDLE_LABEL: &'static str = "Activity / Git";

/// The key that the handle names.
pub const HANDLE_HINT: &'static str = "[b]";

/// The parts of the handle's row: a blank, the marker, a blank, the label, the
/// gap, the hint, and a blank.
#[derive(Clone, Copy, Debug)]
pub struct PanelHandle {
    pub marker: &'static str,
    pub label: &'static str,
    /// Blanks between the label and the hint.
    pub gap: usize,
    pub hint: &'static str,
}

/// The marker of an open or a closed panel.
pub open spec fn marker_of(expanded: bool) -> Seq<char> {
    if expanded {
        "\u{25be}"@
    } else {
        "\u{25b8}"@
    }
}

/// The marker of an open or a closed panel.
pub fn handle_marker(expanded: bool) -> (marker: &'static str)
    ensures
        marker@ == marker_of(expanded),
{
    if expanded {
        "\u{25be}"
    } else {
        "\u{25b8}"
    }
}

/// Columns of the handle's row without the gap.
pub open spec fn handle_columns(marker_width: u8) -> int {
    1 + marker_width + 1 + HANDLE_LABEL@.len() + HANDLE_HINT@.len() + 1
}

/// The gap in a row of `width` columns: what the other parts leave of it.
pub open spec fn handle_gap(width: u16, marker_width: u8) -> int {
    if width > handle_columns(marker_width) {
        width - handle_columns(marker_width)
    } else {
        0
    }
}

/// Lays out the row of the handle, whose marker takes `marker_width` columns.
/// The gap pushes the hint to the right end, as far as there is room. Nothing
/// is drawn where the handle has no cells.
pub fn draw_panel_handle(area: Rect, expanded: bool, marker_width: u8) -> (parts: Option<
    PanelHandle,
>)
    ensures
        match parts {
            Some(handle) => {
                &&& area.height > 0 && area.width > 0
                &&& handle.marker@ == marker_of(expanded)
                &&& handle.label@ == HANDLE_LABEL@
                &&& handle.hint@ == HANDLE_HINT@
                &&& handle.gap == handle_gap(area.width, marker_width)
            },
            None => area.height == 0 || area.width == 0,
        },
{
    if area.height == 0 || area.width == 0 {
        return None;
    }
    proof {
        reveal_strlit("Activity / Git");
        reveal_strlit("[b]");
    }
    let marker = handle_marker(expanded);
    let left: usize = 1 + marker_width as usize + 1 + HANDLE_LABEL.unicode_len();
    let gap: usize = (area.width as usize).saturating_sub(left + HANDLE_HINT.unicode_len() + 1);
    Some(PanelHandle { marker, label: HANDLE_LABEL, gap, hint: HANDLE_HINT })
}

// ---- laws ----

/// After a frame the focus is never in a panel that is not shown, and where a
/// compact window shows the panel in place of the list, the focus is in it.
pub proof fn focus_is_always_on_screen(before: AppState, after: AppState, area: Rect)
    requires
        after.framed(before, area),
    ensures
        ({
            let (compact, shown) = after.visibility(after.last_viewport_height);
            &&& !shown ==> after.focus != Focus::ActivityLog
            &&& compact && shown ==> after.focus == Focus::ActivityLog
            &&& !compact && shown ==> after.focus == before.focus
        }),
{
}

/// Drawing the same window again changes neither the state nor the plan of a
/// frame that is not split by rows.
pub proof fn frames_repeat(
    before: AppState,
    once: AppState,
    twice: AppState,
    area: Rect,
    plan: DrawPlan,
    again: DrawPlan,
)
    requires
        once.framed(before, area),
        twice.framed(once, area),
        plan.is_for(before, area),
        again.is_for(once, area),
    ensures
        twice.focus == once.focus,
        twice.bottom_override == once.bottom_override,
        twice.last_compact == once.last_compact,
        twice.layout.bottom_toggle_target == once.layout.bottom_toggle_target,
        plan !is Stacked ==> again == plan,
        plan is Stacked ==> again is Stacked,
{
}

/// In a compact window the handle is the last row, the body is everything above
/// it, and a click on the handle is one that toggles the panel.
pub proof fn the_handle_is_the_last_row(
    before: AppState,
    after: AppState,
    area: Rect,
    row: u16,
    col: u16,
)
    requires
        after.framed(before, area),
        before.visibility(area.height).0,
        area.height > 0,
        area.y + area.height <= u16::MAX,
    ensures
        body_of(area).y + body_of(area).height == handle_of(area).y,
        handle_of(area).y + handle_of(area).height == area.y + area.height,
        after.on_handle(row, col) <==> row == area.y + area.height - 1 && area.x <= col
            < geometry::end(area.x, area.width),
{
}

/// Wherever a window is split, its list keeps room: with the bottom panel at
/// its full height and the pet enabled, the list still has five rows.
pub proof fn a_split_list_keeps_its_rows(before: AppState, area: Rect, plan: DrawPlan)
    requires
        plan.is_for(before, area),
        plan is Stacked,
        area.y + area.height <= u16::MAX,
        before.bottom_panel_height + AppState::COMPACT_LIST_MIN <= u16::MAX,
    ensures
        plan->list.height >= AppState::COMPACT_LIST_MIN - PET_SCENE_HEIGHT,
        plan->bottom.height == before.bottom_panel_height,
{
}

/// The bottom panel has as many rows as its option says, blanks aside; 20 where
/// the option is not set or says no number of 16 bits.
pub proof fn panels_have_their_configured_height(
    opts: Map<Seq<char>, String>,
    height: nat,
    left: Seq<char>,
    right: Seq<char>,
)
    requires
        strings::blank(left),
        strings::blank(right),
    ensures
        ({
            let option = options::SIDEBAR_BOTTOM_HEIGHT@;
            &&& opts.contains_key(option) && opts[option]@ == left + numbers::decimal(height)
                + right && height <= u16::MAX ==> panel_height(opts) == height
            &&& opts.contains_key(option) && opts[option]@ == left + numbers::decimal(height)
                + right && height > u16::MAX ==> panel_height(opts) == 20
            &&& opts.contains_key(option) && numbers::parsed(
                strings::trimmed(opts[option]@),
                u16::MAX as nat,
            ) is None ==> panel_height(opts) == 20
            &&& !opts.contains_key(option) ==> panel_height(opts) == 20
        }),
{
    let text = numbers::decimal(height);
    numbers::decimals_are_plain(height, ' ');
    numbers::decimal_round_trips(height, u16::MAX as nat);
    assert(!strings::is_whitespace(text[0]));
    assert(!strings::is_whitespace(text[text.len() - 1]));
    strings::padding_is_trimmed(left, text, right);
}

/// A setting means yes exactly where it is `on`, `true`, `1` or `yes` in any case,
/// blanks aside; the pet is enabled by such a setting and by nothing else.
pub proof fn only_yes_means_yes(
    opts: Map<Seq<char>, String>,
    left: Seq<char>,
    word: Seq<char>,
    right: Seq<char>,
)
    requires
        strings::blank(left),
        strings::blank(right),
        word.len() > 0 ==> !strings::is_whitespace(word.first()) && !strings::is_whitespace(
            word.last(),
        ),
    ensures
        is_affirmative(left + word + right) <==> strings::lowered(word) == "on"@
            || strings::lowered(word) == "true"@ || strings::lowered(word) == "1"@
            || strings::lowered(word) == "yes"@,
        opts.contains_key(options::SIDEBAR_PET@) ==> (pet_wanted(opts) <==> is_affirmative(
            opts[options::SIDEBAR_PET@]@,
        )),
        !opts.contains_key(options::SIDEBAR_PET@) ==> !pet_wanted(opts),
{
    strings::padding_is_trimmed(left, word, right);
}

/// A frame measures its window and settles compactness and focus; everything else
/// stays as it was, but for the hyperlinks and the handle of the frame before.
pub proof fn frames_change_nothing_else(before: AppState, after: AppState, area: Rect)
    requires
        after.framed(before, area),
    ensures
        after.last_viewport_height == area.height,
        after.last_compact == Some(before.visibility(area.height).0),
        after.layout.hyperlink_overlays@.len() == 0,
        after.layout.bottom_toggle_target is Some <==> before.visibility(area.height).0,
        after.layout.pane_row_targets == before.layout.pane_row_targets,
        after.layout.line_to_row == before.layout.line_to_row,
        after.layout.repo_spawn_targets == before.layout.repo_spawn_targets,
        after.layout.spawn_remove_targets == before.layout.spawn_remove_targets,
        after.layout.repo_button_col == before.layout.repo_button_col,
        after.global == before.global,
        after.repo_groups == before.repo_groups,
        after.timers == before.timers,
        after.popups == before.popups,
        after.panes_offset == before.panes_offset,
        after.pet_enabled == before.pet_enabled,
        after.bottom_panel_height == before.bottom_panel_height,
{
}

/// A frame shows the list alone where there is no bottom panel, the handle in a
/// window that has less than ten rows beside the panel, and the list above the
/// panel in any other one, five rows apart where the pet is enabled and one where
/// it is not.
pub proof fn frames_fit_their_window(before: AppState, area: Rect, plan: DrawPlan)
    requires
        plan.is_for(before, area),
        area.y + area.height <= u16::MAX,
        before.bottom_panel_height + 10 <= u16::MAX,
    ensures
        before.bottom_panel_height == 0 ==> plan == (DrawPlan::ListOnly { area }),
        before.bottom_panel_height > 0 && area.height < before.bottom_panel_height + 10 ==> {
            &&& plan is Compact
            &&& plan->handle.height == (if area.height == 0 {
                0int
            } else {
                1int
            })
            &&& plan->body.height + plan->handle.height == area.height
            &&& plan->body.y == area.y && plan->body.x == area.x && plan->body.width == area.width
            &&& plan->handle.x == area.x && plan->handle.width == area.width
            &&& plan->handle.y == area.y + plan->body.height
            &&& before.last_compact != Some(false) ==> (plan->shown <==> before.bottom_override
                == Some(true))
            &&& before.last_compact == Some(false) ==> !plan->shown
        },
        before.bottom_panel_height > 0 && area.height >= before.bottom_panel_height + 10 ==> {
            &&& plan is Stacked
            &&& plan->pet == before.pet_enabled
            &&& plan->scene.height == (if before.pet_enabled {
                5int
            } else {
                1int
            })
            &&& plan->bottom.height == before.bottom_panel_height
            &&& plan->list.y == area.y
            &&& plan->list.height + plan->scene.height + plan->bottom.height == area.height
            &&& plan->scene.y == plan->list.y + plan->list.height
            &&& plan->bottom.y == plan->scene.y + plan->scene.height
        },
{
}

/// The parts of the handle's row and its gap fill the row, as far as there is room
/// for the parts; the marker points down where the panel is open, and to the right
/// where it is not.
pub proof fn the_handle_fills_its_row(width: u16, marker_width: u8)
    ensures
        width >= marker_width + 20 ==> 1 + marker_width + 1 + 14 + handle_gap(width, marker_width)
            + 3 + 1 == width,
        width < marker_width + 20 ==> handle_gap(width, marker_width) == 0,
        marker_of(true) == seq!['\u{25be}'],
        marker_of(false) == seq!['\u{25b8}'],
{
    reveal_strlit("Activity / Git");
    reveal_strlit("[b]");
    reveal_strlit("\u{25be}");
    reveal_strlit("\u{25b8}");
    assert(marker_of(true) =~= seq!['\u{25be}']);
    assert(marker_of(false) =~= seq!['\u{25b8}']);
}

} // verus!
