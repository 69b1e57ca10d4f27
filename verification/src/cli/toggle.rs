//! Rules for creating, sizing, placing and removing sidebar panes.

use vstd::prelude::*;

use std::ops::RangeInclusive;

use crate::text::fields;
use crate::text::numbers;
use crate::text::strings;
use crate::tmux::options;

verus! {

// ---- listing panes ----

/// The panes with the role `sidebar` in lines of the form `pane_id|role`.
pub open spec fn sidebars_in(lines: Seq<Seq<char>>) -> Seq<Seq<char>>
    decreases lines.len(),
{
    if lines.len() == 0 {
        Seq::empty()
    } else {
        let head = sidebars_in(lines.drop_last());
        match fields::split_pair(lines.last(), '|') {
            Some((pane_id, role)) => if role == "sidebar"@ {
                head.push(pane_id)
            } else {
                head
            },
            None => head,
        }
    }
}

/// The sidebar panes that a `list-panes` output names, in order.
pub open spec fn sidebars(output: Seq<char>) -> Seq<Seq<char>> {
    sidebars_in(fields::lines(output))
}

/// The sidebar panes that a `list-panes` output names. Lines without a
/// separator are skipped.
pub fn sidebar_panes(output: &str) -> (panes: Vec<String>)
    ensures
        strings::texts(panes@) == sidebars(output@),
{
    let lines = fields::split_lines(output);
    let ghost all = strings::texts(lines@);
    let mut panes: Vec<String> = Vec::new();
    assert(strings::texts(panes@) =~= sidebars_in(all.take(0)));
    for i in 0..lines.len()
        invariant
            all == strings::texts(lines@),
            strings::texts(panes@) == sidebars_in(all.take(i as int)),
    {
        let ghost before = strings::texts(panes@);
        assert(all.take(i + 1).drop_last() == all.take(i as int));
        assert(all.take(i + 1).last() == lines@[i as int]@);
        if let Some((pane_id, role)) = fields::split_once(lines[i].as_str(), '|') {
            if strings::same_text(role.as_str(), "sidebar") {
                panes.push(pane_id);
                assert(strings::texts(panes@) =~= before.push(pane_id@));
            }
        }
    }
    assert(all.take(all.len() as int) == all);
    panes
}

/// Whether a `list-panes` output names a sidebar.
pub fn any_sidebar_pane(output: &str) -> (any: bool)
    ensures
        any == (sidebars(output@).len() > 0),
{
    let panes = sidebar_panes(output);
    assert(strings::texts(panes@).len() == panes@.len());
    !panes.is_empty()
}

/// The texts of a list of pairs.
pub open spec fn pair_texts(list: Seq<(String, String)>) -> Seq<(Seq<char>, Seq<char>)> {
    Seq::new(list.len(), |i: int| (list[i].0@, list[i].1@))
}

/// Whether a pair with this first component is in the list.
pub open spec fn has_window(list: Seq<(Seq<char>, Seq<char>)>, window_id: Seq<char>) -> bool {
    exists|i: int| 0 <= i < list.len() && (#[trigger] list[i]).0 == window_id
}

/// Each window in lines of the form `window_id|path`, with the path of its
/// first line.
pub open spec fn windows_in(lines: Seq<Seq<char>>) -> Seq<(Seq<char>, Seq<char>)>
    decreases lines.len(),
{
    if lines.len() == 0 {
        Seq::empty()
    } else {
        let head = windows_in(lines.drop_last());
        match fields::split_pair(lines.last(), '|') {
            Some((window_id, path)) => if has_window(head, window_id) {
                head
            } else {
                head.push((window_id, path))
            },
            None => head,
        }
    }
}

/// The windows that a `list-panes` output names, each once and in order.
pub open spec fn window_paths(output: Seq<char>) -> Seq<(Seq<char>, Seq<char>)> {
    windows_in(fields::lines(output))
}

/// Whether a window is already in the list.
fn knows_window(windows: &Vec<(String, String)>, window_id: &str) -> (known: bool)
    ensures
        known == has_window(pair_texts(windows@), window_id@),
{
    for i in 0..windows.len()
        invariant
            forall|k: int| 0 <= k < i ==> (#[trigger] windows@[k]).0@ != window_id@,
    {
        if strings::same_text(windows[i].0.as_str(), window_id) {
            assert(pair_texts(windows@)[i as int].0 == window_id@);
            return true;
        }
    }
    assert forall|k: int| 0 <= k < pair_texts(windows@).len() implies (#[trigger] pair_texts(
        windows@,
    )[k]).0 != window_id@ by {
        assert(windows@[k].0@ != window_id@);
    }
    false
}

/// Reads `window_id|path` lines into one entry per window; the first path of a
/// window counts. Lines without a separator are skipped.
pub fn unique_window_paths(output: &str) -> (windows: Vec<(String, String)>)
    ensures
        pair_texts(windows@) == window_paths(output@),
{
    let lines = fields::split_lines(output);
    let ghost all = strings::texts(lines@);
    let mut windows: Vec<(String, String)> = Vec::new();
    assert(pair_texts(windows@) =~= windows_in(all.take(0)));
    for i in 0..lines.len()
        invariant
            all == strings::texts(lines@),
            pair_texts(windows@) == windows_in(all.take(i as int)),
    {
        let ghost before = pair_texts(windows@);
        assert(all.take(i + 1).drop_last() == all.take(i as int));
        assert(all.take(i + 1).last() == lines@[i as int]@);
        if let Some((window_id, path)) = fields::split_once(lines[i].as_str(), '|') {
            if !knows_window(&windows, window_id.as_str()) {
                windows.push((window_id, path));
                assert(pair_texts(windows@) =~= before.push((window_id@, path@)));
            }
        }
    }
    assert(all.take(all.len() as int) == all);
    windows
}

/// The format under which panes are listed with their roles.
pub open spec fn role_format() -> Seq<char> {
    "#{pane_id}|#{"@ + options::PANE_ROLE@ + "}"@
}

/// The format under which panes are listed with their roles.
pub fn pane_id_role_format() -> (format: String)
    ensures
        format@ == role_format(),
{
    strings::joined("#{pane_id}|#{", options::PANE_ROLE, "}")
}

// ---- placement ----

/// Side of the window on which the sidebar pane is created.
#[derive(Clone, Copy, Debug, PartialEq, Eq, Structural)]
pub enum SidebarPosition {
    Left,
    Right,
}

impl SidebarPosition {
    /// The side that an option value selects: `right` in any case and with
    /// surrounding white space, otherwise left.
    pub open spec fn of_setting(setting: Seq<char>) -> SidebarPosition {
        if strings::lowered(strings::trimmed(setting)) == "right"@ {
            SidebarPosition::Right
        } else {
            SidebarPosition::Left
        }
    }

    /// Reads the option value; anything but `right` keeps the sidebar on the left.
    pub fn from_setting(setting: &str) -> (position: SidebarPosition)
        ensures
            position == Self::of_setting(setting@),
    {
        if strings::same_text(strings::lower(strings::trim(setting)).as_str(), "right") {
            SidebarPosition::Right
        } else {
            SidebarPosition::Left
        }
    }
}

/// Horizontal placement of one pane.
#[derive(Debug)]
pub struct PaneGeometry {
    pub left: u32,
    pub width: u32,
    pub pane_id: String,
}

/// Horizontal placement of one pane, as mathematical values.
#[verifier::ext_equal]
pub struct GeometryView {
    pub left: nat,
    pub width: nat,
    pub pane_id: Seq<char>,
}

impl View for PaneGeometry {
    type V = GeometryView;

    open spec fn view(&self) -> GeometryView {
        GeometryView {
            left: self.left as nat,
            width: self.width as nat,
            pane_id: self.pane_id@,
        }
    }
}

impl GeometryView {
    /// The first column right of the pane, within the range of a column number.
    pub open spec fn right_edge(self) -> nat {
        if self.left + self.width <= u32::MAX {
            self.left + self.width
        } else {
            u32::MAX as nat
        }
    }
}

/// The placement that a `left width pane_id` line gives.
pub open spec fn geometry(line: Seq<char>) -> Option<GeometryView> {
    let words = fields::words(line);
    if words.len() < 3 {
        None
    } else {
        match (
            numbers::parsed(words[0], u32::MAX as nat),
            numbers::parsed(words[1], u32::MAX as nat),
        ) {
            (Some(left), Some(width)) => Some(GeometryView { left, width, pane_id: words[2] }),
            _ => None,
        }
    }
}

/// Reads a `left width pane_id` line.
pub fn parse_pane_geometry(line: &str) -> (pane: Option<PaneGeometry>)
    ensures
        match pane {
            Some(p) => geometry(line@) == Some(p@),
            None => geometry(line@) is None,
        },
{
    let words = fields::split_words(line);
    let ghost all = fields::words(line@);
    assert(strings::texts(words@).len() == all.len());
    if words.len() < 3 {
        return None;
    }
    assert(all[0] == words@[0]@ && all[1] == words@[1]@ && all[2] == words@[2]@);
    match (numbers::parse_u32(words[0].as_str()), numbers::parse_u32(words[1].as_str())) {
        (Some(left), Some(width)) => Some(
            PaneGeometry { left, width, pane_id: words[2].clone() },
        ),
        _ => None,
    }
}

/// Whether a pane seen later takes the place of the best one so far.
pub open spec fn preferred(
    position: SidebarPosition,
    best: Option<GeometryView>,
    pane: GeometryView,
) -> bool {
    match best {
        None => true,
        Some(b) => match position {
            SidebarPosition::Left => pane.left < b.left,
            SidebarPosition::Right => pane.right_edge() >= b.right_edge(),
        },
    }
}

/// The pane from which the sidebar splits, among the placements in `lines`.
pub open spec fn outermost_in(lines: Seq<Seq<char>>, position: SidebarPosition) -> Option<
    GeometryView,
>
    decreases lines.len(),
{
    if lines.len() == 0 {
        None
    } else {
        let best = outermost_in(lines.drop_last(), position);
        match geometry(lines.last()) {
            Some(pane) => if preferred(position, best, pane) {
                Some(pane)
            } else {
                best
            },
            None => best,
        }
    }
}

/// The pane from which the sidebar splits.
pub open spec fn split_target(output: Seq<char>, position: SidebarPosition) -> Option<Seq<char>> {
    match outermost_in(fields::lines(output), position) {
        Some(pane) => Some(pane.pane_id),
        None => None,
    }
}

/// Picks the pane from which the sidebar splits: the leftmost one for a left
/// sidebar (the first of several), or the one with the largest right edge for
/// a right sidebar (the last of several).
pub fn target_pane_for_position(output: &str, position: SidebarPosition) -> (pane_id: Option<
    String,
>)
    ensures
        strings::opt_text(pane_id) == split_target(output@, position),
{
    let lines = fields::split_lines(output);
    let ghost all = strings::texts(lines@);
    let mut best: Option<PaneGeometry> = None;
    for i in 0..lines.len()
        invariant
            all == strings::texts(lines@),
            match best {
                Some(b) => outermost_in(all.take(i as int), position) == Some(b@),
                None => outermost_in(all.take(i as int), position) is None,
            },
    {
        assert(all.take(i + 1).drop_last() == all.take(i as int));
        assert(all.take(i + 1).last() == lines@[i as int]@);
        if let Some(pane) = parse_pane_geometry(lines[i].as_str()) {
            let wins = match &best {
                None => true,
                Some(b) => match position {
                    SidebarPosition::Left => pane.left < b.left,
                    SidebarPosition::Right => pane.left.saturating_add(pane.width)
                        >= b.left.saturating_add(b.width),
                },
            };
            if wins {
                best = Some(pane);
            }
        }
    }
    assert(all.take(all.len() as int) == all);
    match best {
        Some(b) => Some(b.pane_id),
        None => None,
    }
}

/// The `split-window` flags of a side.
pub open spec fn split_flags(position: SidebarPosition) -> Seq<char> {
    match position {
        SidebarPosition::Left => "-hfb"@,
        SidebarPosition::Right => "-hf"@,
    }
}

/// The `split-window` flags of a side: before the target on the left, after it
/// on the right, over the full window height.
pub fn split_window_flags(position: SidebarPosition) -> (flags: &'static str)
    ensures
        flags@ == split_flags(position),
{
    match position {
        SidebarPosition::Left => "-hfb",
        SidebarPosition::Right => "-hf",
    }
}

// ---- closing ----

/// Whether a window holds nothing but sidebars and may go: its panes are known
/// and all of them sidebars, and the session either has other windows or at
/// most one attached client.
pub open spec fn closes_window(
    panes: Option<Seq<char>>,
    session_windows: Option<u32>,
    session_attached: Option<u32>,
) -> bool {
    &&& panes matches Some(output)
    &&& strings::trimmed(output).len() > 0
    &&& forall|i: int|
        0 <= i < fields::lines(output).len() ==> #[trigger] fields::lines(output)[i] == "sidebar"@
    &&& session_windows matches Some(windows)
    &&& windows >= 1
    &&& windows == 1 ==> (session_attached matches Some(clients) && clients <= 1)
}

/// Decides whether the window is closed once only sidebars are left in it.
/// Queries that failed count against closing.
pub fn should_kill_window(
    list_panes_output: Option<&str>,
    session_windows: Option<u32>,
    session_attached: Option<u32>,
) -> (kill: bool)
    ensures
        kill == closes_window(
            match list_panes_output {
                Some(output) => Some(output@),
                None => None,
            },
            session_windows,
            session_attached,
        ),
{
    let output = match list_panes_output {
        Some(output) => output,
        None => return false,
    };
    if strings::trim(output).is_empty() {
        return false;
    }
    let lines = fields::split_lines(output);
    let ghost all = fields::lines(output@);
    assert(strings::texts(lines@) == all);
    assert(lines@.len() == all.len());
    for i in 0..lines.len()
        invariant
            strings::texts(lines@) == all,
            all == fields::lines(output@),
            list_panes_output == Some(output),
            forall|k: int| 0 <= k < i ==> #[trigger] all[k] == "sidebar"@,
    {
        assert(all[i as int] == lines@[i as int]@);
        if !strings::same_text(lines[i].as_str(), "sidebar") {
            return false;
        }
    }
    match session_windows {
        None => false,
        Some(windows) => if windows == 0 {
            false
        } else if windows == 1 {
            match session_attached {
                Some(clients) => clients <= 1,
                None => false,
            }
        } else {
            true
        },
    }
}

// ---- widths ----

/// Whether a window of known width is narrower than a minimum.
pub open spec fn too_narrow(min_width: nat, window_width: nat) -> bool {
    window_width != 0 && window_width < min_width
}

/// Whether a hook's request to create a sidebar is refused because the window
/// is narrower than the configured minimum. A window width of 0 is unknown and
/// refuses nothing.
pub fn auto_create_blocked_by_width(min_width: u32, window_width: u32) -> (blocked: bool)
    ensures
        blocked == too_narrow(min_width as nat, window_width as nat),
{
    window_width != 0 && window_width < min_width
}

/// The share `percent` of `total`, computed within 32 bits.
pub open spec fn share(total: nat, percent: nat) -> nat {
    if total * percent <= u32::MAX {
        total * percent / 100
    } else {
        u32::MAX as nat / 100
    }
}

/// The share `percent` of `total`; a product out of range counts as the
/// largest one.
fn percent_of(total: u32, percent: u32) -> (part: u32)
    ensures
        part == share(total as nat, percent as nat),
        part <= u32::MAX / 100,
{
    proof {
        assert(total * percent <= u32::MAX * u32::MAX) by (nonlinear_arith)
            requires
                total <= u32::MAX,
                percent <= u32::MAX,
        ;
    }
    let product: u64 = (total as u64) * (percent as u64);
    if product <= u32::MAX as u64 {
        (product / 100) as u32
    } else {
        u32::MAX / 100
    }
}

/// The width that a setting selects in a window: a positive number of columns,
/// or a positive percentage of a known window width, at least one column.
pub open spec fn resolved_width(setting: Seq<char>, window_width: nat) -> Option<nat> {
    let value = strings::trimmed(setting);
    if value.len() > 0 && value.last() == '%' {
        match numbers::parsed(value.drop_last(), u32::MAX as nat) {
            Some(percent) => if percent == 0 || window_width == 0 {
                None
            } else if share(window_width, percent) < 1 {
                Some(1)
            } else {
                Some(share(window_width, percent))
            },
            None => None,
        }
    } else {
        match numbers::parsed(value, u32::MAX as nat) {
            Some(width) => if width > 0 {
                Some(width)
            } else {
                None
            },
            None => None,
        }
    }
}

/// Resolves a width setting for a window.
pub fn resolve_sidebar_width(setting: &str, window_width: u32) -> (width: Option<u32>)
    ensures
        match width {
            Some(w) => resolved_width(setting@, window_width as nat) == Some(w as nat),
            None => resolved_width(setting@, window_width as nat) is None,
        },
{
    let value = strings::trim(setting);
    let count: usize = value.unicode_len();
    if count > 0 && value.get_char(count - 1) == '%' {
        let digits = value.substring_char(0, count - 1);
        assert(digits@ == value@.drop_last());
        match numbers::parse_u32(digits) {
            Some(percent) => if percent == 0 || window_width == 0 {
                None
            } else {
                let part: u32 = percent_of(window_width, percent);
                if part < 1 {
                    Some(1)
                } else {
                    Some(part)
                }
            },
            None => None,
        }
    } else {
        match numbers::parse_u32(value) {
            Some(width) => if width > 0 {
                Some(width)
            } else {
                None
            },
            None => None,
        }
    }
}

/// Whether a reported width is a number other than the wanted one.
pub open spec fn width_differs(current: Seq<char>, desired: nat) -> bool {
    match numbers::parsed(strings::trimmed(current), u32::MAX as nat) {
        Some(width) => width != desired,
        None => false,
    }
}

/// Whether a reported width is a number other than the wanted one.
pub fn sidebar_width_changed(current_width: &str, desired_width: u32) -> (changed: bool)
    ensures
        changed == width_differs(current_width@, desired_width as nat),
{
    match numbers::parse_u32(strings::trim(current_width)) {
        Some(width) => width != desired_width,
        None => false,
    }
}

/// The sum of two column counts, within 32 bits.
pub open spec fn columns(a: nat, b: nat) -> nat {
    if a + b <= u32::MAX {
        a + b
    } else {
        u32::MAX as nat
    }
}

/// Whether the window has room for the sidebar, the main area and the border
/// between them.
pub open spec fn fits(window_width: nat, sidebar_width: nat, main_min_width: nat) -> bool {
    window_width >= columns(columns(sidebar_width, main_min_width), 1)
}

/// Whether the window has room for the sidebar, the main area and the border
/// between them.
pub fn responsive_sidebar_fits(
    window_width: u32,
    sidebar_width: u32,
    main_min_width: u32,
) -> (yes: bool)
    ensures
        yes == fits(window_width as nat, sidebar_width as nat, main_min_width as nat),
{
    window_width >= sidebar_width.saturating_add(main_min_width).saturating_add(1)
}

/// The smaller of two numbers.
pub open spec fn least(a: nat, b: nat) -> nat {
    if a <= b {
        a
    } else {
        b
    }
}

/// The largest width to which the sidebar may be dragged.
pub open spec fn drag_limit(
    window_width: nat,
    max_width: nat,
    max_percent: nat,
    main_min_width: nat,
) -> nat {
    let reserved = columns(main_min_width, 1);
    let room = if reserved <= window_width {
        (window_width - reserved) as nat
    } else {
        0
    };
    least(least(max_width, share(window_width, max_percent)), room)
}

/// The smallest and the largest width to which the sidebar may be dragged, if
/// there are any.
pub open spec fn drag_limits(
    window_width: nat,
    min_width: nat,
    max_width: nat,
    max_percent: nat,
    main_min_width: nat,
) -> Option<(nat, nat)> {
    let limit = drag_limit(window_width, max_width, max_percent, main_min_width);
    if limit >= min_width {
        Some((min_width, limit))
    } else {
        None
    }
}

/// The widths to which the sidebar may be dragged, if there are any: at least
/// the minimum, and at most the absolute maximum, the allowed share of the
/// window, and what the main area leaves.
pub fn drag_width_range(
    window_width: u32,
    min_width: u32,
    max_width: u32,
    max_percent: u32,
    main_min_width: u32,
) -> (range: Option<RangeInclusive<u32>>)
    ensures
        ({
            let limits = drag_limits(
                window_width as nat,
                min_width as nat,
                max_width as nat,
                max_percent as nat,
                main_min_width as nat,
            );
            match range {
                Some(r) => limits == Some((r@.start as nat, r@.end as nat)) && !r@.exhausted,
                None => limits is None,
            }
        }),
{
    let percent_cap: u32 = percent_of(window_width, max_percent);
    let main_area_cap: u32 = window_width.saturating_sub(main_min_width.saturating_add(1));
    let mut limit: u32 = max_width;
    if percent_cap < limit {
        limit = percent_cap;
    }
    if main_area_cap < limit {
        limit = main_area_cap;
    }
    if limit >= min_width {
        Some(RangeInclusive::new(min_width, limit))
    } else {
        None
    }
}

// ---- laws ----

/// Each window is listed once, with the path of the first line that names it,
/// and every line that names a window puts it on the list.
pub proof fn windows_are_listed_once(lines: Seq<Seq<char>>)
    ensures
        forall|i: int, j: int|
            0 <= i < j < windows_in(lines).len() ==> (#[trigger] windows_in(lines)[i]).0 != (
            #[trigger] windows_in(lines)[j]).0,
        forall|k: int|
            0 <= k < lines.len() && fields::split_pair(#[trigger] lines[k], '|') is Some
                ==> has_window(windows_in(lines), (fields::split_pair(lines[k], '|')->0).0),
        forall|i: int|
            0 <= i < windows_in(lines).len() ==> exists|k: int|
                0 <= k < lines.len() && fields::split_pair(#[trigger] lines[k], '|') == Some(
                    #[trigger] windows_in(lines)[i],
                ) && !has_window(windows_in(lines.take(k)), windows_in(lines)[i].0),
    decreases lines.len(),
{
    if lines.len() > 0 {
        let before = lines.drop_last();
        windows_are_listed_once(before);
        let head = windows_in(before);
        let all = windows_in(lines);
        let last = fields::split_pair(lines.last(), '|');
        let grown = last is Some && !has_window(head, (last->0).0);
        assert(lines.take(lines.len() - 1) =~= before);
        if grown {
            assert(all[head.len() as int] == last->0);
        }
        assert forall|k: int|
            0 <= k < lines.len() && fields::split_pair(#[trigger] lines[k], '|') is Some implies
            has_window(all, (fields::split_pair(lines[k], '|')->0).0) by {
            let window = (fields::split_pair(lines[k], '|')->0).0;
            if k < before.len() {
                assert(before[k] == lines[k]);
                assert(has_window(head, window));
            }
            if has_window(head, window) {
                let i = choose|i: int| 0 <= i < head.len() && (#[trigger] head[i]).0 == window;
                assert(all[i] == head[i]);
            }
        }
        assert forall|i: int| 0 <= i < all.len() implies exists|k: int|
            0 <= k < lines.len() && fields::split_pair(#[trigger] lines[k], '|') == Some(
                #[trigger] all[i],
            ) && !has_window(windows_in(lines.take(k)), all[i].0) by {
            if i < head.len() {
                assert(all[i] == head[i]);
                let k = choose|k: int|
                    0 <= k < before.len() && fields::split_pair(#[trigger] before[k], '|') == Some(
                        head[i],
                    ) && !has_window(windows_in(before.take(k)), head[i].0);
                assert(before[k] == lines[k]);
                assert(before.take(k) =~= lines.take(k));
            } else {
                let k = lines.len() - 1;
                assert(fields::split_pair(lines[k], '|') == Some(all[i]));
            }
        }
    }
}

/// Whether no placement in `lines` lies further out than `best` on this side.
pub open spec fn is_outermost(
    lines: Seq<Seq<char>>,
    position: SidebarPosition,
    best: GeometryView,
) -> bool {
    forall|k: int|
        0 <= k < lines.len() && geometry(#[trigger] lines[k]) is Some ==> match position {
            SidebarPosition::Left => best.left <= geometry(lines[k])->0.left,
            SidebarPosition::Right => best.right_edge() >= geometry(lines[k])->0.right_edge(),
        }
}

/// The sidebar splits from a pane at the window's outer edge: a pane of the
/// listing, with no other one further out. There is none only where no line
/// gives a placement.
pub proof fn split_target_is_outermost(lines: Seq<Seq<char>>, position: SidebarPosition)
    ensures
        match outermost_in(lines, position) {
            Some(best) => is_outermost(lines, position, best) && exists|k: int|
                0 <= k < lines.len() && geometry(#[trigger] lines[k]) == Some(best),
            None => forall|k: int| 0 <= k < lines.len() ==> geometry(#[trigger] lines[k]) is None,
        },
    decreases lines.len(),
{
    if lines.len() > 0 {
        let before = lines.drop_last();
        split_target_is_outermost(before, position);
        assert forall|k: int| 0 <= k < before.len() implies #[trigger] lines[k] == before[k] by {}
        match outermost_in(before, position) {
            Some(best) => {
                let k = choose|k: int|
                    0 <= k < before.len() && geometry(#[trigger] before[k]) == Some(best);
                assert(geometry(lines[k]) == Some(best));
            },
            None => {},
        }
        assert(lines[lines.len() - 1] == lines.last());
    }
}

/// A line `pane|role` adds its pane to the sidebars exactly where the role is
/// `sidebar`, and a line without a separator adds nothing.
pub proof fn sidebars_are_known_by_their_role(
    lines: Seq<Seq<char>>,
    pane_id: Seq<char>,
    role: Seq<char>,
)
    requires
        !pane_id.contains('|'),
    ensures
        sidebars_in(lines.push(pane_id.push('|') + "sidebar"@)) == sidebars_in(lines).push(pane_id),
        role != "sidebar"@ ==> sidebars_in(lines.push(pane_id.push('|') + role)) == sidebars_in(
            lines,
        ),
        sidebars_in(lines.push(pane_id)) == sidebars_in(lines),
        sidebars_in(Seq::empty()) == Seq::<Seq<char>>::empty(),
{
    fields::joined_pair_splits(pane_id, '|', "sidebar"@);
    fields::joined_pair_splits(pane_id, '|', role);
    fields::split_pair_takes_apart(pane_id, '|');
    assert(lines.push(pane_id.push('|') + "sidebar"@).drop_last() =~= lines);
    assert(lines.push(pane_id.push('|') + role).drop_last() =~= lines);
    assert(lines.push(pane_id).drop_last() =~= lines);
    if let Some((left, right)) = fields::split_pair(pane_id, '|') {
        assert(pane_id[left.len() as int] == '|');
    }
}

/// A line `window|path` puts its window at the end of the list with that path,
/// unless the window is there already; the path may hold separators. A line
/// without a separator puts none there.
pub proof fn windows_are_listed_with_their_paths(
    lines: Seq<Seq<char>>,
    window_id: Seq<char>,
    path: Seq<char>,
)
    requires
        !window_id.contains('|'),
    ensures
        windows_in(lines.push(window_id.push('|') + path)) == (if exists|i: int|
            0 <= i < windows_in(lines).len() && (#[trigger] windows_in(lines)[i]).0 == window_id {
            windows_in(lines)
        } else {
            windows_in(lines).push((window_id, path))
        }),
        windows_in(lines.push(window_id)) == windows_in(lines),
        windows_in(Seq::empty()) == Seq::<(Seq<char>, Seq<char>)>::empty(),
{
    fields::joined_pair_splits(window_id, '|', path);
    fields::split_pair_takes_apart(window_id, '|');
    assert(lines.push(window_id.push('|') + path).drop_last() =~= lines);
    assert(lines.push(window_id).drop_last() =~= lines);
    if let Some((left, right)) = fields::split_pair(window_id, '|') {
        assert(window_id[left.len() as int] == '|');
    }
}

/// A line that gives a column, a width and a pane in this order is read as such,
/// and the pane ends where the next one begins.
pub proof fn placements_are_read_in_order(left: nat, width: nat, pane_id: Seq<char>)
    requires
        left <= u32::MAX,
        width <= u32::MAX,
        pane_id.len() > 0,
        forall|i: int| 0 <= i < pane_id.len() ==> !strings::is_whitespace(#[trigger] pane_id[i]),
    ensures
        geometry(numbers::decimal(left).push(' ') + (numbers::decimal(width).push(' ') + pane_id))
            == Some(GeometryView { left, width, pane_id }),
        left + width <= u32::MAX ==> (GeometryView { left, width, pane_id }).right_edge() == left
            + width,
        left + width > u32::MAX ==> (GeometryView { left, width, pane_id }).right_edge()
            == u32::MAX,
{
    let a = numbers::decimal(left);
    let b = numbers::decimal(width);
    numbers::decimals_are_plain(left, ' ');
    numbers::decimals_are_plain(width, ' ');
    numbers::decimal_round_trips(left, u32::MAX as nat);
    numbers::decimal_round_trips(width, u32::MAX as nat);
    fields::one_word_is_the_text(pane_id);
    fields::first_word_splits_off(b, ' ', pane_id);
    fields::first_word_splits_off(a, ' ', b.push(' ') + pane_id);
    let words = fields::words(a.push(' ') + (b.push(' ') + pane_id));
    assert(words =~= seq![a, b, pane_id]);
}

/// Of several panes equally far out, a left sidebar splits from the first and a
/// right sidebar from the last.
pub proof fn ties_are_settled_by_order(lines: Seq<Seq<char>>, position: SidebarPosition)
    ensures
        outermost_in(lines, position) matches Some(best) ==> exists|k: int|
            0 <= k < lines.len() && geometry(#[trigger] lines[k]) == Some(best) && (forall|j: int|
                0 <= j < lines.len() && geometry(#[trigger] lines[j]) is Some ==> match position {
                    SidebarPosition::Left => best.left <= geometry(lines[j])->0.left && (j < k
                        ==> best.left < geometry(lines[j])->0.left),
                    SidebarPosition::Right => geometry(lines[j])->0.right_edge()
                        <= best.right_edge() && (j > k ==> geometry(lines[j])->0.right_edge()
                        < best.right_edge()),
                }),
    decreases lines.len(),
{
    if lines.len() > 0 {
        let before = lines.drop_last();
        let last = lines.len() - 1;
        ties_are_settled_by_order(before, position);
        split_target_is_outermost(before, position);
        assert forall|j: int| 0 <= j < before.len() implies #[trigger] lines[j] == before[j] by {}
        assert(lines[last] == lines.last());
        if let Some(best) = outermost_in(lines, position) {
            let old = outermost_in(before, position);
            if geometry(lines.last()) is Some && preferred(position, old, geometry(lines.last())->0) {
                assert(geometry(lines[last]) == Some(best));
                assert forall|j: int|
                    0 <= j < lines.len() && geometry(#[trigger] lines[j]) is Some implies match position {
                    SidebarPosition::Left => best.left <= geometry(lines[j])->0.left && (j < last
                        ==> best.left < geometry(lines[j])->0.left),
                    SidebarPosition::Right => geometry(lines[j])->0.right_edge()
                        <= best.right_edge() && (j > last ==> geometry(lines[j])->0.right_edge()
                        < best.right_edge()),
                } by {
                    if j < last {
                        assert(lines[j] == before[j]);
                    }
                }
            } else {
                let k = choose|k: int|
                    0 <= k < before.len() && geometry(#[trigger] before[k]) == Some(best) && (
                    forall|j: int|
                        0 <= j < before.len() && geometry(#[trigger] before[j]) is Some
                            ==> match position {
                            SidebarPosition::Left => best.left <= geometry(before[j])->0.left && (j
                                < k ==> best.left < geometry(before[j])->0.left),
                            SidebarPosition::Right => geometry(before[j])->0.right_edge()
                                <= best.right_edge() && (j > k ==> geometry(
                                before[j],
                            )->0.right_edge() < best.right_edge()),
                        });
                assert(geometry(lines[k]) == Some(best));
                assert forall|j: int|
                    0 <= j < lines.len() && geometry(#[trigger] lines[j]) is Some implies match position {
                    SidebarPosition::Left => best.left <= geometry(lines[j])->0.left && (j < k
                        ==> best.left < geometry(lines[j])->0.left),
                    SidebarPosition::Right => geometry(lines[j])->0.right_edge()
                        <= best.right_edge() && (j > k ==> geometry(lines[j])->0.right_edge()
                        < best.right_edge()),
                } by {
                    if j < last {
                        assert(lines[j] == before[j]);
                    }
                }
            }
        }
    }
}

/// The sidebar is on the right exactly where the setting spells `right`, in
/// capital or small letters and with white space around it.
pub proof fn only_right_is_right(setting: Seq<char>)
    ensures
        ({
            let word = strings::trimmed(setting);
            SidebarPosition::of_setting(setting) == SidebarPosition::Right <==> {
                &&& word.len() == 5
                &&& (word[0] == 'r' || word[0] == 'R')
                &&& (word[1] == 'i' || word[1] == 'I')
                &&& (word[2] == 'g' || word[2] == 'G')
                &&& (word[3] == 'h' || word[3] == 'H')
                &&& (word[4] == 't' || word[4] == 'T')
            }
        }),
        split_flags(SidebarPosition::Left) == "-hfb"@,
        split_flags(SidebarPosition::Right) == "-hf"@,
{
    reveal_strlit("right");
    let word = strings::trimmed(setting);
    let low = strings::lowered(word);
    if word.len() == 5 && (word[0] == 'r' || word[0] == 'R') && (word[1] == 'i' || word[1] == 'I')
        && (word[2] == 'g' || word[2] == 'G') && (word[3] == 'h' || word[3] == 'H') && (word[4]
        == 't' || word[4] == 'T') {
        assert(low =~= "right"@);
    }
    if low == "right"@ {
        assert("right"@.len() == 5);
        assert(low.len() == word.len());
        assert(low[0] == 'r' && low[1] == 'i' && low[2] == 'g' && low[3] == 'h' && low[4] == 't');
    }
}

/// A share is the largest whole number of columns within the percentage, as long
/// as the product is in range.
pub proof fn shares_are_rounded_down(total: nat, percent: nat)
    requires
        total * percent <= u32::MAX,
    ensures
        share(total, percent) * 100 <= total * percent < share(total, percent) * 100 + 100,
{
}

/// A setting of so many columns resolves to them in any window, and a setting of
/// a percentage to that share of a known window, one column at least. Nothing is
/// made of zero, of an unknown window, or of anything else.
pub proof fn settings_resolve_to_what_they_say(
    n: nat,
    window_width: nat,
    text: Seq<char>,
    left: Seq<char>,
    right: Seq<char>,
)
    requires
        n <= u32::MAX,
        strings::blank(left),
        strings::blank(right),
    ensures
        n > 0 ==> resolved_width(left + numbers::decimal(n) + right, window_width) == Some(n),
        n == 0 ==> resolved_width(left + numbers::decimal(n) + right, window_width) is None,
        n > 0 && 0 < window_width && window_width * n <= u32::MAX ==> ({
            let width = resolved_width(
                left + numbers::decimal(n).push('%') + right,
                window_width,
            )->0;
            &&& resolved_width(left + numbers::decimal(n).push('%') + right, window_width) is Some
            &&& window_width * n >= 100 ==> width * 100 <= window_width * n < width * 100 + 100
            &&& window_width * n < 100 ==> width == 1
        }),
        n > 0 && window_width * n > u32::MAX ==> resolved_width(
            left + numbers::decimal(n).push('%') + right,
            window_width,
        ) == Some(u32::MAX as nat / 100),
        n == 0 || window_width == 0 ==> resolved_width(
            left + numbers::decimal(n).push('%') + right,
            window_width,
        ) is None,
        numbers::parsed(strings::trimmed(text), u32::MAX as nat) is None && (strings::trimmed(
            text,
        ).len() == 0 || strings::trimmed(text).last() != '%') ==> resolved_width(
            text,
            window_width,
        ) is None,
{
    let plain = numbers::decimal(n);
    let percent = plain.push('%');
    numbers::decimals_are_plain(n, '%');
    numbers::decimal_round_trips(n, u32::MAX as nat);
    assert(!strings::is_whitespace(plain[0]));
    assert(!strings::is_whitespace(plain[plain.len() - 1]));
    strings::padding_is_trimmed(left, plain, right);
    assert(plain.last() != '%') by {
        assert(plain[plain.len() - 1] == plain.last());
    }
    assert(percent.first() == plain[0]);
    strings::padding_is_trimmed(left, percent, right);
    assert(percent.drop_last() =~= plain);
}

/// A sidebar, a main area and a border of one column fit into a window exactly
/// where the window is as wide as the three together.
pub proof fn what_fits_adds_up(window_width: nat, sidebar_width: nat, main_min_width: nat)
    requires
        sidebar_width + main_min_width + 1 <= u32::MAX,
    ensures
        fits(window_width, sidebar_width, main_min_width) <==> sidebar_width + main_min_width + 1
            <= window_width,
{
}

/// A width may be dragged to exactly where it is at most the maximum, at most the
/// share of the window, and leaves the main area and the border their columns.
pub proof fn drags_end_at_the_nearest_limit(
    width: nat,
    window_width: nat,
    max_width: nat,
    max_percent: nat,
    main_min_width: nat,
)
    requires
        0 < width,
        main_min_width < u32::MAX,
        window_width * max_percent <= u32::MAX,
    ensures
        width <= drag_limit(window_width, max_width, max_percent, main_min_width) <==> width
            <= max_width && width * 100 <= window_width * max_percent && width + main_min_width + 1
            <= window_width,
{
}

/// A reported width differs from the wanted one exactly where it is the number of
/// other columns; a report that is no number tells nothing.
pub proof fn reported_widths_are_compared_as_numbers(current: nat, desired: nat, text: Seq<char>)
    requires
        current <= u32::MAX,
    ensures
        width_differs(numbers::decimal(current), desired) <==> current != desired,
        numbers::parsed(strings::trimmed(text), u32::MAX as nat) is None ==> !width_differs(
            text,
            desired,
        ),
{
    numbers::decimals_are_plain(current, ' ');
    numbers::decimal_round_trips(current, u32::MAX as nat);
}

/// A window in which only sidebars are left goes whenever the session has another
/// window, whatever its clients, and where it has none, as long as one client at
/// most is attached. The listing is told as any number of `sidebar` lines.
pub proof fn lone_sidebars_are_closed(
    output: Seq<char>,
    windows: u32,
    clients: Option<u32>,
)
    requires
        strings::trimmed(output).len() > 0,
        forall|i: int|
            0 <= i < fields::lines(output).len() ==> #[trigger] fields::lines(output)[i]
                == "sidebar"@,
    ensures
        windows > 1 ==> closes_window(Some(output), Some(windows), clients),
        windows == 1 ==> (closes_window(Some(output), Some(windows), clients) <==> clients
            == Some(0u32) || clients == Some(1u32)),
        windows == 0 ==> !closes_window(Some(output), Some(windows), clients),
        !closes_window(Some(output), None, clients),
        !closes_window(None, Some(windows), clients),
{
}

/// A window with any other pane stays, and so does one whose listing is blank.
pub proof fn other_panes_keep_the_window(
    output: Seq<char>,
    i: int,
    windows: Option<u32>,
    clients: Option<u32>,
)
    requires
        strings::blank(output) || (0 <= i < fields::lines(output).len() && fields::lines(output)[i]
            != "sidebar"@),
    ensures
        !closes_window(Some(output), windows, clients),
{
    let none = Seq::<char>::empty();
    if strings::blank(output) {
        strings::padding_is_trimmed(output, none, none);
        assert(output + none + none =~= output);
    }
}

/// A window is too narrow for hooks exactly where its width is known and below the
/// minimum.
pub proof fn only_known_narrow_windows_are_too_narrow(min_width: nat, window_width: nat)
    ensures
        0 < window_width < min_width ==> too_narrow(min_width, window_width),
        window_width >= min_width ==> !too_narrow(min_width, window_width),
        !too_narrow(min_width, 0),
{
}

/// The range of a drag holds exactly the widths between the limits that stay
/// within the share of the window and leave the main area and the border their
/// columns; there is no range where no width does.
pub proof fn drag_ranges_hold_the_allowed_widths(
    width: nat,
    window_width: nat,
    min_width: nat,
    max_width: nat,
    max_percent: nat,
    main_min_width: nat,
)
    requires
        0 < min_width,
        main_min_width < u32::MAX,
        window_width * max_percent <= u32::MAX,
    ensures
        ({
            let limits = drag_limits(
                window_width,
                min_width,
                max_width,
                max_percent,
                main_min_width,
            );
            let held = limits is Some && (limits->0).0 <= width <= (limits->0).1;
            held <==> min_width <= width <= max_width && width * 100 <= window_width * max_percent
                && width + main_min_width + 1 <= window_width
        }),
{
    if width > 0 {
        drags_end_at_the_nearest_limit(
            width,
            window_width,
            max_width,
            max_percent,
            main_min_width,
        );
    }
}

} // verus!
