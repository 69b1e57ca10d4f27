//! Queries about panes: the sidebar's own, and the focused one beside it.

use vstd::prelude::*;

use crate::text::fields;
use crate::text::numbers;
use crate::text::strings;
use crate::tmux::step;
use crate::tmux::step::Step;
#[allow(unused_imports)]
use crate::tmux::step::StepView;

verus! {

// ---- the sidebar's own pane ----

/// Width of a sidebar pane whose size is unknown.
pub const DEFAULT_PANE_WIDTH: u16 = 28;

/// Height of a sidebar pane whose size is unknown.
pub const DEFAULT_PANE_HEIGHT: u16 = 24;

/// The request for the state of the sidebar pane.
pub fn sidebar_pane_info_request(tmux_pane: &str) -> (next: Step)
    ensures
        next@ == step::display(
            tmux_pane@,
            "#{pane_active} #{window_active} #{session_attached} #{pane_width} #{pane_height}"@,
        ),
{
    step::ask(
        tmux_pane,
        "#{pane_active} #{window_active} #{session_attached} #{pane_width} #{pane_height}",
    )
}

/// The 16-bit number that `s` denotes, or `default`.
pub open spec fn size_or(s: Seq<char>, default: u16) -> u16 {
    match numbers::parsed(s, u16::MAX as nat) {
        Some(value) => value as u16,
        None => default,
    }
}

/// Whether the pane is active, whether its window is, whether a client is
/// attached to its session, its width and its height, from a reply of five
/// fields.
pub open spec fn pane_info(out: Seq<char>) -> (bool, bool, bool, u16, u16) {
    let parts = fields::fields(out, ' ', Some(5));
    if parts.len() >= 5 {
        (
            parts[0] == "1"@,
            parts[1] == "1"@,
            parts[2] != "0"@ && parts[2].len() > 0,
            size_or(parts[3], DEFAULT_PANE_WIDTH),
            size_or(parts[4], DEFAULT_PANE_HEIGHT),
        )
    } else {
        (false, false, false, DEFAULT_PANE_WIDTH, DEFAULT_PANE_HEIGHT)
    }
}

/// Reads a 16-bit number, or falls back on `default`.
fn read_size(s: &str, default: u16) -> (value: u16)
    ensures
        value == size_or(s@, default),
{
    match numbers::parse_u16(s) {
        Some(value) => value,
        None => default,
    }
}

/// Reads the state of the sidebar pane: whether it is active, whether its
/// window is, whether a client is attached to its session, and its size. A
/// session counts as attached with any number of clients but `0`.
pub fn get_sidebar_pane_info(out: &str) -> (info: (bool, bool, bool, u16, u16))
    ensures
        info == pane_info(out@),
{
    let parts = fields::split_fields(out, ' ', Some(5));
    let ghost all = strings::texts(parts@);
    assert(all.len() == parts@.len());
    if parts.len() >= 5 {
        assert(all[0] == parts@[0]@ && all[1] == parts@[1]@ && all[2] == parts@[2]@);
        assert(all[3] == parts@[3]@ && all[4] == parts@[4]@);
        (
            strings::same_text(parts[0].as_str(), "1"),
            strings::same_text(parts[1].as_str(), "1"),
            !strings::same_text(parts[2].as_str(), "0") && !parts[2].as_str().is_empty(),
            read_size(parts[3].as_str(), DEFAULT_PANE_WIDTH),
            read_size(parts[4].as_str(), DEFAULT_PANE_HEIGHT),
        )
    } else {
        (false, false, false, DEFAULT_PANE_WIDTH, DEFAULT_PANE_HEIGHT)
    }
}

// ---- working directories ----

/// The request for the working directory of a pane.
pub fn pane_path_request(pane_id: &str) -> (next: Step)
    ensures
        next@ == step::display(pane_id@, "#{pane_current_path}"@),
{
    step::ask(pane_id, "#{pane_current_path}")
}

/// The working directory in a reply, as text.
pub open spec fn path_in(out: Seq<char>) -> Option<Seq<char>> {
    if out.len() > 0 {
        Some(out)
    } else {
        None
    }
}

/// The working directory in a reply; an empty one is none.
pub fn get_pane_path(out: String) -> (path: Option<String>)
    ensures
        path == (if out@.len() > 0 {
            Some(out)
        } else {
            None
        }),
        strings::opt_text(path) == path_in(out@),
{
    if out.as_str().is_empty() {
        None
    } else {
        Some(out)
    }
}

// ---- the focused pane ----

/// A pane of the active window, as mathematical values.
#[verifier::ext_equal]
pub struct PaneView {
    pub pane_id: Seq<char>,
    pub active: bool,
    pub last: bool,
    pub path: Seq<char>,
}

/// The panes in a list of `(pane_id, active, last, path)`.
pub open spec fn pane_views(panes: Seq<(String, bool, bool, String)>) -> Seq<PaneView> {
    Seq::new(
        panes.len(),
        |i: int|
            PaneView {
                pane_id: panes[i].0@,
                active: panes[i].1,
                last: panes[i].2,
                path: panes[i].3@,
            },
    )
}

/// The request for the panes of the active window.
pub fn active_window_panes_request() -> (next: Step)
    ensures
        next@ == step::tmux(
            seq![
                "list-panes"@,
                "-F"@,
                "#{pane_id}|#{pane_active}|#{pane_last}|#{pane_current_path}"@,
            ],
        ),
{
    let next = step::run(
        &["list-panes", "-F", "#{pane_id}|#{pane_active}|#{pane_last}|#{pane_current_path}"],
    );
    assert(next@ =~~= step::tmux(
        seq![
            "list-panes"@,
            "-F"@,
            "#{pane_id}|#{pane_active}|#{pane_last}|#{pane_current_path}"@,
        ],
    ));
    next
}

/// The pane in a `pane_id|active|last|path` line; the path may hold separators.
pub open spec fn pane_line(line: Seq<char>) -> Option<PaneView> {
    let parts = fields::fields(line, '|', Some(4));
    if parts.len() < 4 {
        None
    } else {
        Some(
            PaneView {
                pane_id: parts[0],
                active: parts[1] == "1"@,
                last: parts[2] == "1"@,
                path: parts[3],
            },
        )
    }
}

/// The panes in a list of lines, in order; other lines are skipped.
pub open spec fn panes_in(lines: Seq<Seq<char>>) -> Seq<PaneView>
    decreases lines.len(),
{
    if lines.len() == 0 {
        Seq::empty()
    } else {
        let head = panes_in(lines.drop_last());
        match pane_line(lines.last()) {
            Some(pane) => head.push(pane),
            None => head,
        }
    }
}

/// The panes of the active window in a reply; a failed request has none.
pub open spec fn window_panes(output: Option<Seq<char>>) -> Seq<PaneView> {
    match output {
        Some(text) => panes_in(fields::lines(text)),
        None => Seq::empty(),
    }
}

/// The text of an optional string slice.
pub open spec fn slice_text(s: Option<&str>) -> Option<Seq<char>> {
    match s {
        Some(t) => Some(t@),
        None => None,
    }
}

/// Reads the panes of the active window: `(pane_id, active, last, path)`, where
/// `last` marks the pane that was active before. All panes are listed, not only
/// those of agents.
pub fn query_active_window_panes(output: Option<&str>) -> (panes: Vec<
    (String, bool, bool, String),
>)
    ensures
        pane_views(panes@) == window_panes(slice_text(output)),
{
    let mut panes: Vec<(String, bool, bool, String)> = Vec::new();
    assert(pane_views(panes@) =~= Seq::<PaneView>::empty());
    let text = match output {
        Some(text) => text,
        None => return panes,
    };
    let lines = fields::split_lines(text);
    let ghost all = strings::texts(lines@);
    for i in 0..lines.len()
        invariant
            all == strings::texts(lines@),
            pane_views(panes@) == panes_in(all.take(i as int)),
    {
        let ghost before = pane_views(panes@);
        assert(all.take(i + 1).drop_last() == all.take(i as int));
        assert(all.take(i + 1).last() == lines@[i as int]@);
        let parts = fields::split_fields(lines[i].as_str(), '|', Some(4));
        let ghost texts = strings::texts(parts@);
        proof {
            fields::lemma_fields_count(lines@[i as int]@, '|', Some(4));
        }
        assert(texts.len() == parts@.len());
        if parts.len() >= 4 {
            assert(texts[0] == parts@[0]@ && texts[1] == parts@[1]@);
            assert(texts[2] == parts@[2]@ && texts[3] == parts@[3]@);
            let active = strings::same_text(parts[1].as_str(), "1");
            let last = strings::same_text(parts[2].as_str(), "1");
            panes.push((parts[0].clone(), active, last, parts[3].clone()));
            assert(pane_views(panes@) =~= before.push(
                PaneView { pane_id: texts[0], active, last, path: texts[3] },
            ));
        }
    }
    assert(all.take(all.len() as int) == all);
    panes
}

/// Whether a pane may be shown as focused: it is not the sidebar and has a
/// working directory.
pub open spec fn eligible(sidebar_pane: Seq<char>, pane: PaneView) -> bool {
    pane.pane_id != sidebar_pane && pane.path.len() > 0
}

/// Whether an eligible pane is active, or, with `previous`, was active before.
pub open spec fn wanted(sidebar_pane: Seq<char>, previous: bool, pane: PaneView) -> bool {
    eligible(sidebar_pane, pane) && if previous {
        pane.last
    } else {
        pane.active
    }
}

/// The first wanted pane.
pub open spec fn first_pane(
    sidebar_pane: Seq<char>,
    previous: bool,
    panes: Seq<PaneView>,
) -> Option<PaneView>
    decreases panes.len(),
{
    if panes.len() == 0 {
        None
    } else if wanted(sidebar_pane, previous, panes.first()) {
        Some(panes.first())
    } else {
        first_pane(sidebar_pane, previous, panes.drop_first())
    }
}

/// The focused pane beside the sidebar: the active one, or else the one that
/// was active before.
pub open spec fn focused(sidebar_pane: Seq<char>, panes: Seq<PaneView>) -> Option<PaneView> {
    match first_pane(sidebar_pane, false, panes) {
        Some(pane) => Some(pane),
        None => first_pane(sidebar_pane, true, panes),
    }
}

/// Finds the first wanted pane.
fn find_pane(
    sidebar_pane: &str,
    panes: &[(String, bool, bool, String)],
    previous: bool,
) -> (found: Option<(String, String)>)
    ensures
        match (found, first_pane(sidebar_pane@, previous, pane_views(panes@))) {
            (Some((pane_id, path)), Some(pane)) => pane_id@ == pane.pane_id && path@ == pane.path,
            (None, None) => true,
            _ => false,
        },
{
    let ghost all = pane_views(panes@);
    assert(all.skip(0) == all);
    for i in 0..panes.len()
        invariant
            all == pane_views(panes@),
            first_pane(sidebar_pane@, previous, all) == first_pane(
                sidebar_pane@,
                previous,
                all.skip(i as int),
            ),
    {
        let pane = &panes[i];
        assert(all.skip(i as int).first() == all[i as int]);
        assert(all.skip(i as int).drop_first() == all.skip(i + 1));
        let marked = if previous {
            pane.2
        } else {
            pane.1
        };
        if marked && !strings::same_text(pane.0.as_str(), sidebar_pane)
            && !pane.3.as_str().is_empty() {
            return Some((pane.0.clone(), pane.3.clone()));
        }
    }
    None
}

/// Picks the focused pane beside the sidebar, with its working directory. The
/// active pane comes first; where the sidebar itself has the focus, the pane
/// that was active before takes its place.
pub fn pick_active_pane(
    sidebar_pane: &str,
    panes: &[(String, bool, bool, String)],
) -> (found: Option<(String, String)>)
    ensures
        match (found, focused(sidebar_pane@, pane_views(panes@))) {
            (Some((pane_id, path)), Some(pane)) => pane_id@ == pane.pane_id && path@ == pane.path,
            (None, None) => true,
            _ => false,
        },
{
    match find_pane(sidebar_pane, panes, false) {
        Some(pane) => Some(pane),
        None => find_pane(sidebar_pane, panes, true),
    }
}

/// Finds the focused pane beside the sidebar in a listing of the active window.
pub fn find_active_pane(sidebar_pane: &str, output: Option<&str>) -> (found: Option<
    (String, String),
>)
    ensures
        match (found, focused(sidebar_pane@, window_panes(slice_text(output)))) {
            (Some((pane_id, path)), Some(pane)) => pane_id@ == pane.pane_id && path@ == pane.path,
            (None, None) => true,
            _ => false,
        },
{
    let panes = query_active_window_panes(output);
    pick_active_pane(sidebar_pane, panes.as_slice())
}

/// Finds the working directory of the focused pane.
pub fn focused_pane_path(sidebar_pane: &str, output: Option<&str>) -> (path: Option<String>)
    ensures
        match (path, focused(sidebar_pane@, window_panes(slice_text(output)))) {
            (Some(path), Some(pane)) => path@ == pane.path,
            (None, None) => true,
            _ => false,
        },
{
    match find_active_pane(sidebar_pane, output) {
        Some((_, path)) => Some(path),
        None => None,
    }
}

// ---- laws ----

proof fn lemma_first_pane(sidebar_pane: Seq<char>, previous: bool, panes: Seq<PaneView>)
    ensures
        match first_pane(sidebar_pane, previous, panes) {
            Some(pane) => wanted(sidebar_pane, previous, pane) && panes.contains(pane),
            None => forall|i: int|
                0 <= i < panes.len() ==> !wanted(sidebar_pane, previous, #[trigger] panes[i]),
        },
    decreases panes.len(),
{
    if panes.len() > 0 {
        let rest = panes.drop_first();
        lemma_first_pane(sidebar_pane, previous, rest);
        assert(panes[0] == panes.first());
        match first_pane(sidebar_pane, previous, rest) {
            Some(pane) => {
                let i = choose|i: int| 0 <= i < rest.len() && rest[i] == pane;
                assert(panes[i + 1] == pane);
            },
            None => {
                assert forall|i: int| 1 <= i < panes.len() implies !wanted(
                    sidebar_pane,
                    previous,
                    #[trigger] panes[i],
                ) by {
                    assert(rest[i - 1] == panes[i]);
                }
            },
        }
    }
}

/// The sidebar never counts as focused, and neither does a pane without a
/// working directory. A focused pane is a pane of the window; there is none
/// only where no eligible pane is active or was active before.
pub proof fn sidebar_is_never_focused(sidebar_pane: Seq<char>, panes: Seq<PaneView>)
    ensures
        match focused(sidebar_pane, panes) {
            Some(pane) => panes.contains(pane) && pane.pane_id != sidebar_pane && pane.path.len() > 0
                && (pane.active || pane.last),
            None => forall|i: int|
                0 <= i < panes.len() ==> !(eligible(sidebar_pane, #[trigger] panes[i]) && (
                panes[i].active || panes[i].last)),
        },
{
    lemma_first_pane(sidebar_pane, false, panes);
    lemma_first_pane(sidebar_pane, true, panes);
}

/// An eligible active pane is preferred to any pane that was active before.
pub proof fn active_pane_comes_first(sidebar_pane: Seq<char>, panes: Seq<PaneView>, i: int)
    requires
        0 <= i < panes.len(),
        panes[i].active,
        eligible(sidebar_pane, panes[i]),
    ensures
        focused(sidebar_pane, panes) is Some,
        focused(sidebar_pane, panes)->0.active,
{
    lemma_first_pane(sidebar_pane, false, panes);
    assert(wanted(sidebar_pane, false, panes[i]));
}

/// A reply on the sidebar's pane tells each thing by a field of its own: the pane
/// and its window are active where theirs is `1`, a client is attached where the
/// count is neither `0` nor empty, and the width and the height are the numbers at
/// the end. A size that is no number is 28 by 24.
pub proof fn pane_replies_tell_each_thing(
    active: Seq<char>,
    window: Seq<char>,
    clients: Seq<char>,
    width: Seq<char>,
    height: Seq<char>,
)
    requires
        !active.contains(' '),
        !window.contains(' '),
        !clients.contains(' '),
        !width.contains(' '),
    ensures
        ({
            let info = pane_info(
                active.push(' ') + (window.push(' ') + (clients.push(' ') + (width.push(' ')
                    + height))),
            );
            &&& info.0 <==> active == "1"@
            &&& info.1 <==> window == "1"@
            &&& info.2 <==> clients != "0"@ && clients.len() > 0
            &&& numbers::parsed(width, u16::MAX as nat) matches Some(n) ==> info.3 == n
            &&& numbers::parsed(width, u16::MAX as nat) is None ==> info.3 == 28
            &&& numbers::parsed(height, u16::MAX as nat) matches Some(n) ==> info.4 == n
            &&& numbers::parsed(height, u16::MAX as nat) is None ==> info.4 == 24
        }),
        pane_info(active.push(' ') + (window.push(' ') + (clients.push(' ') + width))) == (
            false,
            false,
            false,
            28u16,
            24u16,
        ),
        pane_info(Seq::empty()) == (false, false, false, 28u16, 24u16),
{
    let r3 = width.push(' ') + height;
    let r2 = clients.push(' ') + r3;
    let r1 = window.push(' ') + r2;
    fields::one_field_is_the_text(height, ' ', Some(1));
    fields::first_field_splits_off(width, ' ', height, Some(2));
    fields::first_field_splits_off(clients, ' ', r3, Some(3));
    fields::first_field_splits_off(window, ' ', r2, Some(4));
    fields::first_field_splits_off(active, ' ', r1, Some(5));
    let parts = fields::fields(active.push(' ') + r1, ' ', Some(5));
    assert(parts =~= seq![active, window, clients, width, height]);
    let s2 = clients.push(' ') + width;
    let s1 = window.push(' ') + s2;
    fields::one_field_is_the_text(width, ' ', Some(2));
    fields::first_field_splits_off(clients, ' ', width, Some(3));
    fields::first_field_splits_off(window, ' ', s2, Some(4));
    fields::first_field_splits_off(active, ' ', s1, Some(5));
    fields::one_field_is_the_text(Seq::empty(), ' ', Some(5));
}

/// A line on a pane tells its id, whether it is active, whether it was active
/// before, and its directory, which may itself hold separators; a line with fewer
/// fields tells of none.
pub proof fn pane_lines_tell_each_thing(
    pane_id: Seq<char>,
    active: Seq<char>,
    last: Seq<char>,
    path: Seq<char>,
)
    requires
        !pane_id.contains('|'),
        !active.contains('|'),
        !last.contains('|'),
    ensures
        ({
            let told = pane_line(
                pane_id.push('|') + (active.push('|') + (last.push('|') + path)),
            );
            &&& told is Some
            &&& told->0.pane_id == pane_id
            &&& told->0.active <==> active == "1"@
            &&& told->0.last <==> last == "1"@
            &&& told->0.path == path
        }),
        pane_line(pane_id.push('|') + (active.push('|') + last)) is None,
{
    let r2 = last.push('|') + path;
    let r1 = active.push('|') + r2;
    fields::one_field_is_the_text(path, '|', Some(1));
    fields::first_field_splits_off(last, '|', path, Some(2));
    fields::first_field_splits_off(active, '|', r2, Some(3));
    fields::first_field_splits_off(pane_id, '|', r1, Some(4));
    let parts = fields::fields(pane_id.push('|') + r1, '|', Some(4));
    assert(parts =~= seq![pane_id, active, last, path]);
    let s1 = active.push('|') + last;
    fields::one_field_is_the_text(last, '|', Some(2));
    fields::first_field_splits_off(active, '|', last, Some(3));
    fields::first_field_splits_off(pane_id, '|', s1, Some(4));
}

/// Panes are listed in the order of their lines, and lines that tell of none do
/// not count.
pub proof fn panes_are_listed_in_order(lines: Seq<Seq<char>>, line: Seq<char>)
    ensures
        pane_line(line) matches Some(pane) ==> panes_in(lines.push(line)) == panes_in(lines).push(
            pane,
        ),
        pane_line(line) is None ==> panes_in(lines.push(line)) == panes_in(lines),
        panes_in(Seq::empty()).len() == 0,
        window_panes(None).len() == 0,
{
    assert(lines.push(line).drop_last() =~= lines);
}

/// The focused pane is the first active one that is neither the sidebar nor
/// without a directory; where there is none, it is the first such pane that was
/// active before.
pub proof fn the_first_fitting_pane_is_focused(
    sidebar_pane: Seq<char>,
    before: Seq<PaneView>,
    pane: PaneView,
    after: Seq<PaneView>,
)
    requires
        pane.pane_id != sidebar_pane,
        pane.path.len() > 0,
    ensures
        pane.active && (forall|i: int|
            0 <= i < before.len() ==> !((#[trigger] before[i]).active && before[i].pane_id
                != sidebar_pane && before[i].path.len() > 0)) ==> focused(
            sidebar_pane,
            before + seq![pane] + after,
        ) == Some(pane),
        pane.last && !pane.active && (forall|i: int|
            0 <= i < before.len() ==> !(((#[trigger] before[i]).active || before[i].last)
                && before[i].pane_id != sidebar_pane && before[i].path.len() > 0)) && (forall|
            i: int,
        |
            0 <= i < after.len() ==> !((#[trigger] after[i]).active && after[i].pane_id
                != sidebar_pane && after[i].path.len() > 0)) ==> focused(
            sidebar_pane,
            before + seq![pane] + after,
        ) == Some(pane),
{
    let all = before + seq![pane] + after;
    if pane.active && (forall|i: int|
        0 <= i < before.len() ==> !((#[trigger] before[i]).active && before[i].pane_id
            != sidebar_pane && before[i].path.len() > 0)) {
        lemma_first_wanted(sidebar_pane, false, before, pane, after);
    } else if pane.last && !pane.active && (forall|i: int|
        0 <= i < before.len() ==> !(((#[trigger] before[i]).active || before[i].last)
            && before[i].pane_id != sidebar_pane && before[i].path.len() > 0)) && (forall|i: int|
        0 <= i < after.len() ==> !((#[trigger] after[i]).active && after[i].pane_id
            != sidebar_pane && after[i].path.len() > 0)) {
        lemma_first_wanted(sidebar_pane, true, before, pane, after);
        lemma_first_pane(sidebar_pane, false, all);
        if let Some(found) = first_pane(sidebar_pane, false, all) {
            let i = choose|i: int| 0 <= i < all.len() && all[i] == found;
            if i < before.len() {
                assert(all[i] == before[i]);
            } else if i > before.len() {
                assert(all[i] == after[i - before.len() - 1]);
            }
            assert(false);
        }
    }
}

proof fn lemma_first_wanted(
    sidebar_pane: Seq<char>,
    previous: bool,
    before: Seq<PaneView>,
    pane: PaneView,
    after: Seq<PaneView>,
)
    requires
        wanted(sidebar_pane, previous, pane),
        forall|i: int| 0 <= i < before.len() ==> !wanted(sidebar_pane, previous, #[trigger] before[i]),
    ensures
        first_pane(sidebar_pane, previous, before + seq![pane] + after) == Some(pane),
    decreases before.len(),
{
    let all = before + seq![pane] + after;
    if before.len() == 0 {
        assert(all.first() == pane);
    } else {
        let rest = before.drop_first();
        assert(all.first() == before[0]);
        assert(all.drop_first() =~= rest + seq![pane] + after);
        assert forall|i: int| 0 <= i < rest.len() implies !wanted(
            sidebar_pane,
            previous,
            #[trigger] rest[i],
        ) by {
            assert(rest[i] == before[i + 1]);
        }
        lemma_first_wanted(sidebar_pane, previous, rest, pane, after);
    }
}

/// A directory is taken as it was replied, blanks included, and only an empty
/// reply names none.
pub proof fn directories_are_taken_as_they_are(out: Seq<char>, c: char)
    ensures
        path_in(out.push(c)) == Some(out.push(c)),
        path_in(Seq::empty()) is None,
{
}

} // verus!
