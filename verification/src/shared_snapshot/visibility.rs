//! Which sidebars are on screen.

use vstd::prelude::*;

use crate::text::fields;
use crate::text::map::TextMap;
use crate::text::strings;
use crate::tmux::step;
use crate::tmux::step::Step;

verus! {

/// What tmux says of a sidebar's pane.
#[derive(Debug, Clone, Copy, PartialEq, Eq, Structural)]
pub struct SidebarVisibility {
    pub pane_active: bool,
    pub window_active: bool,
    pub session_attached: bool,
}

/// The format of one line about a pane.
pub const VISIBILITY_FORMAT: &'static str =
    "#{pane_id}|#{pane_active}|#{window_active}|#{session_attached}|#{@pane_role}";

/// The sidebar that a line tells of, if it does.
pub open spec fn sidebar_of(line: Seq<char>) -> Option<(Seq<char>, SidebarVisibility)> {
    let parts = fields::fields(line, '|', Some(6));
    if parts.len() >= 5 && parts[4] == "sidebar"@ {
        Some(
            (
                parts[0],
                SidebarVisibility {
                    pane_active: parts[1] == "1"@,
                    window_active: parts[2] == "1"@,
                    session_attached: parts[3] == "1"@,
                },
            ),
        )
    } else {
        None
    }
}

/// The sidebars in several lines; of two lines on one pane the last counts.
pub open spec fn sidebars_in(lines: Seq<Seq<char>>) -> Map<Seq<char>, SidebarVisibility>
    decreases lines.len(),
{
    if lines.len() == 0 {
        Map::empty()
    } else {
        let head = sidebars_in(lines.drop_last());
        match sidebar_of(lines.last()) {
            Some((pane_id, visibility)) => head.insert(pane_id, visibility),
            None => head,
        }
    }
}

/// The sidebars that tmux told of; none where it gave no answer.
pub open spec fn sidebars_told(output: Option<Seq<char>>) -> Map<Seq<char>, SidebarVisibility> {
    match output {
        Some(text) => sidebars_in(fields::lines(text)),
        None => Map::empty(),
    }
}

/// The question to tmux that tells of all sidebars.
pub fn sidebar_visibility_request() -> (next: Step)
    ensures
        next@ == step::list_all_panes(VISIBILITY_FORMAT@),
{
    step::list_all(VISIBILITY_FORMAT)
}

/// Reads the answer to that question.
pub fn query_sidebar_visibility(output: Option<&str>) -> (told: TextMap<SidebarVisibility>)
    ensures
        told@ == sidebars_told(
            match output {
                Some(text) => Some(text@),
                None => None,
            },
        ),
{
    let mut told: TextMap<SidebarVisibility> = TextMap::new();
    let text = match output {
        Some(text) => text,
        None => {
            return told;
        },
    };
    let list = fields::split_lines(text);
    let ghost all = strings::texts(list@);
    for i in 0..list.len()
        invariant
            all == strings::texts(list@),
            told@ == sidebars_in(all.take(i as int)),
    {
        assert(all.take(i + 1).drop_last() == all.take(i as int));
        assert(all.take(i + 1).last() == list@[i as int]@);
        let parts = fields::split_fields(list[i].as_str(), '|', Some(6));
        let ghost texts = strings::texts(parts@);
        assert(forall|k: int| 0 <= k < parts@.len() ==> parts@[k]@ == #[trigger] texts[k]);
        if parts.len() >= 5 && strings::same_text(parts[4].as_str(), "sidebar") {
            told.insert(
                parts[0].clone(),
                SidebarVisibility {
                    pane_active: strings::same_text(parts[1].as_str(), "1"),
                    window_active: strings::same_text(parts[2].as_str(), "1"),
                    session_attached: strings::same_text(parts[3].as_str(), "1"),
                },
            );
        }
    }
    assert(all.take(all.len() as int) == all);
    told
}

// ---- laws ----

/// A line on a sidebar tells of its pane, and of each flag by the field of that
/// flag alone: it is set exactly where the field is `1`. What stands behind the
/// role does not matter.
pub proof fn sidebar_lines_tell_each_flag(
    pane_id: Seq<char>,
    active: Seq<char>,
    window: Seq<char>,
    session: Seq<char>,
    more: Seq<char>,
)
    requires
        !pane_id.contains('|'),
        !active.contains('|'),
        !window.contains('|'),
        !session.contains('|'),
    ensures
        ({
            let flags = pane_id.push('|') + (active.push('|') + (window.push('|') + session.push(
                '|',
            )));
            let told = sidebar_of(flags + "sidebar"@);
            &&& told matches Some((id, visibility)) && id == pane_id && (visibility.pane_active
                <==> active == seq!['1']) && (visibility.window_active <==> window == seq!['1']) && (
            visibility.session_attached <==> session == seq!['1'])
            &&& sidebar_of(flags + "sidebar"@.push('|') + more) == told
        }),
{
    reveal_strlit("1");
    assert("1"@ =~= seq!['1']);
    let role = "sidebar"@;
    reveal_strlit("sidebar");
    assert(!role.contains('|'));
    let flags = pane_id.push('|') + (active.push('|') + (window.push('|') + session.push('|')));
    lemma_four_fields(pane_id, active, window, session, role);
    lemma_four_fields(pane_id, active, window, session, role.push('|') + more);
    assert(flags + role.push('|') + more =~= flags + (role.push('|') + more));
    fields::one_field_is_the_text(role, '|', Some(2));
    fields::first_field_splits_off(role, '|', more, Some(2));
    fields::one_field_is_the_text(more, '|', Some(1));
}

/// The fields of a line behind four others.
proof fn lemma_four_fields(
    a: Seq<char>,
    b: Seq<char>,
    c: Seq<char>,
    d: Seq<char>,
    rest: Seq<char>,
)
    requires
        !a.contains('|'),
        !b.contains('|'),
        !c.contains('|'),
        !d.contains('|'),
    ensures
        fields::fields(a.push('|') + (b.push('|') + (c.push('|') + d.push('|'))) + rest, '|', Some(6))
            == seq![a, b, c, d] + fields::fields(rest, '|', Some(2)),
{
    let tail = fields::fields(rest, '|', Some(2));
    let ds = d.push('|') + rest;
    let cs = c.push('|') + ds;
    let bs = b.push('|') + cs;
    fields::first_field_splits_off(d, '|', rest, Some(3));
    fields::first_field_splits_off(c, '|', ds, Some(4));
    fields::first_field_splits_off(b, '|', cs, Some(5));
    fields::first_field_splits_off(a, '|', bs, Some(6));
    assert(a.push('|') + (b.push('|') + (c.push('|') + d.push('|'))) + rest =~= a.push('|') + bs);
    assert(seq![a] + (seq![b] + (seq![c] + (seq![d] + tail))) =~= seq![a, b, c, d] + tail);
}

/// A line on a pane of another role, and a line with no role, tell of nothing.
pub proof fn other_lines_tell_nothing(
    pane_id: Seq<char>,
    active: Seq<char>,
    window: Seq<char>,
    session: Seq<char>,
    role: Seq<char>,
)
    requires
        !pane_id.contains('|'),
        !active.contains('|'),
        !window.contains('|'),
        !session.contains('|'),
        !role.contains('|'),
        role != "sidebar"@,
    ensures
        sidebar_of(
            pane_id.push('|') + (active.push('|') + (window.push('|') + session.push('|'))) + role,
        ) is None,
        sidebar_of(
            pane_id.push('|') + (active.push('|') + (window.push('|') + session)),
        ) is None,
{
    lemma_four_fields(pane_id, active, window, session, role);
    fields::one_field_is_the_text(role, '|', Some(2));
    let cs = window.push('|') + session;
    let bs = active.push('|') + cs;
    fields::one_field_is_the_text(session, '|', Some(3));
    fields::first_field_splits_off(window, '|', session, Some(4));
    fields::first_field_splits_off(active, '|', cs, Some(5));
    fields::first_field_splits_off(pane_id, '|', bs, Some(6));
}

/// The last line on a pane counts, and a line on one pane changes nothing of
/// what is known of the others.
pub proof fn last_line_on_a_pane_counts(
    lines: Seq<Seq<char>>,
    line: Seq<char>,
    other: Seq<char>,
)
    ensures
        match sidebar_of(line) {
            Some((pane_id, visibility)) => {
                &&& sidebars_in(lines.push(line)).contains_key(pane_id)
                &&& sidebars_in(lines.push(line))[pane_id] == visibility
                &&& other != pane_id ==> sidebars_in(lines.push(line)).contains_key(other)
                    == sidebars_in(lines).contains_key(other) && sidebars_in(
                    lines.push(line),
                )[other] == sidebars_in(lines)[other]
            },
            None => sidebars_in(lines.push(line)) == sidebars_in(lines),
        },
        sidebars_in(Seq::empty()) == Map::<Seq<char>, SidebarVisibility>::empty(),
{
    assert(lines.push(line).drop_last() =~= lines);
}

/// An answer of one line that tells of a sidebar tells of it alone, and no answer
/// tells of none.
pub proof fn one_line_tells_of_one_sidebar(
    pane_id: Seq<char>,
    active: Seq<char>,
    window: Seq<char>,
    session: Seq<char>,
    other: Seq<char>,
)
    requires
        !pane_id.contains('|') && !pane_id.contains('\n'),
        !active.contains('|') && !active.contains('\n'),
        !window.contains('|') && !window.contains('\n'),
        !session.contains('|') && !session.contains('\n'),
    ensures
        ({
            let flags = pane_id.push('|') + (active.push('|') + (window.push('|') + session.push(
                '|',
            )));
            let told = sidebars_told(Some(flags + "sidebar"@));
            &&& told.contains_key(other) <==> other == pane_id
            &&& told[pane_id].pane_active <==> active == seq!['1']
            &&& told[pane_id].window_active <==> window == seq!['1']
            &&& told[pane_id].session_attached <==> session == seq!['1']
        }),
        !sidebars_told(None).contains_key(other),
{
    let flags = pane_id.push('|') + (active.push('|') + (window.push('|') + session.push('|')));
    let line = flags + "sidebar"@;
    reveal_strlit("sidebar");
    assert(!line.contains('\n')) by {
        assert forall|i: int| 0 <= i < line.len() implies line[i] != '\n' by {
            let a = pane_id.len() as int;
            let b = active.len() as int;
            let c = window.len() as int;
            let d = session.len() as int;
            if i < a {
                assert(line[i] == pane_id[i]);
            } else if a < i < a + 1 + b {
                assert(line[i] == active[i - a - 1]);
            } else if a + 1 + b < i < a + b + c + 2 {
                assert(line[i] == window[i - a - b - 2]);
            } else if a + b + c + 2 < i < a + b + c + d + 3 {
                assert(line[i] == session[i - a - b - c - 3]);
            } else if i > a + b + c + d + 3 {
                assert(line[i] == "sidebar"@[i - a - b - c - d - 4]);
            }
        }
    }
    fields::first_line_splits_off(line, Seq::empty());
    sidebar_lines_tell_each_flag(pane_id, active, window, session, Seq::empty());
    last_line_on_a_pane_counts(Seq::empty(), line, other);
    assert(Seq::<Seq<char>>::empty().push(line) =~= seq![line]);
}

} // verus!
