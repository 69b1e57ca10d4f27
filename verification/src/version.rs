//! Release versions and the notice that a newer one is out.

use std::cmp::Ordering;

use vstd::prelude::*;

use crate::json;
use crate::text::fields;
use crate::text::numbers;
use crate::text::strings;

verus! {

/// Version of this program.
pub const LOCAL_VERSION: &'static str = "0.1.0";

/// A newer release is out.
#[derive(Debug, Clone, PartialEq, Eq)]
pub struct UpdateNotice {
    pub local_version: String,
    pub latest_version: String,
}

// ---- versions ----

/// The version that a release tag names: the tag without surrounding white
/// space and leading `v`s, unless nothing is left.
pub open spec fn normalized(tag: Seq<char>) -> Option<Seq<char>> {
    let version = strings::without_leading(strings::trimmed(tag), 'v');
    if version.len() > 0 {
        Some(version)
    } else {
        None
    }
}

/// Reads the version that a release tag names.
pub fn normalize_version(tag: &str) -> (version: Option<String>)
    ensures
        strings::opt_text(version) == normalized(tag@),
{
    let version = strings::trim_leading(strings::trim(tag), 'v');
    if version.is_empty() {
        None
    } else {
        Some(version.to_owned())
    }
}

/// The number at the start of one part of a version, 0 where there is none or
/// where it is out of range.
pub open spec fn part_number(part: Seq<char>) -> nat {
    match numbers::parsed(numbers::leading_digits(part), u64::MAX as nat) {
        Some(value) => value,
        None => 0,
    }
}

/// The numbers of the dotted parts of a version.
pub open spec fn version_numbers(version: Seq<char>) -> Seq<nat> {
    let parts = fields::fields(strings::without_leading(version, 'v'), '.', None);
    Seq::new(parts.len(), |i: int| part_number(parts[i]))
}

/// The number at a place of a version; a missing one is 0.
pub open spec fn number_at(version: Seq<char>, i: int) -> nat {
    if 0 <= i < version_numbers(version).len() {
        version_numbers(version)[i]
    } else {
        0
    }
}

/// Whether two versions agree at every place before `i`.
pub open spec fn agree_before(left: Seq<char>, right: Seq<char>, i: int) -> bool {
    forall|k: int| 0 <= k < i ==> #[trigger] number_at(left, k) == number_at(right, k)
}

/// Whether `left` is older than `right`: the first place at which they differ
/// holds the smaller number in `left`.
pub open spec fn older(left: Seq<char>, right: Seq<char>) -> bool {
    exists|i: int|
        0 <= i && #[trigger] number_at(left, i) < number_at(right, i) && agree_before(
            left,
            right,
            i,
        )
}

/// Whether two versions have the same numbers.
pub open spec fn same_version(left: Seq<char>, right: Seq<char>) -> bool {
    forall|i: int| 0 <= i ==> #[trigger] number_at(left, i) == number_at(right, i)
}

proof fn lemma_leading_digits(s: Seq<char>, k: int)
    requires
        0 <= k <= s.len(),
        forall|i: int| 0 <= i < k ==> numbers::is_digit(#[trigger] s[i]),
        k < s.len() ==> !numbers::is_digit(s[k]),
    ensures
        numbers::leading_digits(s) == s.take(k),
    decreases k,
{
    if k == 0 {
        assert(s.take(0) =~= Seq::<char>::empty());
    } else {
        let rest = s.drop_first();
        assert forall|i: int| 0 <= i < k - 1 implies numbers::is_digit(#[trigger] rest[i]) by {
            assert(rest[i] == s[i + 1]);
        }
        lemma_leading_digits(rest, k - 1);
        assert(numbers::is_digit(s[0]));
        assert(seq![s.first()] + rest.take(k - 1) =~= s.take(k));
    }
}

/// Reads the number at the start of one part of a version.
fn read_part(part: &str) -> (value: u64)
    ensures
        value == part_number(part@),
{
    let chars = strings::chars_of(part);
    let mut end: usize = 0;
    while end < chars.len() && '0' <= chars[end] && chars[end] <= '9'
        invariant
            end <= chars@.len(),
            forall|i: int| 0 <= i < end ==> numbers::is_digit(#[trigger] chars@[i]),
        decreases chars@.len() - end,
    {
        end = end + 1;
    }
    proof {
        lemma_leading_digits(part@, end as int);
    }
    let digits = part.substring_char(0, end);
    assert(digits@ == part@.take(end as int));
    match numbers::parse_unsigned(digits, u64::MAX) {
        Some(value) => value,
        None => 0,
    }
}

/// Reads the numbers of the dotted parts of a version.
pub fn parse_version_parts(version: &str) -> (parts: Vec<u64>)
    ensures
        parts@.len() == version_numbers(version@).len(),
        forall|i: int| 0 <= i < parts@.len() ==> #[trigger] parts@[i] == version_numbers(version@)[i],
{
    let texts = fields::split_fields(strings::trim_leading(version, 'v'), '.', None);
    let ghost all = fields::fields(strings::without_leading(version@, 'v'), '.', None);
    assert(strings::texts(texts@) == all);
    assert(texts@.len() == all.len());
    let mut parts: Vec<u64> = Vec::new();
    for i in 0..texts.len()
        invariant
            strings::texts(texts@) == all,
            parts@.len() == i,
            forall|k: int| 0 <= k < i ==> #[trigger] parts@[k] == part_number(all[k]),
    {
        assert(all[i as int] == texts@[i as int]@);
        parts.push(read_part(texts[i].as_str()));
    }
    parts
}

/// The number at a place of a list; a missing one is 0.
fn place(parts: &Vec<u64>, i: usize) -> (value: u64)
    ensures
        value == (if i < parts@.len() {
            parts@[i as int]
        } else {
            0
        }),
{
    if i < parts.len() {
        parts[i]
    } else {
        0
    }
}

/// Orders two versions by their numbers; missing ones count as 0.
pub fn compare_versions(left: &str, right: &str) -> (order: Ordering)
    ensures
        (order == Ordering::Less) == older(left@, right@),
        (order == Ordering::Greater) == older(right@, left@),
        (order == Ordering::Equal) == same_version(left@, right@),
{
    let left_parts = parse_version_parts(left);
    let right_parts = parse_version_parts(right);
    let len: usize = if left_parts.len() >= right_parts.len() {
        left_parts.len()
    } else {
        right_parts.len()
    };
    for i in 0..len
        invariant
            left_parts@.len() == version_numbers(left@).len(),
            right_parts@.len() == version_numbers(right@).len(),
            forall|k: int|
                0 <= k < left_parts@.len() ==> #[trigger] left_parts@[k] == version_numbers(left@)[k],
            forall|k: int|
                0 <= k < right_parts@.len() ==> #[trigger] right_parts@[k] == version_numbers(
                    right@,
                )[k],
            forall|k: int| 0 <= k < i ==> #[trigger] number_at(left@, k) == number_at(right@, k),
    {
        let l: u64 = place(&left_parts, i);
        let r: u64 = place(&right_parts, i);
        let ghost at: int = i + 0;
        assert(number_at(left@, at) == l);
        assert(number_at(right@, at) == r);
        if l < r {
            proof {
                assert(agree_before(left@, right@, at));
                assert(older(left@, right@));
                lemma_older_is_one_way(left@, right@);
            }
            return Ordering::Less;
        }
        if l > r {
            proof {
                assert forall|k: int| 0 <= k < at implies #[trigger] number_at(right@, k)
                    == number_at(left@, k) by {
                    assert(number_at(left@, k) == number_at(right@, k));
                }
                assert(agree_before(right@, left@, at));
                assert(older(right@, left@));
                lemma_older_is_one_way(right@, left@);
            }
            return Ordering::Greater;
        }
    }
    proof {
        assert forall|k: int| 0 <= k implies #[trigger] number_at(left@, k) == number_at(
            right@,
            k,
        ) by {}
        lemma_same_is_not_older(left@, right@);
    }
    Ordering::Equal
}

proof fn lemma_older_is_one_way(left: Seq<char>, right: Seq<char>)
    requires
        older(left, right),
    ensures
        !older(right, left),
        !same_version(left, right),
{
    let i = choose|i: int|
        0 <= i && #[trigger] number_at(left, i) < number_at(right, i) && agree_before(
            left,
            right,
            i,
        );
    if older(right, left) {
        let k = choose|k: int|
            0 <= k && #[trigger] number_at(right, k) < number_at(left, k) && agree_before(
                right,
                left,
                k,
            );
        if k < i {
            assert(number_at(left, k) == number_at(right, k));
        } else if i < k {
            assert(number_at(right, i) == number_at(left, i));
        }
    }
}

proof fn lemma_same_is_not_older(left: Seq<char>, right: Seq<char>)
    requires
        same_version(left, right),
    ensures
        !older(left, right),
        !older(right, left),
{
    assert forall|i: int| 0 <= i implies !(#[trigger] number_at(right, i) < number_at(left, i)) by {
        assert(number_at(left, i) == number_at(right, i));
    }
}

// ---- the latest release ----

/// The version of a release from its tag, or from its name where it has no tag.
pub open spec fn released(tag: Option<Seq<char>>, name: Option<Seq<char>>) -> Option<Seq<char>> {
    match tag {
        Some(text) => normalized(text),
        None => match name {
            Some(text) => normalized(text),
            None => None,
        },
    }
}

/// Reads the version of a release from its tag, or from its name where it has
/// no tag.
pub fn release_version(tag: Option<String>, name: Option<String>) -> (version: Option<String>)
    ensures
        strings::opt_text(version) == released(strings::opt_text(tag), strings::opt_text(name)),
{
    match tag {
        Some(text) => normalize_version(text.as_str()),
        None => match name {
            Some(text) => normalize_version(text.as_str()),
            None => None,
        },
    }
}

/// The version in a release document.
pub open spec fn latest_release(document: Seq<u8>) -> Option<Seq<char>> {
    released(
        json::json_text_member(document, "tag_name"@),
        json::json_text_member(document, "name"@),
    )
}

/// Reads the version from a release document.
pub fn fetch_latest_release_version(document: &[u8]) -> (version: Option<String>)
    ensures
        strings::opt_text(version) == latest_release(document@),
{
    release_version(
        json::read_text_member(document, "tag_name"),
        json::read_text_member(document, "name"),
    )
}

/// The running and the released version that a notice names.
pub open spec fn notice_texts(notice: Option<UpdateNotice>) -> Option<(Seq<char>, Seq<char>)> {
    match notice {
        Some(n) => Some((n.local_version@, n.latest_version@)),
        None => None,
    }
}

/// What to notice when `latest` is out and `local` is running: both, where the
/// running version is older.
pub open spec fn noticed(latest: Option<Seq<char>>, local: Seq<char>) -> Option<
    (Seq<char>, Seq<char>),
> {
    match latest {
        Some(version) => if older(local, version) {
            Some((local, version))
        } else {
            None
        },
        None => None,
    }
}

/// The notice to show when `latest` is out and `local` is running.
pub fn update_notice(latest: Option<String>, local: &str) -> (notice: Option<UpdateNotice>)
    ensures
        notice_texts(notice) == noticed(strings::opt_text(latest), local@),
{
    match latest {
        None => None,
        Some(version) => match compare_versions(version.as_str(), local) {
            Ordering::Greater => Some(
                UpdateNotice { local_version: local.to_owned(), latest_version: version },
            ),
            _ => None,
        },
    }
}

/// The notice to show, given what the release service answered. A request that
/// failed shows none.
pub fn fetch_update_notice(document: Option<&[u8]>) -> (notice: Option<UpdateNotice>)
    ensures
        ({
            let latest = match document {
                Some(bytes) => latest_release(bytes@),
                None => None,
            };
            notice_texts(notice) == noticed(latest, LOCAL_VERSION@)
        }),
{
    let latest = match document {
        Some(bytes) => fetch_latest_release_version(bytes),
        None => None,
    };
    update_notice(latest, LOCAL_VERSION)
}

// ---- laws ----

/// Of two versions exactly one is older, or they are the same.
pub proof fn versions_compare_one_way(left: Seq<char>, right: Seq<char>)
    ensures
        older(left, right) || older(right, left) || same_version(left, right),
        !(older(left, right) && older(right, left)),
        !(older(left, right) && same_version(left, right)),
        !(older(right, left) && same_version(left, right)),
{
    if older(left, right) {
        lemma_older_is_one_way(left, right);
    }
    if same_version(left, right) {
        lemma_same_is_not_older(left, right);
    } else {
        let i = choose|i: int| 0 <= i && #[trigger] number_at(left, i) != number_at(right, i);
        lemma_first_difference(left, right, i);
    }
}

proof fn lemma_first_difference(left: Seq<char>, right: Seq<char>, i: int)
    requires
        0 <= i,
        number_at(left, i) != number_at(right, i),
    ensures
        older(left, right) || older(right, left),
    decreases i,
{
    if agree_before(left, right, i) {
        assert forall|k: int| 0 <= k < i implies #[trigger] number_at(right, k) == number_at(
            left,
            k,
        ) by {
            assert(number_at(left, k) == number_at(right, k));
        }
        assert(agree_before(right, left, i));
        if number_at(left, i) < number_at(right, i) {
            assert(older(left, right));
        } else {
            assert(number_at(right, i) < number_at(left, i));
            assert(older(right, left));
        }
    } else {
        let k = choose|k: int| 0 <= k < i && #[trigger] number_at(left, k) != number_at(right, k);
        lemma_first_difference(left, right, k);
    }
}

/// Age is transitive: what is older than an older version is older.
pub proof fn older_is_transitive(a: Seq<char>, b: Seq<char>, c: Seq<char>)
    requires
        older(a, b),
        older(b, c),
    ensures
        older(a, c),
{
    let i = choose|i: int|
        0 <= i && #[trigger] number_at(a, i) < number_at(b, i) && agree_before(a, b, i);
    let k = choose|k: int|
        0 <= k && #[trigger] number_at(b, k) < number_at(c, k) && agree_before(b, c, k);
    let m = if i <= k {
        i
    } else {
        k
    };
    assert forall|j: int| 0 <= j < m implies #[trigger] number_at(a, j) == number_at(c, j) by {
        assert(number_at(b, j) == number_at(c, j));
    }
    assert(agree_before(a, c, m));
    assert(number_at(a, m) <= number_at(b, m));
    assert(number_at(b, m) <= number_at(c, m));
    assert(number_at(a, m) < number_at(c, m));
}

/// A leading `v` says nothing about the age of a version.
pub proof fn release_prefix_is_ignored(version: Seq<char>)
    ensures
        same_version(seq!['v'] + version, version),
{
    let prefixed = seq!['v'] + version;
    assert(prefixed.drop_first() =~= version);
    assert(strings::without_leading(prefixed, 'v') == strings::without_leading(version, 'v'));
}

/// A version with these three numbers.
pub open spec fn release(major: nat, minor: nat, patch: nat) -> Seq<char> {
    numbers::decimal(major).push('.') + (numbers::decimal(minor).push('.') + numbers::decimal(
        patch,
    ))
}

/// The number of a part is the one at its start, whatever follows that is no
/// digit. A part that starts with none counts as 0, and so does one whose number
/// is out of range.
pub proof fn parts_count_by_their_number(n: nat, suffix: Seq<char>)
    requires
        suffix.len() > 0 ==> !('0' <= suffix.first() <= '9'),
    ensures
        n <= u64::MAX ==> part_number(numbers::decimal(n) + suffix) == n,
        n > u64::MAX ==> part_number(numbers::decimal(n) + suffix) == 0,
        part_number(suffix) == 0,
{
    let text = numbers::decimal(n);
    numbers::lemma_decimal(n);
    numbers::decimal_round_trips(n, u64::MAX as nat);
    let whole = text + suffix;
    assert forall|i: int| 0 <= i < text.len() implies numbers::is_digit(#[trigger] whole[i]) by {
        assert(whole[i] == text[i]);
    }
    if suffix.len() > 0 {
        assert(whole[text.len() as int] == suffix.first());
    }
    lemma_leading_digits(whole, text.len() as int);
    assert(whole.take(text.len() as int) =~= text);
    lemma_leading_digits(suffix, 0);
    assert(suffix.take(0) =~= Seq::<char>::empty());
}

/// The numbers of a version with three parts, with whatever follows the last.
pub proof fn releases_have_three_numbers(major: nat, minor: nat, patch: nat, suffix: Seq<char>)
    requires
        major <= u64::MAX,
        minor <= u64::MAX,
        patch <= u64::MAX,
        !suffix.contains('.'),
        suffix.len() > 0 ==> !('0' <= suffix.first() <= '9'),
    ensures
        version_numbers(release(major, minor, patch) + suffix) == seq![major, minor, patch],
        version_numbers(release(major, minor, patch)) == seq![major, minor, patch],
{
    lemma_three_numbers(major, minor, patch, suffix);
    lemma_three_numbers(major, minor, patch, Seq::empty());
    assert(release(major, minor, patch) + Seq::<char>::empty() =~= release(major, minor, patch));
}

proof fn lemma_three_numbers(major: nat, minor: nat, patch: nat, suffix: Seq<char>)
    requires
        major <= u64::MAX,
        minor <= u64::MAX,
        patch <= u64::MAX,
        !suffix.contains('.'),
        suffix.len() > 0 ==> !('0' <= suffix.first() <= '9'),
    ensures
        version_numbers(release(major, minor, patch) + suffix) == seq![major, minor, patch],
{
    let a = numbers::decimal(major);
    let b = numbers::decimal(minor);
    let c = numbers::decimal(patch) + suffix;
    numbers::decimals_are_plain(major, '.');
    numbers::decimals_are_plain(minor, '.');
    numbers::decimals_are_plain(patch, '.');
    numbers::lemma_decimal(major);
    let whole = release(major, minor, patch) + suffix;
    assert(whole =~= a.push('.') + (b.push('.') + c));
    assert(numbers::is_digit(a[0]));
    assert(whole.first() == a[0]);
    assert(strings::without_leading(whole, 'v') == whole);
    assert(!c.contains('.')) by {
        assert forall|i: int| 0 <= i < c.len() implies c[i] != '.' by {
            if i < numbers::decimal(patch).len() {
                assert(c[i] == numbers::decimal(patch)[i]);
            } else {
                assert(c[i] == suffix[i - numbers::decimal(patch).len()]);
            }
        }
    }
    fields::one_field_is_the_text(c, '.', None);
    fields::first_field_splits_off(b, '.', c, None);
    fields::first_field_splits_off(a, '.', b.push('.') + c, None);
    let parts = fields::fields(whole, '.', None);
    assert(parts =~= seq![a, b, c]);
    let none = Seq::<char>::empty();
    parts_count_by_their_number(major, none);
    parts_count_by_their_number(minor, none);
    parts_count_by_their_number(patch, suffix);
    assert(a + none =~= a);
    assert(b + none =~= b);
    assert(version_numbers(whole) =~= seq![major, minor, patch]);
}

/// A release is older than another exactly where its major number is smaller, or
/// that is the same and its minor number is smaller, or both are the same and its
/// patch number is smaller; what follows the numbers does not matter.
pub proof fn releases_are_ordered_by_their_numbers(
    a: (nat, nat, nat),
    b: (nat, nat, nat),
    suffix: Seq<char>,
)
    requires
        a.0 <= u64::MAX && a.1 <= u64::MAX && a.2 <= u64::MAX,
        b.0 <= u64::MAX && b.1 <= u64::MAX && b.2 <= u64::MAX,
        !suffix.contains('.'),
        suffix.len() > 0 ==> !('0' <= suffix.first() <= '9'),
    ensures
        ({
            let left = release(a.0, a.1, a.2) + suffix;
            let right = release(b.0, b.1, b.2);
            &&& older(left, right) <==> a.0 < b.0 || (a.0 == b.0 && (a.1 < b.1 || (a.1 == b.1
                && a.2 < b.2)))
            &&& same_version(left, right) <==> a == b
        }),
{
    let left = release(a.0, a.1, a.2) + suffix;
    let right = release(b.0, b.1, b.2);
    releases_have_three_numbers(a.0, a.1, a.2, suffix);
    releases_have_three_numbers(b.0, b.1, b.2, suffix);
    assert(number_at(left, 0) == a.0 && number_at(left, 1) == a.1 && number_at(left, 2) == a.2);
    assert(number_at(right, 0) == b.0 && number_at(right, 1) == b.1 && number_at(right, 2) == b.2);
    assert(forall|i: int| i >= 3 ==> #[trigger] number_at(left, i) == number_at(right, i));
    if a.0 < b.0 {
        assert(agree_before(left, right, 0));
    } else if a.0 == b.0 && a.1 < b.1 {
        assert(agree_before(left, right, 1));
    } else if a.0 == b.0 && a.1 == b.1 && a.2 < b.2 {
        assert(agree_before(left, right, 2));
    }
}

/// A number that is missing counts as 0, and so does a part without one.
pub proof fn missing_numbers_count_as_zero(major: nat, minor: nat)
    requires
        major <= u64::MAX,
        minor <= u64::MAX,
    ensures
        same_version(
            numbers::decimal(major).push('.') + numbers::decimal(minor),
            release(major, minor, 0),
        ),
{
    let a = numbers::decimal(major);
    let b = numbers::decimal(minor);
    let text = a.push('.') + b;
    let none = Seq::<char>::empty();
    numbers::decimals_are_plain(major, '.');
    numbers::decimals_are_plain(minor, '.');
    numbers::lemma_decimal(major);
    assert(numbers::is_digit(a[0]));
    assert(text.first() == a[0]);
    assert(strings::without_leading(text, 'v') == text);
    fields::one_field_is_the_text(b, '.', None);
    fields::first_field_splits_off(a, '.', b, None);
    parts_count_by_their_number(major, none);
    parts_count_by_their_number(minor, none);
    assert(a + none =~= a);
    assert(b + none =~= b);
    assert(fields::fields(text, '.', None) =~= seq![a, b]);
    assert(version_numbers(text) =~= seq![major, minor]);
    releases_have_three_numbers(major, minor, 0, none);
    assert(version_numbers(release(major, minor, 0)) == seq![major, minor, 0nat]);
}

/// A tag names what is left without the blanks around it and the `v`s at its
/// start; one with nothing else names nothing.
pub proof fn tags_name_their_version(
    left: Seq<char>,
    prefix: nat,
    version: Seq<char>,
    right: Seq<char>,
)
    requires
        strings::blank(left),
        strings::blank(right),
        version.len() > 0 ==> version.first() != 'v' && !strings::is_whitespace(version.first())
            && !strings::is_whitespace(version.last()),
    ensures
        normalized(left + (Seq::new(prefix, |i: int| 'v') + version) + right) == (if version.len()
            > 0 {
            Some(version)
        } else {
            None
        }),
{
    let core = Seq::new(prefix, |i: int| 'v') + version;
    if core.len() > 0 {
        assert(core.first() == 'v' || core.first() == version.first());
        assert(core.last() == 'v' || core.last() == version.last());
    }
    strings::padding_is_trimmed(left, core, right);
    strings::leading_runs_are_dropped('v', prefix, version);
}

/// The tag of a release counts, and its name only where there is no tag.
pub proof fn tags_come_before_names(
    tag: Seq<char>,
    name: Option<Seq<char>>,
    other: Option<Seq<char>>,
    text: Seq<char>,
)
    ensures
        released(Some(tag), name) == released(Some(tag), other),
        released(Some(tag), name) == normalized(tag),
        released(None, Some(text)) == normalized(text),
        released(None, None) is None,
{
}

/// A release is noticed exactly where it is newer than the running version, by
/// both their names; no release is not noticed.
pub proof fn only_newer_releases_are_noticed(local: (nat, nat, nat), latest: (nat, nat, nat))
    requires
        local.0 <= u64::MAX && local.1 <= u64::MAX && local.2 <= u64::MAX,
        latest.0 <= u64::MAX && latest.1 <= u64::MAX && latest.2 <= u64::MAX,
    ensures
        ({
            let running = release(local.0, local.1, local.2);
            let out = release(latest.0, latest.1, latest.2);
            noticed(Some(out), running) == (if local.0 < latest.0 || (local.0 == latest.0 && (
            local.1 < latest.1 || (local.1 == latest.1 && local.2 < latest.2))) {
                Some((running, out))
            } else {
                None
            })
        }),
        noticed(None, release(local.0, local.1, local.2)) is None,
{
    releases_are_ordered_by_their_numbers(local, latest, Seq::empty());
    let running = release(local.0, local.1, local.2);
    assert(running + Seq::<char>::empty() =~= running);
}

} // verus!
