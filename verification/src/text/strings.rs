//! Characters, whitespace and whole-string operations.

use vstd::prelude::*;

verus! {

/// The texts held by a list of strings.
pub open spec fn texts(list: Seq<String>) -> Seq<Seq<char>> {
    Seq::new(list.len(), |i: int| list[i]@)
}

/// The text of an optional string.
pub open spec fn opt_text(s: Option<String>) -> Option<Seq<char>> {
    match s {
        Some(t) => Some(t@),
        None => None,
    }
}

/// `String::push` appends one character at the end.
pub assume_specification[ String::push ](s: &mut String, c: char)
    ensures
        final(s)@ == old(s)@.push(c),
;

/// The characters with the Unicode `White_Space` property.
pub open spec fn is_whitespace(c: char) -> bool {
    ||| '\u{9}' <= c <= '\u{d}'
    ||| c == '\u{20}'
    ||| c == '\u{85}'
    ||| c == '\u{a0}'
    ||| c == '\u{1680}'
    ||| '\u{2000}' <= c <= '\u{200a}'
    ||| c == '\u{2028}'
    ||| c == '\u{2029}'
    ||| c == '\u{202f}'
    ||| c == '\u{205f}'
    ||| c == '\u{3000}'
}

/// Whether `c` is white space.
pub fn whitespace(c: char) -> (yes: bool)
    ensures
        yes == is_whitespace(c),
{
    ('\u{9}' <= c && c <= '\u{d}') || c == '\u{20}' || c == '\u{85}' || c == '\u{a0}' || c
        == '\u{1680}' || ('\u{2000}' <= c && c <= '\u{200a}') || c == '\u{2028}' || c == '\u{2029}'
        || c == '\u{202f}' || c == '\u{205f}' || c == '\u{3000}'
}

/// `s` without its leading white space.
pub open spec fn trimmed_start(s: Seq<char>) -> Seq<char>
    decreases s.len(),
{
    if s.len() > 0 && is_whitespace(s.first()) {
        trimmed_start(s.drop_first())
    } else {
        s
    }
}

/// `s` without its trailing white space.
pub open spec fn trimmed_end(s: Seq<char>) -> Seq<char>
    decreases s.len(),
{
    if s.len() > 0 && is_whitespace(s.last()) {
        trimmed_end(s.drop_last())
    } else {
        s
    }
}

/// `s` without leading and trailing white space.
pub open spec fn trimmed(s: Seq<char>) -> Seq<char> {
    trimmed_end(trimmed_start(s))
}

/// `s` without its leading run of `c`.
pub open spec fn without_leading(s: Seq<char>, c: char) -> Seq<char>
    decreases s.len(),
{
    if s.len() > 0 && s.first() == c {
        without_leading(s.drop_first(), c)
    } else {
        s
    }
}

/// The ASCII lower-case form of `c`; every other character is kept.
pub open spec fn ascii_lower(c: char) -> char {
    if 'A' <= c <= 'Z' {
        ((c as u32) + 32) as char
    } else {
        c
    }
}

/// The ASCII lower-case form of `s`.
pub open spec fn lowered(s: Seq<char>) -> Seq<char> {
    Seq::new(s.len(), |i: int| ascii_lower(s[i]))
}

/// Collects the characters of `s`.
pub fn chars_of(s: &str) -> (chars: Vec<char>)
    ensures
        chars@ == s@,
{
    let mut chars: Vec<char> = Vec::new();
    for c in it: s.chars()
        invariant
            it.seq() == s@,
            chars@ == s@.take(it.index() as int),
    {
        chars.push(c);
    }
    chars
}

/// Whether two strings hold the same text.
pub fn same_text(left: &str, right: &str) -> (same: bool)
    ensures
        same == (left@ == right@),
{
    left.to_owned() == right.to_owned()
}

/// Removes leading and trailing white space.
pub fn trim(s: &str) -> (core: &str)
    ensures
        core@ == trimmed(s@),
{
    let chars = chars_of(s);
    let mut from: usize = 0;
    assert(chars@.skip(0) == chars@);
    while from < chars.len() && whitespace(chars[from])
        invariant
            from <= chars@.len(),
            trimmed_start(chars@) == trimmed_start(chars@.skip(from as int)),
        decreases chars@.len() - from,
    {
        assert(chars@.skip(from as int).drop_first() == chars@.skip(from + 1));
        from = from + 1;
    }
    let ghost rest = chars@.skip(from as int);
    assert(trimmed_start(chars@) == rest);
    let mut to: usize = chars.len();
    assert(chars@.subrange(from as int, to as int) == rest);
    while to > from && whitespace(chars[to - 1])
        invariant
            from <= to <= chars@.len(),
            trimmed_end(rest) == trimmed_end(chars@.subrange(from as int, to as int)),
        decreases to - from,
    {
        assert(chars@.subrange(from as int, to as int).drop_last() == chars@.subrange(
            from as int,
            to - 1,
        ));
        to = to - 1;
    }
    s.substring_char(from, to)
}

/// Removes the leading run of `c`.
pub fn trim_leading(s: &str, c: char) -> (rest: &str)
    ensures
        rest@ == without_leading(s@, c),
{
    let chars = chars_of(s);
    let mut from: usize = 0;
    assert(chars@.skip(0) == chars@);
    while from < chars.len() && chars[from] == c
        invariant
            from <= chars@.len(),
            without_leading(chars@, c) == without_leading(chars@.skip(from as int), c),
        decreases chars@.len() - from,
    {
        assert(chars@.skip(from as int).drop_first() == chars@.skip(from + 1));
        from = from + 1;
    }
    let rest = s.substring_char(from, chars.len());
    assert(rest@ == chars@.skip(from as int));
    rest
}

/// The ASCII lower-case form of one character.
pub fn lower_char(c: char) -> (low: char)
    ensures
        low == ascii_lower(c),
{
    if 'A' <= c && c <= 'Z' {
        let code: u8 = c as u8;
        (code + 32) as char
    } else {
        c
    }
}

/// The ASCII lower-case form of a string.
pub fn lower(s: &str) -> (low: String)
    ensures
        low@ == lowered(s@),
{
    let mut low = String::new();
    for c in it: s.chars()
        invariant
            it.seq() == s@,
            low@ == lowered(s@.take(it.index() as int)),
    {
        low.push(lower_char(c));
        assert(low@ =~= lowered(s@.take(it.index() + 1)));
    }
    assert(s@.take(s@.len() as int) == s@);
    low
}

/// Joins three texts.
pub fn joined(a: &str, b: &str, c: &str) -> (all: String)
    ensures
        all@ == a@ + b@ + c@,
{
    let mut all = a.to_owned();
    all.append(b);
    all.append(c);
    all
}

/// A list of strings with the given texts.
pub fn string_list(parts: &[&str]) -> (list: Vec<String>)
    ensures
        texts(list@) == Seq::new(parts@.len(), |i: int| parts@[i]@),
{
    let mut list: Vec<String> = Vec::new();
    for i in 0..parts.len()
        invariant
            list@.len() == i,
            forall|k: int| 0 <= k < i ==> (#[trigger] list@[k])@ == parts@[k]@,
    {
        list.push(parts[i].to_owned());
    }
    list
}

/// A second list with the same texts.
pub fn copy_list(list: &Vec<String>) -> (same: Vec<String>)
    ensures
        texts(same@) == texts(list@),
{
    let mut same: Vec<String> = Vec::new();
    for i in 0..list.len()
        invariant
            same@.len() == i,
            forall|k: int| 0 <= k < i ==> (#[trigger] same@[k])@ == list@[k]@,
    {
        same.push(list[i].clone());
    }
    assert(texts(same@) =~= texts(list@));
    same
}

/// A trimmed text neither starts nor ends with white space, and trimming it
/// again changes nothing.
pub proof fn trimming_is_idempotent(s: Seq<char>)
    ensures
        trimmed(trimmed(s)) == trimmed(s),
        trimmed(s).len() > 0 ==> !is_whitespace(trimmed(s).first()) && !is_whitespace(
            trimmed(s).last(),
        ),
{
    lemma_trimmed_start(s);
    lemma_trimmed_end(trimmed_start(s));
}

proof fn lemma_trimmed_start(s: Seq<char>)
    ensures
        trimmed_start(s).len() > 0 ==> !is_whitespace(trimmed_start(s).first()),
    decreases s.len(),
{
    if s.len() > 0 && is_whitespace(s.first()) {
        lemma_trimmed_start(s.drop_first());
    }
}

proof fn lemma_trimmed_end(s: Seq<char>)
    ensures
        trimmed_end(s).len() > 0 ==> !is_whitespace(trimmed_end(s).last()) && trimmed_end(s).first()
            == s.first() && s.len() > 0,
    decreases s.len(),
{
    if s.len() > 0 && is_whitespace(s.last()) {
        lemma_trimmed_end(s.drop_last());
    }
}

/// Whether a text is white space throughout.
pub open spec fn blank(s: Seq<char>) -> bool {
    forall|i: int| 0 <= i < s.len() ==> is_whitespace(#[trigger] s[i])
}

/// Trimming takes the white space around a text away, all of it and nothing
/// else.
pub proof fn padding_is_trimmed(left: Seq<char>, core: Seq<char>, right: Seq<char>)
    requires
        blank(left),
        blank(right),
        core.len() > 0 ==> !is_whitespace(core.first()) && !is_whitespace(core.last()),
    ensures
        trimmed(left + core + right) == core,
    decreases left.len() + right.len(),
{
    let s = left + core + right;
    if left.len() > 0 {
        assert(is_whitespace(left[0]));
        assert(s.first() == left[0]);
        assert(s.drop_first() =~= left.drop_first() + core + right);
        assert forall|i: int| 0 <= i < left.drop_first().len() implies is_whitespace(
            #[trigger] left.drop_first()[i],
        ) by {
            assert(left.drop_first()[i] == left[i + 1]);
        }
        padding_is_trimmed(left.drop_first(), core, right);
    } else if core.len() == 0 {
        assert(s =~= right);
        lemma_blank_is_trimmed(right);
    } else {
        assert(s.first() == core.first());
        assert(trimmed_start(s) == s);
        lemma_trimmed_right(core, right);
        assert(s =~= core + right);
    }
}

proof fn lemma_blank_is_trimmed(s: Seq<char>)
    requires
        blank(s),
    ensures
        trimmed(s) == Seq::<char>::empty(),
    decreases s.len(),
{
    if s.len() > 0 {
        assert(is_whitespace(s[0]));
        assert forall|i: int| 0 <= i < s.drop_first().len() implies is_whitespace(
            #[trigger] s.drop_first()[i],
        ) by {
            assert(s.drop_first()[i] == s[i + 1]);
        }
        lemma_blank_is_trimmed(s.drop_first());
    } else {
        assert(s =~= Seq::<char>::empty());
    }
}

proof fn lemma_trimmed_right(core: Seq<char>, right: Seq<char>)
    requires
        blank(right),
        core.len() > 0,
        !is_whitespace(core.last()),
    ensures
        trimmed_end(core + right) == core,
    decreases right.len(),
{
    let s = core + right;
    if right.len() > 0 {
        assert(is_whitespace(right[right.len() - 1]));
        assert(s.last() == right[right.len() - 1]);
        assert(s.drop_last() =~= core + right.drop_last());
        assert forall|i: int| 0 <= i < right.drop_last().len() implies is_whitespace(
            #[trigger] right.drop_last()[i],
        ) by {
            assert(right.drop_last()[i] == right[i]);
        }
        lemma_trimmed_right(core, right.drop_last());
    } else {
        assert(s =~= core);
    }
}

/// Every text is what trimming leaves, between white space.
pub proof fn trimming_takes_only_padding(s: Seq<char>)
    ensures
        exists|left: Seq<char>, right: Seq<char>|
            blank(left) && blank(right) && s == #[trigger] (left + trimmed(s) + right),
    decreases s.len(),
{
    let none = Seq::<char>::empty();
    if s.len() > 0 && is_whitespace(s.first()) {
        let rest = s.drop_first();
        trimming_takes_only_padding(rest);
        let (left, right) = choose|left: Seq<char>, right: Seq<char>|
            blank(left) && blank(right) && rest == #[trigger] (left + trimmed(rest) + right);
        let wider = seq![s.first()] + left;
        assert forall|i: int| 0 <= i < wider.len() implies is_whitespace(#[trigger] wider[i]) by {
            if i > 0 {
                assert(wider[i] == left[i - 1]);
            }
        }
        assert(s =~= seq![s.first()] + rest);
        assert(s =~= wider + trimmed(s) + right);
    } else {
        lemma_trimmed_end_is_prefix(s);
        let right = s.skip(trimmed_end(s).len() as int);
        assert(s =~= none + trimmed(s) + right);
    }
}

proof fn lemma_trimmed_end_is_prefix(s: Seq<char>)
    ensures
        trimmed_end(s).len() <= s.len(),
        trimmed_end(s) == s.take(trimmed_end(s).len() as int),
        blank(s.skip(trimmed_end(s).len() as int)),
    decreases s.len(),
{
    if s.len() > 0 && is_whitespace(s.last()) {
        let rest = s.drop_last();
        lemma_trimmed_end_is_prefix(rest);
        let n = trimmed_end(s).len() as int;
        assert(rest.take(n) =~= s.take(n));
        assert forall|i: int| 0 <= i < s.skip(n).len() implies is_whitespace(
            #[trigger] s.skip(n)[i],
        ) by {
            if i < rest.skip(n).len() {
                assert(s.skip(n)[i] == rest.skip(n)[i]);
            } else {
                assert(s.skip(n)[i] == s.last());
            }
        }
    } else {
        assert(s.take(s.len() as int) =~= s);
    }
}

/// Lower case differs from a text in its capital letters alone, each of which
/// becomes the small one of the same place in the alphabet.
pub proof fn only_capitals_are_lowered(s: Seq<char>, i: int)
    requires
        0 <= i < s.len(),
    ensures
        lowered(s).len() == s.len(),
        'A' <= s[i] <= 'Z' ==> lowered(s)[i] as int - 'a' as int == s[i] as int - 'A' as int,
        !('A' <= s[i] <= 'Z') ==> lowered(s)[i] == s[i],
{
}

/// A leading run of a character goes as a whole, and nothing else does.
pub proof fn leading_runs_are_dropped(c: char, run: nat, rest: Seq<char>)
    requires
        rest.len() > 0 ==> rest.first() != c,
    ensures
        without_leading(Seq::new(run, |i: int| c) + rest, c) == rest,
    decreases run,
{
    let s = Seq::new(run, |i: int| c) + rest;
    if run > 0 {
        assert(s.drop_first() =~= Seq::new((run - 1) as nat, |i: int| c) + rest);
        leading_runs_are_dropped(c, (run - 1) as nat, rest);
    } else {
        assert(s =~= rest);
    }
}

/// White space is the blank, the control characters from the tab to the carriage
/// return, and the spaces and line ends of Unicode. Letters, digits and the signs
/// between them are none.
pub proof fn white_space_has_no_letters_digits_or_signs(c: char)
    ensures
        '!' <= c <= '~' ==> !is_whitespace(c),
        is_whitespace(' ') && is_whitespace('\t') && is_whitespace('\n') && is_whitespace('\r'),
        is_whitespace(c) ==> (c as u32 <= 0x20 || c as u32 == 0x85 || c as u32 == 0xa0 || c as u32
            >= 0x1680),
        0x2000 <= c as u32 <= 0x200a ==> is_whitespace(c),
        c as u32 == 0x3000 ==> is_whitespace(c),
        c as u32 > 0x3000 ==> !is_whitespace(c),
{
}

} // verus!
