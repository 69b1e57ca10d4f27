//! Splitting text into fields, words and lines.

use vstd::prelude::*;

use crate::text::strings;

verus! {

/// Whether a list of `count` fields may still grow under `limit`.
pub open spec fn may_grow(count: nat, limit: Option<nat>) -> bool {
    match limit {
        Some(n) => count < n,
        None => true,
    }
}

/// The fields of `s` between the separators `sep`: a separator opens a new
/// field, every other character extends the last one. Once `limit` fields are
/// open, further separators are ordinary characters.
pub open spec fn fields(s: Seq<char>, sep: char, limit: Option<nat>) -> Seq<Seq<char>>
    decreases s.len(),
{
    if s.len() == 0 {
        seq![Seq::empty()]
    } else {
        let head = fields(s.drop_last(), sep, limit);
        if s.last() == sep && may_grow(head.len(), limit) {
            head.push(Seq::empty())
        } else {
            head.drop_last().push(head.last().push(s.last()))
        }
    }
}

/// The two sides of the first separator in `s`, if there is one.
pub open spec fn split_pair(s: Seq<char>, sep: char) -> Option<(Seq<char>, Seq<char>)> {
    let parts = fields(s, sep, Some(2));
    if parts.len() == 2 {
        Some((parts[0], parts[1]))
    } else {
        None
    }
}

/// The maximal runs of characters that are not white space.
pub open spec fn words(s: Seq<char>) -> Seq<Seq<char>>
    decreases s.len(),
{
    if s.len() == 0 {
        Seq::empty()
    } else {
        let rest = s.drop_last();
        let head = words(rest);
        if strings::is_whitespace(s.last()) {
            head
        } else if rest.len() == 0 || strings::is_whitespace(rest.last()) {
            head.push(seq![s.last()])
        } else {
            head.drop_last().push(head.last().push(s.last()))
        }
    }
}

/// `line` without one trailing carriage return.
pub open spec fn without_return(line: Seq<char>) -> Seq<char> {
    if line.len() > 0 && line.last() == '\r' {
        line.drop_last()
    } else {
        line
    }
}

/// The lines of `s`. Each line feed ends a line and takes a carriage return
/// before it along; text after the last line feed is a line of its own, and
/// keeps what it ends with.
pub open spec fn lines(s: Seq<char>) -> Seq<Seq<char>> {
    let parts = fields(s, '\n', None);
    let ended = Seq::new((parts.len() - 1) as nat, |i: int| without_return(parts[i]));
    if parts.last().len() == 0 {
        ended
    } else {
        ended.push(parts.last())
    }
}

/// There is always at least one field, and never more than the limit.
pub proof fn lemma_fields_count(s: Seq<char>, sep: char, limit: Option<nat>)
    requires
        limit matches Some(n) ==> n >= 1,
    ensures
        fields(s, sep, limit).len() >= 1,
        limit matches Some(n) ==> fields(s, sep, limit).len() <= n,
        fields(s, sep, limit).len() <= s.len() + 1,
    decreases s.len(),
{
    if s.len() > 0 {
        lemma_fields_count(s.drop_last(), sep, limit);
    }
}

/// Splits `s` at `sep` into at most `limit` fields.
pub fn split_fields(s: &str, sep: char, limit: Option<usize>) -> (parts: Vec<String>)
    requires
        limit matches Some(n) ==> n >= 1,
    ensures
        strings::texts(parts@) == fields(
            s@,
            sep,
            match limit {
                Some(n) => Some(n as nat),
                None => None,
            },
        ),
{
    let ghost bound: Option<nat> = match limit {
        Some(n) => Some(n as nat),
        None => None,
    };
    let mut done: Vec<String> = Vec::new();
    let mut open = String::new();
    assert(strings::texts(done@).push(open@) =~= fields(s@.take(0), sep, bound));
    for c in it: s.chars()
        invariant
            it.seq() == s@,
            bound == (match limit {
                Some(n) => Some(n as nat),
                None => None,
            }),
            limit matches Some(n) ==> n >= 1,
            strings::texts(done@).push(open@) == fields(s@.take(it.index() as int), sep, bound),
    {
        let ghost k = it.index() as int;
        let ghost before = strings::texts(done@);
        let ghost field = open@;
        proof {
            assert(s@.take(k + 1).drop_last() == s@.take(k));
            lemma_fields_count(s@.take(k), sep, bound);
        }
        let grows = match limit {
            Some(n) => done.len() < n - 1,
            None => true,
        };
        if c == sep && grows {
            done.push(open);
            open = String::new();
            assert(strings::texts(done@) =~= before.push(field));
        } else {
            open.push(c);
            assert(before.push(field).drop_last() =~= before);
        }
    }
    assert(s@.take(s@.len() as int) == s@);
    let ghost before = strings::texts(done@);
    done.push(open);
    assert(strings::texts(done@) =~= before.push(open@));
    done
}

/// Splits `s` at the first `sep`.
pub fn split_once(s: &str, sep: char) -> (pair: Option<(String, String)>)
    ensures
        match pair {
            Some((left, right)) => split_pair(s@, sep) == Some((left@, right@)),
            None => split_pair(s@, sep) is None,
        },
{
    let mut parts = split_fields(s, sep, Some(2));
    let ghost all = strings::texts(parts@);
    if parts.len() == 2 {
        assert(all[0] == parts@[0]@ && all[1] == parts@[1]@);
        let right = parts.pop();
        let left = parts.pop();
        match (left, right) {
            (Some(l), Some(r)) => Some((l, r)),
            _ => None,
        }
    } else {
        None
    }
}

/// Splits `s` into words.
pub fn split_words(s: &str) -> (list: Vec<String>)
    ensures
        strings::texts(list@) == words(s@),
{
    let mut done: Vec<String> = Vec::new();
    let mut open = String::new();
    let mut inside: bool = false;
    for c in it: s.chars()
        invariant
            it.seq() == s@,
            inside == (it.index() > 0 && !strings::is_whitespace(s@[it.index() - 1])),
            words(s@.take(it.index() as int)) == (if inside {
                strings::texts(done@).push(open@)
            } else {
                strings::texts(done@)
            }),
    {
        let ghost k = it.index() as int;
        let ghost before = strings::texts(done@);
        let ghost field = open@;
        proof {
            assert(s@.take(k + 1).drop_last() == s@.take(k));
            if k > 0 {
                assert(s@.take(k).last() == s@[k - 1]);
            }
        }
        if strings::whitespace(c) {
            if inside {
                done.push(open);
                open = String::new();
                inside = false;
                assert(strings::texts(done@) =~= before.push(field));
            }
        } else if inside {
            open.push(c);
            assert(before.push(field).drop_last() =~= before);
        } else {
            open = String::new();
            open.push(c);
            inside = true;
            assert(open@ =~= seq![c]);
        }
    }
    assert(s@.take(s@.len() as int) == s@);
    if inside {
        let ghost before = strings::texts(done@);
        done.push(open);
        assert(strings::texts(done@) =~= before.push(open@));
    }
    done
}

/// Removes one trailing carriage return.
fn strip_return(line: &str) -> (rest: &str)
    ensures
        rest@ == without_return(line@),
{
    let count: usize = line.unicode_len();
    if count > 0 && line.get_char(count - 1) == '\r' {
        line.substring_char(0, count - 1)
    } else {
        line
    }
}

/// Splits `s` into lines.
pub fn split_lines(s: &str) -> (list: Vec<String>)
    ensures
        strings::texts(list@) == lines(s@),
{
    let parts = split_fields(s, '\n', None);
    proof {
        lemma_fields_count(s@, '\n', None);
    }
    let ghost all = fields(s@, '\n', None);
    assert(strings::texts(parts@) == all);
    assert(parts@.len() == all.len());
    assert(forall|i: int| 0 <= i < all.len() ==> parts@[i]@ == #[trigger] all[i]);
    let last: usize = parts.len() - 1;
    let mut list: Vec<String> = Vec::new();
    for i in 0..last
        invariant
            last < parts@.len(),
            parts@.len() == all.len(),
            forall|k: int| 0 <= k < all.len() ==> parts@[k]@ == #[trigger] all[k],
            strings::texts(list@) == Seq::new(i as nat, |k: int| without_return(all[k])),
    {
        let ghost before = strings::texts(list@);
        list.push(strip_return(parts[i].as_str()).to_owned());
        assert(strings::texts(list@) =~= before.push(without_return(all[i as int])));
        assert(strings::texts(list@) =~= Seq::new((i + 1) as nat, |k: int| without_return(all[k])));
    }
    if !parts[last].as_str().is_empty() {
        let ghost before = strings::texts(list@);
        list.push(parts[last].clone());
        assert(strings::texts(list@) =~= before.push(all.last()));
    }
    list
}

// ---- laws ----

/// Splitting at the first separator takes a text apart and nothing else: the
/// left side is free of separators, and both sides around one separator are
/// the text. A text without a separator does not split.
pub proof fn split_pair_takes_apart(s: Seq<char>, sep: char)
    ensures
        match split_pair(s, sep) {
            Some((left, right)) => s == left.push(sep) + right && !left.contains(sep),
            None => !s.contains(sep),
        },
{
    lemma_two_fields(s, sep);
}

/// Two texts around a separator split into just these two.
pub proof fn joined_pair_splits(left: Seq<char>, sep: char, right: Seq<char>)
    requires
        !left.contains(sep),
    ensures
        split_pair(left.push(sep) + right, sep) == Some((left, right)),
{
    let s = left.push(sep) + right;
    lemma_two_fields(s, sep);
    assert(s[left.len() as int] == sep);
    let (l, r) = split_pair(s, sep)->0;
    if l.len() < left.len() {
        assert(s[l.len() as int] == sep);
        assert(left[l.len() as int] == sep);
    } else if l.len() > left.len() {
        assert(l[left.len() as int] == s[left.len() as int]);
    }
    assert(l =~= s.take(left.len() as int));
    assert(left =~= s.take(left.len() as int));
    assert(r =~= s.skip(left.len() as int + 1));
    assert(right =~= s.skip(left.len() as int + 1));
}

proof fn lemma_two_fields(s: Seq<char>, sep: char)
    ensures
        ({
            let parts = fields(s, sep, Some(2));
            if parts.len() == 2 {
                s == parts[0].push(sep) + parts[1] && !parts[0].contains(sep)
            } else {
                parts.len() == 1 && parts[0] == s && !s.contains(sep)
            }
        }),
    decreases s.len(),
{
    if s.len() > 0 {
        let rest = s.drop_last();
        lemma_two_fields(rest, sep);
        let head = fields(rest, sep, Some(2));
        let parts = fields(s, sep, Some(2));
        assert(s =~= rest.push(s.last()));
        if head.len() == 2 {
            assert(parts[0] == head[0]);
            assert(s =~= parts[0].push(sep) + parts[1]);
        } else if s.last() == sep {
            assert(parts[0] == rest);
            assert(s =~= parts[0].push(sep) + parts[1]);
        } else {
            assert(parts[0] =~= s);
            assert forall|i: int| 0 <= i < s.len() implies s[i] != sep by {
                if i < rest.len() {
                    assert(rest[i] == s[i]);
                }
            }
        }
    }
}

/// The fields of a text without a limit hold no separator, and put together
/// with one separator between each two they are the text again.
pub proof fn fields_rebuild_the_text(s: Seq<char>, sep: char)
    ensures
        rebuilt(fields(s, sep, None), sep) == s,
        forall|i: int, k: int|
            0 <= i < fields(s, sep, None).len() && 0 <= k < fields(s, sep, None)[i].len()
                ==> #[trigger] fields(s, sep, None)[i][k] != sep,
    decreases s.len(),
{
    if s.len() > 0 {
        let rest = s.drop_last();
        fields_rebuild_the_text(rest, sep);
        lemma_fields_count(rest, sep, None);
        let head = fields(rest, sep, None);
        let parts = fields(s, sep, None);
        assert(s =~= rest.push(s.last()));
        if s.last() == sep {
            assert(parts.drop_last() =~= head);
            assert(rebuilt(parts, sep) =~= s);
        } else {
            assert(parts.drop_last() =~= head.drop_last());
            assert(rebuilt(parts, sep) =~= s);
            assert forall|i: int, k: int|
                0 <= i < parts.len() && 0 <= k < parts[i].len() implies #[trigger] parts[i][k]
                != sep by {
                if i < parts.len() - 1 {
                    assert(parts[i] == head[i]);
                } else if k < head.last().len() {
                    assert(parts[i][k] == head[i][k]);
                }
            }
        }
    } else {
        assert(fields(s, sep, None).drop_last() =~= Seq::<Seq<char>>::empty());
        assert(rebuilt(fields(s, sep, None), sep) =~= s);
    }
}

/// The fields with one separator between each two.
pub open spec fn rebuilt(parts: Seq<Seq<char>>, sep: char) -> Seq<char>
    decreases parts.len(),
{
    if parts.len() == 0 {
        Seq::empty()
    } else if parts.len() == 1 {
        parts[0]
    } else {
        rebuilt(parts.drop_last(), sep).push(sep) + parts.last()
    }
}

/// A text without separators is one field, and so is any text where no second
/// field may be opened.
pub proof fn one_field_is_the_text(s: Seq<char>, sep: char, limit: Option<nat>)
    requires
        !s.contains(sep) || limit == Some(1nat),
    ensures
        fields(s, sep, limit) == seq![s],
    decreases s.len(),
{
    if s.len() > 0 {
        let rest = s.drop_last();
        assert forall|i: int| !s.contains(sep) && 0 <= i < rest.len() implies rest[i] != sep by {
            assert(s[i] == rest[i]);
        }
        one_field_is_the_text(rest, sep, limit);
        assert(s =~= rest.push(s.last()));
        assert(s[s.len() - 1] == s.last());
        assert(fields(s, sep, limit) =~= seq![s]);
    } else {
        assert(fields(s, sep, limit) =~~= seq![s]);
    }
}

/// The first field of a text is what stands before the first separator, and the
/// others are the fields of what stands behind it.
pub proof fn first_field_splits_off(
    left: Seq<char>,
    sep: char,
    right: Seq<char>,
    limit: Option<nat>,
)
    requires
        !left.contains(sep),
        limit matches Some(n) ==> n >= 2,
    ensures
        fields(left.push(sep) + right, sep, limit) == seq![left] + fields(
            right,
            sep,
            match limit {
                Some(n) => Some((n - 1) as nat),
                None => None,
            },
        ),
    decreases right.len(),
{
    let fewer: Option<nat> = match limit {
        Some(n) => Some((n - 1) as nat),
        None => None,
    };
    let s = left.push(sep) + right;
    if right.len() == 0 {
        assert(s.drop_last() =~= left);
        one_field_is_the_text(left, sep, limit);
        one_field_is_the_text(right, sep, fewer);
        assert(fields(s, sep, limit) =~~= seq![left, right]);
        assert(fields(s, sep, limit) =~= seq![left] + fields(right, sep, fewer));
    } else {
        let rest = right.drop_last();
        first_field_splits_off(left, sep, rest, limit);
        lemma_fields_count(rest, sep, fewer);
        assert(s.drop_last() =~= left.push(sep) + rest);
        let head = fields(rest, sep, fewer);
        let all = seq![left] + head;
        assert(all.drop_last() =~= seq![left] + head.drop_last());
        assert(all.last() == head.last());
        assert(fields(s, sep, limit) =~= seq![left] + fields(right, sep, fewer));
    }
}

/// The first line of a text is what stands before its first line feed, less one
/// carriage return, and the other lines are those of what stands behind it. Text
/// without a line feed is a line as it is, and no text is no line.
pub proof fn first_line_splits_off(first: Seq<char>, rest: Seq<char>)
    requires
        !first.contains('\n'),
    ensures
        lines(first.push('\n') + rest) == seq![without_return(first)] + lines(rest),
        first.len() > 0 ==> lines(first) == seq![first],
        first.len() == 0 ==> lines(first) == Seq::<Seq<char>>::empty(),
{
    first_field_splits_off(first, '\n', rest, None);
    lemma_fields_count(rest, '\n', None);
    let parts = fields(rest, '\n', None);
    let all = seq![first] + parts;
    assert(all.last() == parts.last());
    assert(lines(first.push('\n') + rest) =~= seq![without_return(first)] + lines(rest));
    one_field_is_the_text(first, '\n', None);
    assert(first.len() > 0 ==> lines(first) =~= seq![first]);
    assert(first.len() == 0 ==> lines(first) =~= Seq::<Seq<char>>::empty());
}

/// Before a line feed one carriage return goes with it, and nothing else does.
pub proof fn one_return_goes_with_the_line_feed(line: Seq<char>, c: char)
    ensures
        without_return(line.push('\r')) == line,
        c != '\r' ==> without_return(line.push(c)) == line.push(c),
        without_return(Seq::<char>::empty()) == Seq::<char>::empty(),
{
    assert(line.push('\r').drop_last() =~= line);
}

proof fn lemma_words_end(s: Seq<char>)
    ensures
        s.len() > 0 && !strings::is_whitespace(s.last()) ==> words(s).len() >= 1,
    decreases s.len(),
{
    if s.len() > 0 {
        lemma_words_end(s.drop_last());
    }
}

/// A text without white space is one word, unless it is empty.
pub proof fn one_word_is_the_text(s: Seq<char>)
    requires
        forall|i: int| 0 <= i < s.len() ==> !strings::is_whitespace(#[trigger] s[i]),
    ensures
        words(s) == (if s.len() > 0 {
            seq![s]
        } else {
            Seq::empty()
        }),
    decreases s.len(),
{
    if s.len() > 0 {
        let rest = s.drop_last();
        assert forall|i: int| 0 <= i < rest.len() implies !strings::is_whitespace(
            #[trigger] rest[i],
        ) by {
            assert(rest[i] == s[i]);
        }
        one_word_is_the_text(rest);
        assert(!strings::is_whitespace(s[s.len() - 1]));
        assert(s =~= rest.push(s.last()));
        if rest.len() > 0 {
            assert(!strings::is_whitespace(rest[rest.len() - 1]));
            assert(words(s) =~= seq![s]);
        } else {
            assert(words(s) =~~= seq![s]);
        }
    }
}

/// The first word of a text is what stands before its first white space, unless
/// that is nothing, and the others are the words of what stands behind it.
pub proof fn first_word_splits_off(word: Seq<char>, gap: char, rest: Seq<char>)
    requires
        forall|i: int| 0 <= i < word.len() ==> !strings::is_whitespace(#[trigger] word[i]),
        strings::is_whitespace(gap),
    ensures
        words(word.push(gap) + rest) == (if word.len() > 0 {
            seq![word] + words(rest)
        } else {
            words(rest)
        }),
    decreases rest.len(),
{
    let s = word.push(gap) + rest;
    let first: Seq<Seq<char>> = if word.len() > 0 {
        seq![word]
    } else {
        Seq::empty()
    };
    if rest.len() == 0 {
        one_word_is_the_text(word);
        assert(s.drop_last() =~= word);
        assert(words(s) =~= first + words(rest));
    } else {
        let shorter = rest.drop_last();
        first_word_splits_off(word, gap, shorter);
        assert(s.drop_last() =~= word.push(gap) + shorter);
        assert(s.last() == rest.last());
        let head = words(shorter);
        if !strings::is_whitespace(rest.last()) {
            if shorter.len() == 0 {
                assert(s.drop_last().last() == gap);
            } else {
                assert(s.drop_last().last() == shorter.last());
                if !strings::is_whitespace(shorter.last()) {
                    lemma_words_end(shorter);
                    assert((first + head).last() == head.last());
                    assert((first + head).drop_last() =~= first + head.drop_last());
                }
            }
        }
        assert(words(s) =~= first + words(rest));
    }
    assert(first + words(rest) =~= (if word.len() > 0 {
        seq![word] + words(rest)
    } else {
        words(rest)
    }));
}

} // verus!
