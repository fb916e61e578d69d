//! Texts whose tags are names, with values put in.
use vstd::prelude::*;

use crate::generate::words::{
    can_start_name, find_run_end, lemma_run_end, run_end, starts_name,
};
use crate::text::{chars_of, has_part, has_prefix, occurs_at, slice_text, stands_at, starts_with};

verus! {

pub open spec fn is_blank(c: char) -> bool {
    c == ' ' || c == '\n' || c == '\r'
}

/// Where the blanks that start at `at` end.
pub open spec fn blank_end(s: Seq<char>, at: int) -> int
    decreases s.len() - at,
{
    if 0 <= at < s.len() && is_blank(s[at]) {
        blank_end(s, at + 1)
    } else {
        at
    }
}

pub fn find_blank_end(v: &Vec<char>, at: usize) -> (r: usize)
    requires
        at <= v@.len(),
    ensures
        r == blank_end(v@, at as int),
        at <= r <= v@.len(),
{
    let mut i: usize = at;
    while i < v.len() && (v[i] == ' ' || v[i] == '\n' || v[i] == '\r')
        invariant
            at <= i <= v@.len(),
            blank_end(v@, i as int) == blank_end(v@, at as int),
        decreases v.len() - i,
    {
        i += 1;
    }
    i
}

/// Whether the language reads the start of a word as a value of its own.
pub open spec fn starts_literal(word: Seq<char>) -> bool {
    ||| has_prefix(word, "nil"@)
    ||| has_prefix(word, "null"@)
    ||| has_prefix(word, "empty"@)
    ||| has_prefix(word, "blank"@)
    ||| has_prefix(word, "true"@)
    ||| has_prefix(word, "false"@)
}

pub fn does_start_literal(word: &str) -> (r: bool)
    ensures
        r == starts_literal(word@),
{
    starts_with(word, "nil") || starts_with(word, "null") || starts_with(word, "empty")
        || starts_with(word, "blank") || starts_with(word, "true") || starts_with(word, "false")
}

/// Where the name begins and ends in an output tag that opens at `at` and holds a name and nothing
/// else, and where the tag ends.
pub open spec fn name_tag(s: Seq<char>, at: int) -> Option<(int, int, int)> {
    let from = blank_end(s, at + 2);
    let to = run_end(s, from, false);
    let close = blank_end(s, to);
    if occurs_at(s, "{{"@, at) && from < s.len() && starts_name(s[from]) && !starts_literal(
        s.subrange(from, to),
    ) && occurs_at(s, "}}"@, close) {
        Some((from, to, close + 2))
    } else {
        None
    }
}

pub proof fn lemma_blank_end(s: Seq<char>, at: int)
    requires
        0 <= at <= s.len(),
    ensures
        at <= blank_end(s, at) <= s.len(),
    decreases s.len() - at,
{
    if at < s.len() && is_blank(s[at]) {
        lemma_blank_end(s, at + 1);
    }
}

/// The name in a tag has at least one character, and the tag lies within the text.
pub proof fn lemma_name_tag(s: Seq<char>, at: int)
    requires
        0 <= at,
    ensures
        name_tag(s, at) matches Some((from, to, end)) ==> at + 2 <= from < to <= end - 2 && end
            <= s.len(),
{
    reveal_strlit("{{");
    reveal_strlit("}}");
    assert("{{"@.len() == 2 && "}}"@.len() == 2);
    if name_tag(s, at) is Some {
        lemma_blank_end(s, at + 2);
        let from = blank_end(s, at + 2);
        lemma_run_end(s, from, false);
        lemma_blank_end(s, run_end(s, from, false));
    }
}

/// A text from `at` on in which no tags stand but output tags that hold a name, with the values put
/// in; nothing where other tags stand there or a name has no value.
pub open spec fn filled_from(s: Seq<char>, at: int, values: Map<Seq<char>, Seq<char>>) -> Option<
    Seq<char>,
>
    decreases s.len() - at,
{
    if at < 0 || at >= s.len() {
        Some(Seq::empty())
    } else if occurs_at(s, "{{"@, at) || occurs_at(s, "{%"@, at) {
        match name_tag(s, at) {
            Some((from, to, end)) => if at < end <= s.len() && values.contains_key(
                s.subrange(from, to),
            ) {
                match filled_from(s, end, values) {
                    Some(rest) => Some(values[s.subrange(from, to)] + rest),
                    None => None,
                }
            } else {
                None
            },
            None => None,
        }
    } else {
        match filled_from(s, at + 1, values) {
            Some(rest) => Some(seq![s[at]] + rest),
            None => None,
        }
    }
}

/// A text in which no tags stand but output tags that hold a name, with the values put in; nothing
/// where other tags stand in it or a name has no value.
pub open spec fn filled(s: Seq<char>, values: Map<Seq<char>, Seq<char>>) -> Option<Seq<char>> {
    filled_from(s, 0, values)
}

/// Whether no tags stand in a text from `at` on but output tags that hold a name.
pub open spec fn names_only_from(s: Seq<char>, at: int) -> bool
    decreases s.len() - at,
{
    if at < 0 || at >= s.len() {
        true
    } else if occurs_at(s, "{{"@, at) || occurs_at(s, "{%"@, at) {
        match name_tag(s, at) {
            Some((_, _, end)) => at < end <= s.len() && names_only_from(s, end),
            None => false,
        }
    } else {
        names_only_from(s, at + 1)
    }
}

/// Whether no tags stand in a text but output tags that hold a name.
pub open spec fn names_only(s: Seq<char>) -> bool {
    names_only_from(s, 0)
}

/// Values are put only into a text whose tags are names.
pub proof fn lemma_filled_names(s: Seq<char>, at: int, values: Map<Seq<char>, Seq<char>>)
    requires
        filled_from(s, at, values) is Some,
    ensures
        names_only_from(s, at),
    decreases s.len() - at,
{
    if 0 <= at < s.len() {
        if occurs_at(s, "{{"@, at) || occurs_at(s, "{%"@, at) {
            match name_tag(s, at) {
                Some((_, _, end)) => {
                    lemma_filled_names(s, end, values);
                },
                None => {},
            }
        } else {
            lemma_filled_names(s, at + 1, values);
        }
    }
}

/// A text in which no tag opens stays as it is.
pub proof fn lemma_plain_filled(s: Seq<char>, at: int, values: Map<Seq<char>, Seq<char>>)
    requires
        0 <= at <= s.len(),
        !has_part(s, "{{"@),
        !has_part(s, "{%"@),
    ensures
        filled_from(s, at, values) == Some(s.skip(at)),
    decreases s.len() - at,
{
    if at < s.len() {
        assert(!occurs_at(s, "{{"@, at) && !occurs_at(s, "{%"@, at));
        lemma_plain_filled(s, at + 1, values);
        assert(seq![s[at]] + s.skip(at + 1) =~= s.skip(at));
    } else {
        assert(s.skip(at) =~= Seq::empty());
    }
}

/// Text before a tag that holds a name is kept, the value of the name takes the place of the tag,
/// and what follows is filled on its own.
pub proof fn law_value_takes_the_place_of_its_name(
    before: Seq<char>,
    name: Seq<char>,
    after: Seq<char>,
    values: Map<Seq<char>, Seq<char>>,
)
    requires
        !before.contains('{'),
        name.len() > 0,
        starts_name(name[0]),
        forall|i: int|
            0 <= i < name.len() ==> crate::generate::words::goes_on_name(#[trigger] name[i]),
        !starts_literal(name),
        values.contains_key(name),
        filled(after, values) is Some,
    ensures
        filled(before + "{{ "@ + name + " }}"@ + after, values) == Some(
            before + values[name] + filled(after, values)->0,
        ),
{
    reveal_strlit("{{");
    reveal_strlit("{{ ");
    reveal_strlit("{%");
    reveal_strlit("}}");
    reveal_strlit(" }}");
    let s = before + "{{ "@ + name + " }}"@ + after;
    let n = before.len() as int;
    let from = n + 3;
    let to = from + name.len();
    let end = to + 3;
    assert forall|i: int| from <= i < to implies s[i] == name[i - from] by {}
    lemma_run_is(s, from, to);
    assert(s.subrange(from, to) =~= name);
    assert(s[n + 2] == ' ');
    assert(!is_blank(s[from]));
    assert(blank_end(s, n + 2) == blank_end(s, from));
    assert(blank_end(s, from) == from);
    assert(s[to] == ' ' && s[to + 1] == '}' && s[to + 2] == '}');
    assert(blank_end(s, to) == blank_end(s, to + 1));
    assert(blank_end(s, to + 1) == to + 1);
    assert(s.subrange(n, n + 2) =~= "{{"@);
    assert(s.subrange(to + 1, to + 3) =~= "}}"@);
    assert(name_tag(s, n) == Some((from, to, end)));
    assert(s.skip(end) =~= after);
    lemma_filled_suffix(after, s, end, 0, values);
    lemma_filled_before(s, 0, n, values);
    assert(s.subrange(0, n) =~= before);
    assert(filled_from(s, n, values) == Some(values[name] + filled(after, values)->0));
    assert(before + (values[name] + filled(after, values)->0) =~= before + values[name] + filled(
        after,
        values,
    )->0);
}

proof fn lemma_run_is(s: Seq<char>, from: int, to: int)
    requires
        0 <= from <= to < s.len(),
        forall|i: int| from <= i < to ==> crate::generate::words::goes_on_name(#[trigger] s[i]),
        !crate::generate::words::goes_on_name(s[to]),
    ensures
        run_end(s, from, false) == to,
    decreases to - from,
{
    if from < to {
        lemma_run_is(s, from + 1, to);
    }
}

/// What a text is filled with from a place on depends on the text from there on alone.
proof fn lemma_filled_suffix(
    t: Seq<char>,
    s: Seq<char>,
    shift: int,
    at: int,
    values: Map<Seq<char>, Seq<char>>,
)
    requires
        0 <= at <= t.len(),
        0 <= shift <= s.len(),
        t == s.skip(shift),
    ensures
        filled_from(t, at, values) == filled_from(s, shift + at, values),
    decreases t.len() - at,
{
    if at < t.len() {
        lemma_occurs_shifted(t, s, shift, "{{"@, at);
        lemma_occurs_shifted(t, s, shift, "{%"@, at);
        if occurs_at(t, "{{"@, at) || occurs_at(t, "{%"@, at) {
            lemma_name_tag_shifted(t, s, shift, at);
            lemma_name_tag(t, at);
            if let Some((from, to, end)) = name_tag(t, at) {
                assert(t.subrange(from, to) =~= s.subrange(shift + from, shift + to));
                lemma_filled_suffix(t, s, shift, end, values);
            }
        } else {
            lemma_filled_suffix(t, s, shift, at + 1, values);
        }
    }
}

proof fn lemma_occurs_shifted(t: Seq<char>, s: Seq<char>, shift: int, part: Seq<char>, at: int)
    requires
        0 <= at,
        0 <= shift <= s.len(),
        t == s.skip(shift),
    ensures
        occurs_at(t, part, at) == occurs_at(s, part, shift + at),
{
    if at + part.len() <= t.len() {
        assert(t.subrange(at, at + part.len()) =~= s.subrange(
            shift + at,
            shift + at + part.len(),
        ));
    }
}

proof fn lemma_name_tag_shifted(t: Seq<char>, s: Seq<char>, shift: int, at: int)
    requires
        0 <= at < t.len(),
        0 <= shift <= s.len(),
        t == s.skip(shift),
    ensures
        name_tag(s, shift + at) == (match name_tag(t, at) {
            Some((from, to, end)) => Some((shift + from, shift + to, shift + end)),
            None => None,
        }),
{
    reveal_strlit("{{");
    assert("{{"@.len() == 2);
    lemma_occurs_shifted(t, s, shift, "{{"@, at);
    if occurs_at(t, "{{"@, at) {
        lemma_blank_shifted(t, s, shift, at + 2);
        lemma_blank_end(t, at + 2);
        let from = blank_end(t, at + 2);
        lemma_run_shifted(t, s, shift, from);
        lemma_run_end(t, from, false);
        let to = run_end(t, from, false);
        lemma_blank_shifted(t, s, shift, to);
        lemma_blank_end(t, to);
        lemma_occurs_shifted(t, s, shift, "}}"@, blank_end(t, to));
        assert(t.subrange(from, to) =~= s.subrange(shift + from, shift + to));
    }
}

proof fn lemma_blank_shifted(t: Seq<char>, s: Seq<char>, shift: int, at: int)
    requires
        0 <= at <= t.len(),
        0 <= shift <= s.len(),
        t == s.skip(shift),
    ensures
        blank_end(s, shift + at) == shift + blank_end(t, at),
    decreases t.len() - at,
{
    if at < t.len() && is_blank(t[at]) {
        lemma_blank_shifted(t, s, shift, at + 1);
    }
}

proof fn lemma_run_shifted(t: Seq<char>, s: Seq<char>, shift: int, at: int)
    requires
        0 <= at <= t.len(),
        0 <= shift <= s.len(),
        t == s.skip(shift),
    ensures
        run_end(s, shift + at, false) == shift + run_end(t, at, false),
    decreases t.len() - at,
{
    if at < t.len() && crate::generate::words::goes_on_name(t[at]) {
        lemma_run_shifted(t, s, shift, at + 1);
    }
}

/// Text without an opening brace is kept.
proof fn lemma_filled_before(
    s: Seq<char>,
    at: int,
    n: int,
    values: Map<Seq<char>, Seq<char>>,
)
    requires
        0 <= at <= n < s.len(),
        forall|i: int| at <= i < n ==> #[trigger] s[i] != '{',
    ensures
        filled_from(s, at, values) == (match filled_from(s, n, values) {
            Some(rest) => Some(s.subrange(at, n) + rest),
            None => None,
        }),
    decreases n - at,
{
    if at < n {
        reveal_strlit("{{");
        reveal_strlit("{%");
        if occurs_at(s, "{{"@, at) {
            assert(s.subrange(at, at + 2)[0] == "{{"@[0]);
        }
        if occurs_at(s, "{%"@, at) {
            assert(s.subrange(at, at + 2)[0] == "{%"@[0]);
        }
        lemma_filled_before(s, at + 1, n, values);
        if let Some(rest) = filled_from(s, n, values) {
            assert(seq![s[at]] + (s.subrange(at + 1, n) + rest) =~= s.subrange(at, n) + rest);
        }
    } else {
        if let Some(rest) = filled_from(s, n, values) {
            assert(s.subrange(at, n) + rest =~= rest);
        }
    }
}

fn find_name_tag(v: &Vec<char>, at: usize) -> (r: Option<usize>)
    requires
        at <= v@.len(),
    ensures
        (match r {
            Some(end) => name_tag(v@, at as int) matches Some((_, _, e)) && e == end && at < end
                <= v@.len(),
            None => name_tag(v@, at as int) is None,
        }),
{
    proof {
        reveal_strlit("{{");
        reveal_strlit("}}");
        assert("{{"@.len() == 2 && "}}"@.len() == 2);
        assert(v.len() == v@.len());
    }
    if !stands_at(v, &chars_of("{{"), at) {
        return None;
    }
    let from = find_blank_end(v, at + 2);
    if from >= v.len() || !can_start_name(v[from]) {
        return None;
    }
    let to = find_run_end(v, from, false);
    if does_start_literal(slice_text(v, from, to).as_str()) {
        return None;
    }
    let close = find_blank_end(v, to);
    if stands_at(v, &chars_of("}}"), close) {
        Some(close + 2)
    } else {
        None
    }
}

/// Tells whether no tags stand in a text but output tags that hold a name.
pub fn has_names_only(v: &Vec<char>) -> (r: bool)
    ensures
        r == names_only(v@),
{
    let output = chars_of("{{");
    let logic = chars_of("{%");
    let mut at: usize = 0;
    while at < v.len()
        invariant
            at <= v@.len(),
            output@ == "{{"@,
            logic@ == "{%"@,
            names_only_from(v@, at as int) == names_only(v@),
        decreases v.len() - at,
    {
        if stands_at(v, &output, at) || stands_at(v, &logic, at) {
            match find_name_tag(v, at) {
                Some(end) => {
                    at = end;
                },
                None => {
                    return false;
                },
            }
        } else {
            at += 1;
        }
    }
    true
}

} // verus!
