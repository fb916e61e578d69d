//! Which variables hold no lists whose items differ in kind.
//!
//! A list is made by splitting a text, and has texts in it then, or by sorting one value, and has
//! that value in it then. Lists whose items differ in kind come out of joining two lists alone. A
//! value that is no list, and a list whose items do not differ in kind, is called plain here.
use vstd::prelude::*;

use crate::generate::values::{has_name, is_scalar, object_texts, scalar_names};
use crate::generate::weight::{
    begins_with_numeral, find_target, goes_deeper, is_numeral, is_numeral_text, tag_texts, target,
};
use crate::generate::words::{
    bar_before, bare, bare_text, find_run_end, find_tag_word, find_words, has_bar_before,
    lie_within, places, run_end, tag_word, words,
};
use crate::text::{chars_of, has_prefix, slice_text, stands_at, text_eq};

verus! {

/// Whether a word of a tag stands for a plain value or is a filter that does not join lists, where
/// `tags` are all tags of the text and `scalars` the names whose value is no list.
pub open spec fn word_is_plain(
    tags: Seq<Seq<char>>,
    values: Map<Seq<char>, Seq<char>>,
    scalars: Set<Seq<char>>,
    s: Seq<char>,
    w: (int, int),
    fuel: nat,
) -> bool
    decreases fuel, 3nat, 0nat,
{
    let word = s.subrange(w.0, w.1);
    ||| bar_before(s, w.0) && word != "concat"@
    ||| !bar_before(s, w.0) && is_numeral(word)
    ||| !bar_before(s, w.0) && !begins_with_numeral(word) && !goes_deeper(s, w) && variable_is_plain(
        tags,
        values,
        scalars,
        word,
        fuel,
    )
}

/// Whether a variable holds a plain value: its own value is plain, and all that it is assigned.
pub open spec fn variable_is_plain(
    tags: Seq<Seq<char>>,
    values: Map<Seq<char>, Seq<char>>,
    scalars: Set<Seq<char>>,
    name: Seq<char>,
    fuel: nat,
) -> bool
    decreases fuel, 2nat, 0nat,
{
    &&& fuel > 0
    &&& values.contains_key(name) ==> scalars.contains(name)
    &&& setters_are_plain(tags, values, scalars, name, tags.len(), fuel)
}

/// Whether the first `n` tags give a variable nothing but plain values.
pub open spec fn setters_are_plain(
    tags: Seq<Seq<char>>,
    values: Map<Seq<char>, Seq<char>>,
    scalars: Set<Seq<char>>,
    name: Seq<char>,
    n: nat,
    fuel: nat,
) -> bool
    decreases fuel, 1nat, n,
{
    n == 0 || fuel == 0 || (setters_are_plain(tags, values, scalars, name, (n - 1) as nat, fuel)
        && setter_is_plain(tags, values, scalars, tags[n - 1], name, fuel))
}

/// Whether a tag gives a variable nothing but plain values.
pub open spec fn setter_is_plain(
    tags: Seq<Seq<char>>,
    values: Map<Seq<char>, Seq<char>>,
    scalars: Set<Seq<char>>,
    tag: Seq<char>,
    name: Seq<char>,
    fuel: nat,
) -> bool
    decreases fuel, 0nat, 0nat,
{
    let s = bare(tag);
    let word = s.subrange(tag_word(s), run_end(s, tag_word(s), true));
    match target(s) {
        Some(t) => if fuel == 0 || !has_prefix(tag, "{%"@) || s.subrange(t.0, t.1) != name {
            true
        } else if word == "assign"@ || word == "for"@ || word == "tablerow"@ {
            region_is_plain(tags, values, scalars, tag, t.1, s.len() as int, (fuel - 1) as nat)
        } else {
            true
        },
        None => true,
    }
}

/// Whether what a tag holds between `from` and `to` makes a plain value.
pub open spec fn region_is_plain(
    tags: Seq<Seq<char>>,
    values: Map<Seq<char>, Seq<char>>,
    scalars: Set<Seq<char>>,
    tag: Seq<char>,
    from: int,
    to: int,
    fuel: nat,
) -> bool
    decreases fuel, 5nat, 0nat,
{
    let s = bare(tag);
    let list = words(s, from, true);
    words_are_plain(tags, values, scalars, s, list, to, list.len(), fuel)
}

/// Whether the first `n` words of a list are plain, as far as they begin before `to`.
pub open spec fn words_are_plain(
    tags: Seq<Seq<char>>,
    values: Map<Seq<char>, Seq<char>>,
    scalars: Set<Seq<char>>,
    s: Seq<char>,
    list: Seq<(int, int)>,
    to: int,
    n: nat,
    fuel: nat,
) -> bool
    decreases fuel, 4nat, n,
{
    n == 0 || (words_are_plain(tags, values, scalars, s, list, to, (n - 1) as nat, fuel) && (
    list[n - 1].0 >= to || word_is_plain(tags, values, scalars, s, list[n - 1], fuel)))
}

fn has_plain_word(
    tags: &Vec<Vec<char>>,
    values: &liquid::Object,
    v: &Vec<char>,
    from: usize,
    to: usize,
    fuel: u64,
) -> (r: bool)
    requires
        from < to <= v@.len(),
        forall|i: int| 0 <= i < tags@.len() ==> (#[trigger] tags@[i])@.len() >= 2,
    ensures
        r == word_is_plain(
            tag_texts(tags@),
            object_texts(*values),
            scalar_names(*values),
            v@,
            (from as int, to as int),
            fuel as nat,
        ),
    decreases fuel, 3nat, 0nat,
{
    let word = slice_text(v, from, to);
    if has_bar_before(v, from) {
        return !text_eq(word.as_str(), "concat");
    }
    if is_numeral_text(&chars_of(word.as_str())) {
        return true;
    }
    let c = v[from];
    let numeral = ('0' <= c && c <= '9') || (to - from > 1 && c == '-' && '0' <= v[from + 1] && v[from
        + 1] <= '9');
    assert(numeral == begins_with_numeral(v@.subrange(from as int, to as int)));
    let deeper = to < v.len() && (v[to] == '[' || (v[to] == '.' && !(v.len() - to > 1 && v[to + 1]
        == '.')));
    !numeral && !deeper && has_plain_variable(tags, values, word.as_str(), fuel)
}

fn has_plain_variable(tags: &Vec<Vec<char>>, values: &liquid::Object, name: &str, fuel: u64) -> (r:
    bool)
    requires
        forall|i: int| 0 <= i < tags@.len() ==> (#[trigger] tags@[i])@.len() >= 2,
    ensures
        r == variable_is_plain(
            tag_texts(tags@),
            object_texts(*values),
            scalar_names(*values),
            name@,
            fuel as nat,
        ),
    decreases fuel, 2nat, 0nat,
{
    if fuel == 0 || (has_name(values, name) && !is_scalar(values, name)) {
        return false;
    }
    let mut n: usize = 0;
    let mut plain = true;
    let ghost all = tag_texts(tags@);
    while n < tags.len()
        invariant
            n <= tags@.len(),
            fuel > 0,
            all == tag_texts(tags@),
            forall|i: int| 0 <= i < tags@.len() ==> (#[trigger] tags@[i])@.len() >= 2,
            plain == setters_are_plain(
                all,
                object_texts(*values),
                scalar_names(*values),
                name@,
                n as nat,
                fuel as nat,
            ),
        decreases tags.len() - n,
    {
        assert(all[n as int] == tags@[n as int]@);
        plain = plain && has_plain_setter(tags, values, n, name, fuel);
        n += 1;
    }
    assert(all.len() == tags@.len());
    plain
}

fn has_plain_setter(
    tags: &Vec<Vec<char>>,
    values: &liquid::Object,
    n: usize,
    name: &str,
    fuel: u64,
) -> (r: bool)
    requires
        n < tags@.len(),
        fuel > 0,
        forall|i: int| 0 <= i < tags@.len() ==> (#[trigger] tags@[i])@.len() >= 2,
    ensures
        r == setter_is_plain(
            tag_texts(tags@),
            object_texts(*values),
            scalar_names(*values),
            tags@[n as int]@,
            name@,
            fuel as nat,
        ),
    decreases fuel, 0nat, 0nat,
{
    let tag = &tags[n];
    assert(tags@[n as int]@.len() >= 2);
    let v = bare_text(tag);
    let (from, to) = match find_target(&v) {
        Some(t) => t,
        None => {
            return true;
        },
    };
    let logic = stands_at(tag, &chars_of("{%"), 0);
    let same = text_eq(slice_text(&v, from, to).as_str(), name);
    if !logic || !same {
        return true;
    }
    let start = find_tag_word(&v);
    let word = slice_text(&v, start, find_run_end(&v, start, true));
    if text_eq(word.as_str(), "assign") || text_eq(word.as_str(), "for") || text_eq(
        word.as_str(),
        "tablerow",
    ) {
        has_plain_region(tags, values, tag, to, v.len(), fuel - 1)
    } else {
        true
    }
}

/// Tells whether what a tag holds between `from` and `to` makes a plain value.
pub fn has_plain_region(
    tags: &Vec<Vec<char>>,
    values: &liquid::Object,
    tag: &Vec<char>,
    from: usize,
    to: usize,
    fuel: u64,
) -> (r: bool)
    requires
        from <= tag@.len(),
        to <= tag@.len(),
        forall|i: int| 0 <= i < tags@.len() ==> (#[trigger] tags@[i])@.len() >= 2,
    ensures
        r == region_is_plain(
            tag_texts(tags@),
            object_texts(*values),
            scalar_names(*values),
            tag@,
            from as int,
            to as int,
            fuel as nat,
        ),
    decreases fuel, 5nat, 0nat,
{
    let v = bare_text(tag);
    let list = find_words(&v, from, true);
    let mut n: usize = 0;
    let mut plain = true;
    let ghost all = words(v@, from as int, true);
    let ghost texts = tag_texts(tags@);
    while n < list.len()
        invariant
            n <= list@.len(),
            v@ == bare(tag@),
            v@.len() == tag@.len(),
            places(list@) == all,
            lie_within(list@, v@.len()),
            texts == tag_texts(tags@),
            forall|i: int| 0 <= i < tags@.len() ==> (#[trigger] tags@[i])@.len() >= 2,
            plain == words_are_plain(
                texts,
                object_texts(*values),
                scalar_names(*values),
                v@,
                all,
                to as int,
                n as nat,
                fuel as nat,
            ),
        decreases list.len() - n,
    {
        let (start, end) = list[n];
        assert(list@[n as int] == (start, end));
        assert(places(list@)[n as int] == (start as int, end as int));
        plain = plain && (start >= to || has_plain_word(tags, values, &v, start, end, fuel));
        n += 1;
    }
    assert(all.len() == list@.len());
    plain
}

} // verus!
