//! How large the numbers in a tag can become.
//!
//! The weight of a tag is a number of digits. It bounds every integer that the filters of the tag can
//! make of what the tag holds: a sum, a difference or a product has no more digits than both of its
//! parts have together.
use vstd::prelude::*;

use crate::decimal::{is_digit, is_digits};
use crate::generate::values::{object_texts, text_of};
use crate::generate::words::{
    bar_before, bare, bare_text, find_run_end, find_tag_word, find_words, has_bar_before,
    lemma_bare_len, lie_within, places, run_end, tag_word, words,
};
use crate::text::{chars_of, has_prefix, slice_text, stands_at, text_eq};

verus! {

/// The weight of what has no bound.
pub const NO_BOUND: u64 = 100;

/// The most digits of the size of a text or a list.
pub const SIZE_DIGITS: u64 = 15;

/// How far a variable is followed to what it was assigned.
pub const DEPTH: u64 = 4;

/// The sum of two weights, of which none is larger than [`NO_BOUND`].
pub open spec fn both(a: nat, b: nat) -> nat {
    if a + b >= NO_BOUND {
        NO_BOUND as nat
    } else {
        a + b
    }
}

fn sum(a: u64, b: u64) -> (r: u64)
    requires
        a <= NO_BOUND,
        b <= NO_BOUND,
    ensures
        r == both(a as nat, b as nat),
        r <= NO_BOUND,
{
    if a + b >= NO_BOUND {
        NO_BOUND
    } else {
        a + b
    }
}

/// The number of digits in a text.
pub open spec fn digits_in(s: Seq<char>) -> nat
    decreases s.len(),
{
    if s.len() == 0 {
        0
    } else {
        both(
            digits_in(s.drop_last()),
            if is_digit(s.last()) {
                1
            } else {
                0
            },
        )
    }
}

fn count_digits(v: &Vec<char>) -> (r: u64)
    ensures
        r == digits_in(v@),
        r <= NO_BOUND,
{
    let mut r: u64 = 0;
    let mut i: usize = 0;
    assert(v@.take(0) =~= Seq::empty());
    while i < v.len()
        invariant
            i <= v@.len(),
            r == digits_in(v@.take(i as int)),
            r <= NO_BOUND,
        decreases v.len() - i,
    {
        let c = v[i];
        assert(v@.take(i + 1).drop_last() =~= v@.take(i as int));
        assert(v@.take(i + 1).last() == c);
        r = sum(
            r,
            if '0' <= c && c <= '9' {
                1
            } else {
                0
            },
        );
        i += 1;
    }
    assert(v@.take(i as int) =~= v@);
    r
}

/// The number of digits in the strings of a tag between `from` and `to`, where `s` is the tag without
/// its strings.
pub open spec fn string_digits(tag: Seq<char>, s: Seq<char>, from: int, to: int) -> nat
    decreases to - from,
{
    if to <= from {
        0
    } else {
        both(
            string_digits(tag, s, from, to - 1),
            if s[to - 1] == '"' && is_digit(tag[to - 1]) {
                1
            } else {
                0
            },
        )
    }
}

pub fn count_string_digits(tag: &Vec<char>, v: &Vec<char>, from: usize, to: usize) -> (r: u64)
    requires
        to <= v@.len() == tag@.len(),
    ensures
        r == string_digits(tag@, v@, from as int, to as int),
        r <= NO_BOUND,
{
    let mut r: u64 = 0;
    let mut i: usize = from;
    while i < to
        invariant
            to <= v@.len() == tag@.len(),
            from <= i,
            i <= to || i == from,
            r == string_digits(tag@, v@, from as int, i as int),
            r <= NO_BOUND,
        decreases to - i,
    {
        let c = tag[i];
        r = sum(
            r,
            if v[i] == '"' && '0' <= c && c <= '9' {
                1
            } else {
                0
            },
        );
        i += 1;
    }
    r
}

/// Whether a word is a numeral: digits, after a minus or none.
pub open spec fn is_numeral(word: Seq<char>) -> bool {
    is_digits(
        if word.len() > 0 && word[0] == '-' {
            word.skip(1)
        } else {
            word
        },
    )
}

/// Whether a word begins with a numeral.
pub open spec fn begins_with_numeral(word: Seq<char>) -> bool {
    word.len() > 0 && (is_digit(word[0]) || (word.len() > 1 && word[0] == '-' && is_digit(word[1])))
}

pub fn is_numeral_text(v: &Vec<char>) -> (r: bool)
    ensures
        r == is_numeral(v@),
{
    let start: usize = if v.len() > 0 && v[0] == '-' {
        1
    } else {
        0
    };
    let ghost digits = if start == 1 {
        v@.skip(1)
    } else {
        v@
    };
    if start >= v.len() {
        return false;
    }
    let mut i: usize = start;
    while i < v.len()
        invariant
            start <= 1,
            start == 1 <==> v@.len() > 0 && v@[0] == '-',
            start <= i <= v@.len(),
            digits == (if start == 1 {
                v@.skip(1)
            } else {
                v@
            }),
            forall|k: int| start <= k < i ==> is_digit(#[trigger] v@[k]),
        decreases v.len() - i,
    {
        let c = v[i];
        if !('0' <= c && c <= '9') {
            assert(digits[i - start] == c);
            return false;
        }
        i += 1;
    }
    assert forall|k: int| 0 <= k < digits.len() implies is_digit(#[trigger] digits[k]) by {
        assert(digits[k] == v@[k + start]);
    }
    true
}

/// Whether a filter computes with integers.
pub open spec fn is_arithmetic(word: Seq<char>) -> bool {
    ||| word == "abs"@
    ||| word == "divided_by"@
    ||| word == "minus"@
    ||| word == "modulo"@
    ||| word == "plus"@
    ||| word == "times"@
}

pub fn is_arithmetic_text(word: &str) -> (r: bool)
    ensures
        r == is_arithmetic(word@),
{
    text_eq(word, "abs") || text_eq(word, "divided_by") || text_eq(word, "minus") || text_eq(
        word,
        "modulo",
    ) || text_eq(word, "plus") || text_eq(word, "times")
}

/// Whether a filter makes no integer that has more digits than its input and its arguments have
/// together. One that makes a text of a number is none of them: a number with a fraction has more
/// digits as a text.
pub open spec fn is_bounded(word: Seq<char>) -> bool {
    is_arithmetic(word) || word == "at_least"@ || word == "at_most"@ || word == "default"@
}

fn is_bounded_text(word: &str) -> (r: bool)
    ensures
        r == is_bounded(word@),
{
    is_arithmetic_text(word) || text_eq(word, "at_least") || text_eq(word, "at_most") || text_eq(
        word,
        "default",
    )
}

/// The digits that a filter can add: none, those of the size of a text, or any number.
pub open spec fn filter_weight(word: Seq<char>) -> nat {
    if is_bounded(word) {
        0
    } else if word == "size"@ {
        SIZE_DIGITS as nat
    } else {
        NO_BOUND as nat
    }
}

/// The place of the first argument of a logic tag, where `s` is the tag without its strings.
pub open spec fn target(s: Seq<char>) -> Option<(int, int)> {
    let list = words(s, run_end(s, tag_word(s), true), true);
    if list.len() > 0 {
        Some(list[0])
    } else {
        None
    }
}

/// Whether two dots stand side by side.
pub open spec fn has_range(s: Seq<char>) -> bool {
    exists|i: int| 0 <= i < s.len() - 1 && #[trigger] s[i] == '.' && s[i + 1] == '.'
}

/// Whether a word at `w` has an index or a member behind it.
pub open spec fn goes_deeper(s: Seq<char>, w: (int, int)) -> bool {
    w.1 < s.len() && (s[w.1] == '[' || (s[w.1] == '.' && !(w.1 + 1 < s.len() && s[w.1 + 1] == '.')))
}

/// The digits that a word of a tag stands for, where `tags` are all tags of the text. The members of
/// `forloop` are sizes and places of lists.
pub open spec fn word_weight(
    tags: Seq<Seq<char>>,
    values: Map<Seq<char>, Seq<char>>,
    s: Seq<char>,
    w: (int, int),
    fuel: nat,
) -> nat
    decreases fuel, 3nat, 0nat,
{
    let word = s.subrange(w.0, w.1);
    if bar_before(s, w.0) {
        filter_weight(word)
    } else if is_numeral(word) {
        digits_in(word)
    } else if begins_with_numeral(word) || (goes_deeper(s, w) && word != "forloop"@) {
        NO_BOUND as nat
    } else {
        both(
            if word == "forloop"@ {
                SIZE_DIGITS as nat
            } else {
                0
            },
            variable_weight(tags, values, word, fuel),
        )
    }
}

/// The digits of a variable: those of its value and of what it is assigned.
pub open spec fn variable_weight(
    tags: Seq<Seq<char>>,
    values: Map<Seq<char>, Seq<char>>,
    name: Seq<char>,
    fuel: nat,
) -> nat
    decreases fuel, 2nat, 0nat,
{
    if fuel == 0 {
        NO_BOUND as nat
    } else {
        both(
            setters_weight(tags, values, name, tags.len(), fuel),
            if values.contains_key(name) {
                digits_in(values[name])
            } else {
                0
            },
        )
    }
}

/// The digits that the first `n` tags give a variable.
pub open spec fn setters_weight(
    tags: Seq<Seq<char>>,
    values: Map<Seq<char>, Seq<char>>,
    name: Seq<char>,
    n: nat,
    fuel: nat,
) -> nat
    decreases fuel, 1nat, n,
{
    if n == 0 || fuel == 0 {
        0
    } else {
        both(
            setters_weight(tags, values, name, (n - 1) as nat, fuel),
            setter_weight(tags, values, tags[n - 1], name, fuel),
        )
    }
}

/// The digits that a tag gives a variable: those of what it assigns to it, or those of a number of a
/// small range, or any number.
pub open spec fn setter_weight(
    tags: Seq<Seq<char>>,
    values: Map<Seq<char>, Seq<char>>,
    tag: Seq<char>,
    name: Seq<char>,
    fuel: nat,
) -> nat
    decreases fuel, 0nat, 0nat,
{
    let s = bare(tag);
    let word = s.subrange(tag_word(s), run_end(s, tag_word(s), true));
    match target(s) {
        Some(t) => if fuel == 0 || !has_prefix(tag, "{%"@) || s.subrange(t.0, t.1) != name {
            0
        } else if word == "assign"@ {
            region_weight(tags, values, tag, t.1, s.len() as int, (fuel - 1) as nat)
        } else if word == "for"@ && has_range(s) {
            9
        } else if word == "for"@ || word == "tablerow"@ || word == "capture"@ || word
            == "increment"@ || word == "decrement"@ {
            NO_BOUND as nat
        } else {
            0
        },
        None => 0,
    }
}

/// The digits of what a tag holds between `from` and `to`.
pub open spec fn region_weight(
    tags: Seq<Seq<char>>,
    values: Map<Seq<char>, Seq<char>>,
    tag: Seq<char>,
    from: int,
    to: int,
    fuel: nat,
) -> nat
    decreases fuel, 5nat, 0nat,
{
    let s = bare(tag);
    let list = words(s, from, true);
    both(
        string_digits(tag, s, from, to),
        words_weight(tags, values, s, list, to, list.len(), fuel),
    )
}

/// The digits of the first `n` words of a list, as far as they begin before `to`.
pub open spec fn words_weight(
    tags: Seq<Seq<char>>,
    values: Map<Seq<char>, Seq<char>>,
    s: Seq<char>,
    list: Seq<(int, int)>,
    to: int,
    n: nat,
    fuel: nat,
) -> nat
    decreases fuel, 4nat, n,
{
    if n == 0 {
        0
    } else {
        both(
            words_weight(tags, values, s, list, to, (n - 1) as nat, fuel),
            if list[n - 1].0 < to {
                word_weight(tags, values, s, list[n - 1], fuel)
            } else {
                0
            },
        )
    }
}

/// The characters of some tags.
pub open spec fn tag_texts(tags: Seq<Vec<char>>) -> Seq<Seq<char>> {
    tags.map_values(|t: Vec<char>| t@)
}

pub fn find_target(v: &Vec<char>) -> (r: Option<(usize, usize)>)
    requires
        v@.len() >= 2,
    ensures
        (match r {
            Some((from, to)) => target(v@) == Some((from as int, to as int)) && from < to
                <= v@.len(),
            None => target(v@) is None,
        }),
{
    let word_end = find_run_end(v, find_tag_word(v), true);
    let list = find_words(v, word_end, true);
    assert(places(list@).len() == list@.len());
    if list.len() > 0 {
        assert(places(list@)[0] == (list@[0].0 as int, list@[0].1 as int));
        Some(list[0])
    } else {
        None
    }
}

pub fn holds_range(v: &Vec<char>) -> (r: bool)
    ensures
        r == has_range(v@),
{
    let mut i: usize = 1;
    while i < v.len()
        invariant
            1 <= i,
            forall|k: int|
                0 <= k < i - 1 && k < v@.len() - 1 ==> !(#[trigger] v@[k] == '.' && v@[k + 1] == '.'),
        decreases v.len() - i,
    {
        if v[i - 1] == '.' && v[i] == '.' {
            assert(v@[i - 1] == '.' && v@[i - 1 + 1] == '.');
            return true;
        }
        i += 1;
    }
    false
}

fn weigh_word(
    tags: &Vec<Vec<char>>,
    values: &liquid::Object,
    v: &Vec<char>,
    from: usize,
    to: usize,
    fuel: u64,
) -> (r: u64)
    requires
        from < to <= v@.len(),
        forall|i: int| 0 <= i < tags@.len() ==> (#[trigger] tags@[i])@.len() >= 2,
    ensures
        r == word_weight(
            tag_texts(tags@),
            object_texts(*values),
            v@,
            (from as int, to as int),
            fuel as nat,
        ),
        r <= NO_BOUND,
    decreases fuel, 3nat, 0nat,
{
    let word = slice_text(v, from, to);
    let chars = chars_of(word.as_str());
    if has_bar_before(v, from) {
        if is_bounded_text(word.as_str()) {
            0
        } else if text_eq(word.as_str(), "size") {
            SIZE_DIGITS
        } else {
            NO_BOUND
        }
    } else if is_numeral_text(&chars) {
        count_digits(&chars)
    } else {
        let c = v[from];
        let numeral = ('0' <= c && c <= '9') || (to - from > 1 && c == '-' && '0' <= v[from + 1]
            && v[from + 1] <= '9');
        assert(numeral == begins_with_numeral(v@.subrange(from as int, to as int)));
        let deeper = to < v.len() && (v[to] == '[' || (v[to] == '.' && !(v.len() - to > 1 && v[to + 1]
            == '.')));
        let count = text_eq(word.as_str(), "forloop");
        if numeral || (deeper && !count) {
            NO_BOUND
        } else {
            sum(
                if count {
                    SIZE_DIGITS
                } else {
                    0
                },
                weigh_variable(tags, values, word.as_str(), fuel),
            )
        }
    }
}

fn weigh_variable(tags: &Vec<Vec<char>>, values: &liquid::Object, name: &str, fuel: u64) -> (r: u64)
    requires
        forall|i: int| 0 <= i < tags@.len() ==> (#[trigger] tags@[i])@.len() >= 2,
    ensures
        r == variable_weight(tag_texts(tags@), object_texts(*values), name@, fuel as nat),
        r <= NO_BOUND,
    decreases fuel, 2nat, 0nat,
{
    if fuel == 0 {
        return NO_BOUND;
    }
    let mut n: usize = 0;
    let mut set: u64 = 0;
    let ghost all = tag_texts(tags@);
    while n < tags.len()
        invariant
            n <= tags@.len(),
            fuel > 0,
            all == tag_texts(tags@),
            forall|i: int| 0 <= i < tags@.len() ==> (#[trigger] tags@[i])@.len() >= 2,
            set == setters_weight(all, object_texts(*values), name@, n as nat, fuel as nat),
            set <= NO_BOUND,
        decreases tags.len() - n,
    {
        assert(all[n as int] == tags@[n as int]@);
        let more = weigh_setter(tags, values, n, name, fuel);
        set = sum(set, more);
        n += 1;
    }
    let own: u64 = match text_of(values, name) {
        Some(text) => count_digits(&chars_of(text.as_str())),
        None => 0,
    };
    sum(set, own)
}

fn weigh_setter(
    tags: &Vec<Vec<char>>,
    values: &liquid::Object,
    n: usize,
    name: &str,
    fuel: u64,
) -> (r: u64)
    requires
        n < tags@.len(),
        fuel > 0,
        forall|i: int| 0 <= i < tags@.len() ==> (#[trigger] tags@[i])@.len() >= 2,
    ensures
        r == setter_weight(
            tag_texts(tags@),
            object_texts(*values),
            tags@[n as int]@,
            name@,
            fuel as nat,
        ),
        r <= NO_BOUND,
    decreases fuel, 0nat, 0nat,
{
    let tag = &tags[n];
    assert(tags@[n as int]@.len() >= 2);
    let v = bare_text(tag);
    let (from, to) = match find_target(&v) {
        Some(t) => t,
        None => {
            return 0;
        },
    };
    let logic = stands_at(tag, &chars_of("{%"), 0);
    let same = text_eq(slice_text(&v, from, to).as_str(), name);
    if !logic || !same {
        return 0;
    }
    let start = find_tag_word(&v);
    let word = slice_text(&v, start, find_run_end(&v, start, true));
    if text_eq(word.as_str(), "assign") {
        weigh_region(tags, values, tag, to, v.len(), fuel - 1)
    } else if text_eq(word.as_str(), "for") && holds_range(&v) {
        9
    } else if text_eq(word.as_str(), "for") || text_eq(word.as_str(), "tablerow") || text_eq(
        word.as_str(),
        "capture",
    ) || text_eq(word.as_str(), "increment") || text_eq(word.as_str(), "decrement") {
        NO_BOUND
    } else {
        0
    }
}

/// Weighs what a tag holds between `from` and `to`.
pub fn weigh_region(
    tags: &Vec<Vec<char>>,
    values: &liquid::Object,
    tag: &Vec<char>,
    from: usize,
    to: usize,
    fuel: u64,
) -> (r: u64)
    requires
        from <= tag@.len(),
        to <= tag@.len(),
        forall|i: int| 0 <= i < tags@.len() ==> (#[trigger] tags@[i])@.len() >= 2,
    ensures
        r == region_weight(
            tag_texts(tags@),
            object_texts(*values),
            tag@,
            from as int,
            to as int,
            fuel as nat,
        ),
        r <= NO_BOUND,
    decreases fuel, 5nat, 0nat,
{
    let v = bare_text(tag);
    let list = find_words(&v, from, true);
    let mut n: usize = 0;
    let mut weight: u64 = 0;
    let ghost all = words(v@, from as int, true);
    let ghost texts = tag_texts(tags@);
    while n < list.len()
        invariant
            n <= list@.len(),
            v@ == bare(tag@),
            v@.len() == tag@.len(),
            places(list@) == all,
            lie_within(list@, v@.len()),
            texts == tag_texts(tags@),
            forall|i: int| 0 <= i < tags@.len() ==> (#[trigger] tags@[i])@.len() >= 2,
            weight == words_weight(
                texts,
                object_texts(*values),
                v@,
                all,
                to as int,
                n as nat,
                fuel as nat,
            ),
            weight <= NO_BOUND,
        decreases list.len() - n,
    {
        let (start, end) = list[n];
        assert(list@[n as int] == (start, end));
        assert(places(list@)[n as int] == (start as int, end as int));
        let more: u64 = if start < to {
            weigh_word(tags, values, &v, start, end, fuel)
        } else {
            0
        };
        weight = sum(weight, more);
        n += 1;
    }
    assert(all.len() == list@.len());
    sum(count_string_digits(tag, &v, from, to), weight)
}

} // verus!
