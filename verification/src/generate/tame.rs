//! Texts that the template language can work on without stopping the program.
//!
//! The language stops the program on an integer literal that does not fit 64 bits, and on a sum,
//! difference, product or quotient that does not. A few of its tags and filters have other such
//! inputs. A tame text has none of them in its tags.
use vstd::prelude::*;

use crate::decimal::is_digit;
use crate::generate::fill::{
    blank_end, does_start_literal, find_blank_end, has_names_only, is_blank, names_only,
    starts_literal,
};
use crate::generate::shape::{find_inner_start, has_good_form, inner_start, is_well_formed};
use crate::generate::lists::{has_plain_region, region_is_plain};
use crate::generate::values::{object_texts, scalar_names};
use crate::generate::weight::{
    count_string_digits, find_target, has_range, holds_range, is_arithmetic, is_arithmetic_text,
    is_numeral, is_numeral_text, region_weight, string_digits, tag_texts, target, weigh_region,
    DEPTH,
};
use crate::generate::words::{
    bar_before, bare, bare_text, can_go_on, can_start_name, colon_behind, find_run_end,
    find_space_end, find_tag_word, find_words, goes_on, has_bar_before, is_quote, lie_within,
    places, quote_behind, run_end, space_end, starts_name, tag_word, words,
};
use crate::text::{
    chars_of, has_prefix, is_space, is_space_char, occurs_at, slice_text, stands_at, text_eq, texts,
};

verus! {

/// The largest integer literal.
pub const LITERAL_MAX: u64 = 0x7fff_ffff_ffff_ffff;

/// The most digits in arithmetic: numbers with so many digits fit 64 bits.
pub const ARITHMETIC_DIGITS: u64 = 18;

/// The most digits in a range: it has no more numbers than a list can hold.
pub const RANGE_DIGITS: u64 = 9;

/// The most digits in the arguments of a filter that cuts.
pub const SLICE_DIGITS: u64 = 9;

/// The most digits in the format of a date: a width of so many digits can be written.
pub const DATE_DIGITS: u64 = 4;

/// The number that the digits directly before `n` stand for.
pub open spec fn number_before(s: Seq<char>, n: int) -> nat
    decreases n,
{
    if 0 < n <= s.len() && is_digit(s[n - 1]) {
        10 * number_before(s, n - 1) + (s[n - 1] as u32 - '0' as u32) as nat
    } else {
        0
    }
}

/// Whether no number in a text is larger than `max`.
pub open spec fn numbers_fit(s: Seq<char>, max: u64) -> bool {
    forall|n: int| 0 <= n <= s.len() ==> #[trigger] number_before(s, n) <= max
}

fn all_numbers_fit(v: &Vec<char>, max: u64) -> (r: bool)
    ensures
        r == numbers_fit(v@, max),
{
    let mut i: usize = 0;
    let mut number: u64 = 0;
    while i < v.len()
        invariant
            i <= v@.len(),
            number == number_before(v@, i as int),
            number <= max,
            forall|n: int| 0 <= n <= i ==> #[trigger] number_before(v@, n) <= max,
        decreases v.len() - i,
    {
        let c = v[i];
        if '0' <= c && c <= '9' {
            let next: u128 = 10 * (number as u128) + (c as u32 - '0' as u32) as u128;
            assert(next == number_before(v@, i + 1));
            if next > max as u128 {
                return false;
            }
            number = next as u64;
        } else {
            number = 0;
        }
        i += 1;
    }
    true
}

/// Whether a word is a name, or holds no number that does not fit a literal.
pub open spec fn literal_fits(word: Seq<char>) -> bool {
    (word.len() > 0 && starts_name(word[0]) && !starts_literal(word)) || numbers_fit(
        word,
        LITERAL_MAX,
    )
}

/// The words of a tag, where `s` is the tag without its strings.
pub open spec fn word_list(s: Seq<char>) -> Seq<(int, int)> {
    words(s, inner_start(s), true)
}

fn find_word_list(v: &Vec<char>) -> (r: Vec<(usize, usize)>)
    requires
        v@.len() >= 2,
    ensures
        places(r@) == word_list(v@),
        lie_within(r@, v@.len()),
{
    find_words(v, find_inner_start(v), true)
}

/// Whether all literals of a tag fit, where `s` is the tag without its strings.
pub open spec fn literals_fit(s: Seq<char>) -> bool {
    forall|i: int|
        0 <= i < word_list(s).len() ==> literal_fits(
            s.subrange((#[trigger] word_list(s)[i]).0, word_list(s)[i].1),
        )
}

fn all_literals_fit(v: &Vec<char>) -> (r: bool)
    requires
        v@.len() >= 2,
    ensures
        r == literals_fit(v@),
{
    let list = find_word_list(v);
    let mut i: usize = 0;
    let ghost all = word_list(v@);
    assert(all.len() == list@.len());
    while i < list.len()
        invariant
            i <= list@.len(),
            all == word_list(v@),
            all.len() == list@.len(),
            places(list@) == all,
            lie_within(list@, v@.len()),
            forall|k: int|
                0 <= k < i ==> literal_fits(v@.subrange((#[trigger] all[k]).0, all[k].1)),
        decreases list.len() - i,
    {
        let (from, to) = list[i];
        assert(list@[i as int] == (from, to));
        assert(places(list@)[i as int] == (from as int, to as int));
        assert(all[i as int] == (from as int, to as int));
        let word = slice_text(v, from, to);
        if !(can_start_name(v[from]) && !does_start_literal(word.as_str())) && !all_numbers_fit(
            &chars_of(word.as_str()),
            LITERAL_MAX,
        ) {
            assert(!literal_fits(v@.subrange(word_list(v@)[i as int].0, word_list(v@)[i as int].1)));
            return false;
        }
        i += 1;
    }
    true
}

/// The first place from `at` on where `mark` stands outside strings, where `quote` is the quote that
/// a string is open with at `at`.
pub open spec fn close_from(s: Seq<char>, mark: Seq<char>, at: int, quote: Option<char>) -> Option<
    int,
>
    decreases s.len() - at,
{
    if at < 0 || at >= s.len() {
        None
    } else if quote is None && occurs_at(s, mark, at) {
        Some(at)
    } else {
        close_from(s, mark, at + 1, quote_behind(quote, s[at]))
    }
}

/// Where the tag that opens at `at` has its end mark, where there is such a tag.
pub open spec fn tag_close(s: Seq<char>, at: int) -> Option<int> {
    if occurs_at(s, "{{"@, at) {
        close_from(s, "}}"@, at + 2, None)
    } else if occurs_at(s, "{%"@, at) {
        close_from(s, "%}"@, at + 2, None)
    } else {
        None
    }
}

fn find_close(v: &Vec<char>, mark: &Vec<char>, from: usize) -> (r: Option<usize>)
    requires
        from <= v@.len(),
    ensures
        (match r {
            Some(end) => close_from(v@, mark@, from as int, None) == Some(end as int) && from <= end
                && end + mark@.len() <= v@.len(),
            None => close_from(v@, mark@, from as int, None) is None,
        }),
{
    let mut at: usize = from;
    let mut quote: Option<char> = None;
    while at < v.len()
        invariant
            from <= at <= v@.len(),
            close_from(v@, mark@, at as int, quote) == close_from(v@, mark@, from as int, None),
        decreases v.len() - at,
    {
        let c = v[at];
        match quote {
            Some(q) => {
                if c == q {
                    quote = None;
                }
            },
            None => {
                if stands_at(v, mark, at) {
                    return Some(at);
                }
                if c == '"' || c == '\'' {
                    quote = Some(c);
                }
            },
        }
        at += 1;
    }
    None
}

fn find_tag_close(v: &Vec<char>, at: usize) -> (r: Option<usize>)
    requires
        at <= v@.len(),
    ensures
        (match r {
            Some(end) => tag_close(v@, at as int) == Some(end as int) && at + 2 <= end && end + 2
                <= v@.len(),
            None => tag_close(v@, at as int) is None,
        }),
{
    proof {
        reveal_strlit("{{");
        reveal_strlit("{%");
        reveal_strlit("}}");
        reveal_strlit("%}");
        assert("{{"@.len() == 2 && "{%"@.len() == 2 && "}}"@.len() == 2 && "%}"@.len() == 2);
        assert(v.len() == v@.len());
    }
    if stands_at(v, &chars_of("{{"), at) {
        find_close(v, &chars_of("}}"), at + 2)
    } else if stands_at(v, &chars_of("{%"), at) {
        find_close(v, &chars_of("%}"), at + 2)
    } else {
        None
    }
}

/// A tag from its opening up to its end mark, without a hyphen that belongs to the mark.
pub open spec fn unmarked(tag: Seq<char>) -> Seq<char> {
    if tag.len() > 2 && tag.last() == '-' {
        tag.drop_last()
    } else {
        tag
    }
}

/// The tag that opens at `at`, where there is one: from its opening up to its end mark.
pub open spec fn tag_at(s: Seq<char>, at: int) -> Option<Seq<char>> {
    match tag_close(s, at) {
        Some(end) => Some(unmarked(s.subrange(at, end))),
        None => None,
    }
}

fn find_tag(v: &Vec<char>, at: usize) -> (r: Option<Vec<char>>)
    requires
        at <= v@.len(),
    ensures
        (match r {
            Some(tag) => tag_at(v@, at as int) == Some(tag@) && tag@.len() >= 2,
            None => tag_at(v@, at as int) is None,
        }),
{
    match find_tag_close(v, at) {
        Some(end) => {
            let ghost whole = v@.subrange(at as int, end as int);
            let stop: usize = if end - at > 2 && v[end - 1] == '-' {
                end - 1
            } else {
                end
            };
            let tag = chars_of(slice_text(v, at, stop).as_str());
            assert(tag@ =~= unmarked(whole));
            Some(tag)
        },
        None => None,
    }
}

/// The first place from `at` on where a tag opens, the end of the text where there is none.
pub open spec fn next_opening(s: Seq<char>, at: int) -> int
    decreases s.len() - at,
{
    if at < 0 || at >= s.len() {
        s.len() as int
    } else if opens_at(s, at) {
        at
    } else {
        next_opening(s, at + 1)
    }
}

/// Whether a tag opens at `at`.
pub open spec fn opens_at(s: Seq<char>, at: int) -> bool {
    occurs_at(s, "{{"@, at) || occurs_at(s, "{%"@, at)
}

/// Whether no logic tag opens between `from` and `to`.
pub open spec fn no_logic_between(s: Seq<char>, from: int, to: int) -> bool {
    forall|i: int| from <= i < to ==> !#[trigger] occurs_at(s, "{%"@, i)
}

/// Whether the logic tag that opens at `at` is the end of a comment.
pub open spec fn ends_comment(s: Seq<char>, at: int) -> bool {
    let word = blank_end(
        s,
        if at + 2 < s.len() && s[at + 2] == '-' {
            at + 3
        } else {
            at + 2
        },
    );
    let end = blank_end(s, word + 10);
    &&& occurs_at(s, "endcomment"@, word)
    &&& occurs_at(s, "%}"@, end) || occurs_at(s, "-%}"@, end)
}

/// The first word of a logic tag, none of an output tag.
pub open spec fn logic_word(tag: Seq<char>) -> Seq<char> {
    let s = bare(tag);
    if has_prefix(tag, "{%"@) {
        s.subrange(tag_word(s), run_end(s, tag_word(s), true))
    } else {
        Seq::empty()
    }
}

/// Whether a logic tag opens no block and closes none.
pub open spec fn stands_alone(word: Seq<char>) -> bool {
    ||| word == "assign"@
    ||| word == "break"@
    ||| word == "continue"@
    ||| word == "cycle"@
    ||| word == "decrement"@
    ||| word == "else"@
    ||| word == "elsif"@
    ||| word == "increment"@
    ||| word == "when"@
}

/// Whether a logic tag opens a block whose tags are read.
pub open spec fn opens_block(word: Seq<char>) -> bool {
    ||| word == "capture"@
    ||| word == "case"@
    ||| word == "for"@
    ||| word == "if"@
    ||| word == "ifchanged"@
    ||| word == "tablerow"@
    ||| word == "unless"@
}

/// Whether a comment that is open at `at` ends, or the text does, with all blocks closed that open in
/// it. `open` are the words that close those that are open at `at`. Tags in a block must be well
/// formed.
pub open spec fn comment_is_plain(s: Seq<char>, at: int, open: Seq<Seq<char>>) -> bool
    decreases s.len() - at,
{
    let next = next_opening(s, at);
    if at < 0 || next < at || next >= s.len() {
        open.len() == 0
    } else {
        match tag_close(s, next) {
            Some(end) => {
                let tag = unmarked(s.subrange(next, end));
                let word = logic_word(tag);
                if end + 2 <= at || end + 2 > s.len() {
                    false
                } else if occurs_at(s, "{{"@, next) {
                    &&& no_logic_between(s, next, end)
                    &&& open.len() == 0 || is_well_formed(tag)
                    &&& comment_is_plain(s, end + 2, open)
                } else if ends_comment(s, next) {
                    open.len() == 0
                } else {
                    &&& no_logic_between(s, next + 1, end)
                    &&& is_well_formed(tag) || (open.len() == 0 && stands_alone(word))
                    &&& if opens_block(word) {
                        comment_is_plain(s, end + 2, open.push("end"@ + word))
                    } else if open.len() > 0 && word == open.last() {
                        comment_is_plain(s, end + 2, open.drop_last())
                    } else {
                        stands_alone(word) && comment_is_plain(s, end + 2, open)
                    }
                }
            },
            None => {
                &&& open.len() == 0 && occurs_at(s, "{{"@, next)
                &&& comment_is_plain(s, next + 1, open)
            },
        }
    }
}

/// Where the line begins on which `at` lies.
pub open spec fn line_start(s: Seq<char>, at: int) -> int
    decreases at,
{
    if 0 < at <= s.len() && s[at - 1] != '\n' {
        line_start(s, at - 1)
    } else {
        at
    }
}

/// Where the blanks that end at `at` begin.
pub open spec fn blank_start(s: Seq<char>, at: int) -> int
    decreases at,
{
    if 0 < at <= s.len() && is_blank(s[at - 1]) {
        blank_start(s, at - 1)
    } else {
        at
    }
}

/// Where the tag that opens at `at` begins: a hyphen at its opening makes the blanks before it a
/// part of it.
pub open spec fn tag_begin(s: Seq<char>, at: int) -> int {
    if at + 2 < s.len() && s[at + 2] == '-' {
        blank_start(s, at)
    } else {
        at
    }
}

/// Whether a quote stands between the opening of a tag and `to`, both from `from` on.
pub open spec fn quotes_in_tags(s: Seq<char>, from: int, to: int) -> bool {
    exists|x: int, q: int|
        from <= x < q < to && #[trigger] opens_at(s, x) && is_quote(#[trigger] s[q])
}

/// Whether the tag that opens at `y` closes at `at` or behind it.
pub open spec fn closes_behind(s: Seq<char>, y: int, at: int) -> bool {
    match tag_close(s, y) {
        Some(end) => end >= at,
        None => false,
    }
}

/// Whether a tag that opens before `at` closes at it or behind it.
pub open spec fn inside_tag(s: Seq<char>, at: int) -> bool {
    exists|y: int| 0 <= y < at && #[trigger] closes_behind(s, y, at)
}

/// Whether a character between `from` and `to` takes more than one byte.
pub open spec fn has_wide_char(s: Seq<char>, from: int, to: int) -> bool {
    exists|i: int| from <= i < to && #[trigger] s[i] as u32 >= 128
}

/// Whether an error in the tag that opens at `at` could be hidden from the language. To report an
/// error it reads the text again, from the start of the line on and without as many bytes as the
/// wide characters before the tag have too many. A string that is open then would hide the tag,
/// and an error that is not found again stops the program. There is no error in a well formed tag.
pub open spec fn hides_error(s: Seq<char>, at: int) -> bool {
    let begin = tag_begin(s, at);
    let line = line_start(s, begin);
    &&& !(tag_at(s, at) matches Some(tag) && is_well_formed(tag))
    &&& quotes_in_tags(s, line, begin)
    &&& has_wide_char(s, line, begin) || inside_tag(s, line)
}

/// Whether the language can read the tag that opens at `at`, if one does. In a comment, it reads past
/// the end of the text where a block is not closed.
pub open spec fn readable_at(s: Seq<char>, at: int) -> bool {
    &&& opens_at(s, at) ==> !hides_error(s, at)
    &&& tag_at(s, at) matches Some(tag) ==> {
        &&& literals_fit(bare(tag))
        &&& logic_word(tag) == "comment"@ ==> comment_is_plain(
            s,
            tag_close(s, at)->0 + 2,
            Seq::empty(),
        )
    }
}

/// Whether the language can read a text without stopping the program.
pub open spec fn readable(s: Seq<char>) -> bool {
    names_only(s) || forall|at: int| 0 <= at < s.len() ==> #[trigger] readable_at(s, at)
}

/// The tags that open from `at` on, wherever one does.
pub open spec fn tags_from(s: Seq<char>, at: int) -> Seq<Seq<char>>
    decreases s.len() - at,
{
    if at < 0 || at >= s.len() {
        Seq::empty()
    } else {
        match tag_at(s, at) {
            Some(tag) => seq![tag] + tags_from(s, at + 1),
            None => tags_from(s, at + 1),
        }
    }
}

/// Where what a tag computes with begins: behind the variable that it sets, where it sets one.
pub open spec fn source_start(tag: Seq<char>) -> int {
    let s = bare(tag);
    let word = logic_word(tag);
    if word == "assign"@ || word == "for"@ || word == "tablerow"@ {
        match target(s) {
            Some(t) => t.1,
            None => inner_start(s),
        }
    } else {
        inner_start(s)
    }
}

/// The first vertical bar from `at` on, the end of the tag where there is none.
pub open spec fn next_bar(s: Seq<char>, at: int) -> int
    decreases s.len() - at,
{
    if at < 0 || at >= s.len() {
        s.len() as int
    } else if s[at] == '|' {
        at
    } else {
        next_bar(s, at + 1)
    }
}

/// Whether what stands between `from` and `to` can be the format of a date: ASCII strings with few
/// digits and nothing else.
pub open spec fn is_date_format(tag: Seq<char>, s: Seq<char>, from: int, to: int) -> bool {
    &&& string_digits(tag, s, from, to) <= DATE_DIGITS
    &&& forall|i: int|
        from <= i < to ==> (#[trigger] tag[i] as u32) < 128 && !goes_on(s[i], true)
}

/// Whether the word at place `i` of a list is the filter `name`.
pub open spec fn is_filter(s: Seq<char>, list: Seq<(int, int)>, i: int, name: Seq<char>) -> bool {
    bar_before(s, list[i].0) && s.subrange(list[i].0, list[i].1) == name
}

/// Whether the word at place `i` of a list is a filter that can bring in another list.
pub open spec fn brings_list(s: Seq<char>, list: Seq<(int, int)>, i: int) -> bool {
    is_filter(s, list, i, "concat"@) || is_filter(s, list, i, "default"@)
}

/// Whether a list is sorted that was made by splitting a text: one of the filters before place `n`
/// splits, and no filter of the tag brings in another list.
pub open spec fn sorts_texts(s: Seq<char>, list: Seq<(int, int)>, n: int) -> bool {
    &&& exists|i: int| 0 <= i < n && #[trigger] is_filter(s, list, i, "split"@)
    &&& forall|i: int| 0 <= i < list.len() ==> !#[trigger] brings_list(s, list, i)
}

/// Whether the filter at place `i` among the words of a tag has no input on which it stops the
/// program.
pub open spec fn calm_filter(
    tags: Seq<Seq<char>>,
    values: Map<Seq<char>, Seq<char>>,
    scalars: Set<Seq<char>>,
    tag: Seq<char>,
    i: int,
) -> bool {
    let s = bare(tag);
    let list = word_list(s);
    let w = list[i];
    let word = s.subrange(w.0, w.1);
    let end = next_bar(s, w.1);
    &&& is_arithmetic(word) ==> region_weight(
        tags,
        values,
        tag,
        source_start(tag),
        end,
        DEPTH as nat,
    ) <= ARITHMETIC_DIGITS
    &&& word == "slice"@ ==> region_weight(tags, values, tag, w.1, end, DEPTH as nat)
        <= SLICE_DIGITS
    &&& word == "date"@ ==> is_date_format(tag, s, w.1, end)
    &&& word == "sort"@ ==> sorts_texts(s, list, i) || region_is_plain(
        tags,
        values,
        scalars,
        tag,
        source_start(tag),
        w.0,
        DEPTH as nat,
    )
}

/// Whether a colon is the last character before `n` that is no white space.
pub open spec fn colon_before(s: Seq<char>, n: int) -> bool
    decreases n,
{
    0 < n <= s.len() && (s[n - 1] == ':' || (is_space(s[n - 1]) && colon_before(s, n - 1)))
}

/// Whether the number of columns behind the word at `w` is a numeral, and not zero.
pub open spec fn columns_fit(s: Seq<char>, w: (int, int)) -> bool {
    let at = space_end(s, space_end(s, w.1) + 1);
    let word = s.subrange(at, run_end(s, at, true));
    &&& at < s.len() && is_numeral(word) && word.len() <= SLICE_DIGITS
    &&& exists|i: int| 0 <= i < word.len() && '1' <= #[trigger] word[i] <= '9'
}

/// Whether a logic tag has no input on which it stops the program: it brings in no other text, it
/// cycles through something, and its rows have columns.
pub open spec fn calm_logic(tag: Seq<char>) -> bool {
    let s = bare(tag);
    let list = word_list(s);
    let word = logic_word(tag);
    &&& word != "include"@ && word != "render"@
    &&& word == "cycle"@ ==> !colon_before(s, s.len() as int)
    &&& word == "tablerow"@ ==> forall|i: int|
        0 <= i < list.len() && s.subrange((#[trigger] list[i]).0, list[i].1) == "cols"@
            && colon_behind(s, list[i].1) ==> columns_fit(s, list[i])
}

/// Whether a tag has nothing in it on which the language stops the program, where `tags` are all
/// tags of the text.
pub open spec fn calm_tag(
    tags: Seq<Seq<char>>,
    values: Map<Seq<char>, Seq<char>>,
    scalars: Set<Seq<char>>,
    tag: Seq<char>,
) -> bool {
    let s = bare(tag);
    let list = word_list(s);
    &&& has_range(s) ==> region_weight(
        tags,
        values,
        tag,
        source_start(tag),
        s.len() as int,
        DEPTH as nat,
    ) <= RANGE_DIGITS
    &&& forall|i: int|
        0 <= i < list.len() && bar_before(s, (#[trigger] list[i]).0) ==> calm_filter(
            tags,
            values,
            scalars,
            tag,
            i,
        )
    &&& calm_logic(tag)
}

/// Whether the language can read a text and work on it with some values without stopping the
/// program. `scalars` are the names whose value is no list.
pub open spec fn tame(
    s: Seq<char>,
    values: Map<Seq<char>, Seq<char>>,
    scalars: Set<Seq<char>>,
) -> bool {
    let tags = tags_from(s, 0);
    &&& readable(s)
    &&& names_only(s) || forall|i: int|
        0 <= i < tags.len() ==> calm_tag(tags, values, scalars, #[trigger] tags[i])
}

fn does_open(v: &Vec<char>, at: usize) -> (r: bool)
    requires
        at <= v@.len(),
    ensures
        r == opens_at(v@, at as int),
        r ==> at + 2 <= v@.len(),
{
    proof {
        reveal_strlit("{{");
        reveal_strlit("{%");
    }
    stands_at(v, &chars_of("{{"), at) || stands_at(v, &chars_of("{%"), at)
}

fn find_next_opening(v: &Vec<char>, from: usize) -> (r: usize)
    requires
        from <= v@.len(),
    ensures
        r == next_opening(v@, from as int),
        from <= r <= v@.len(),
        r < v@.len() ==> opens_at(v@, r as int),
{
    let mut at: usize = from;
    while at < v.len()
        invariant
            from <= at <= v@.len(),
            next_opening(v@, at as int) == next_opening(v@, from as int),
        decreases v.len() - at,
    {
        if does_open(v, at) {
            return at;
        }
        at += 1;
    }
    at
}

fn has_no_logic_between(v: &Vec<char>, from: usize, to: usize) -> (r: bool)
    requires
        from <= v@.len(),
        to <= v@.len(),
    ensures
        r == no_logic_between(v@, from as int, to as int),
{
    let mark = chars_of("{%");
    let mut i: usize = from;
    while i < to
        invariant
            from <= i,
            to <= v@.len(),
            mark@ == "{%"@,
            forall|k: int| from <= k < i ==> !#[trigger] occurs_at(v@, "{%"@, k),
        decreases to - i,
    {
        if stands_at(v, &mark, i) {
            assert(occurs_at(v@, "{%"@, i as int));
            return false;
        }
        i += 1;
    }
    true
}

fn does_end_comment(v: &Vec<char>, at: usize) -> (r: bool)
    requires
        at + 2 <= v@.len(),
    ensures
        r == ends_comment(v@, at as int),
{
    assert(v.len() == v@.len());
    let word = if v.len() - at > 2 && v[at + 2] == '-' {
        find_blank_end(v, at + 3)
    } else {
        find_blank_end(v, at + 2)
    };
    if !stands_at(v, &chars_of("endcomment"), word) {
        return false;
    }
    proof {
        reveal_strlit("endcomment");
        assert("endcomment"@.len() == 10);
        assert(v.len() == v@.len());
    }
    let end = find_blank_end(v, word + 10);
    stands_at(v, &chars_of("%}"), end) || stands_at(v, &chars_of("-%}"), end)
}

fn find_logic_word(tag: &Vec<char>) -> (r: String)
    requires
        tag@.len() >= 2,
    ensures
        r@ == logic_word(tag@),
{
    if stands_at(tag, &chars_of("{%"), 0) {
        let v = bare_text(tag);
        let at = find_tag_word(&v);
        slice_text(&v, at, find_run_end(&v, at, true))
    } else {
        let none = String::new();
        assert(none@ =~= Seq::empty());
        none
    }
}

fn does_stand_alone(word: &str) -> (r: bool)
    ensures
        r == stands_alone(word@),
{
    text_eq(word, "assign") || text_eq(word, "break") || text_eq(word, "continue") || text_eq(
        word,
        "cycle",
    ) || text_eq(word, "decrement") || text_eq(word, "else") || text_eq(word, "elsif") || text_eq(
        word,
        "increment",
    ) || text_eq(word, "when")
}

fn does_open_block(word: &str) -> (r: bool)
    ensures
        r == opens_block(word@),
{
    text_eq(word, "capture") || text_eq(word, "case") || text_eq(word, "for") || text_eq(word, "if")
        || text_eq(word, "ifchanged") || text_eq(word, "tablerow") || text_eq(word, "unless")
}

fn is_comment_plain(v: &Vec<char>, from: usize) -> (r: bool)
    requires
        from <= v@.len(),
    ensures
        r == comment_is_plain(v@, from as int, Seq::empty()),
{
    let output = chars_of("{{");
    let mut open: Vec<String> = Vec::new();
    let mut at: usize = from;
    assert(texts(open@) =~= Seq::empty());
    loop
        invariant
            at <= v@.len(),
            v.len() == v@.len(),
            output@ == "{{"@,
            comment_is_plain(v@, at as int, texts(open@)) == comment_is_plain(
                v@,
                from as int,
                Seq::empty(),
            ),
        decreases v.len() - at,
    {
        let next = find_next_opening(v, at);
        assert(texts(open@).len() == open@.len());
        if next >= v.len() {
            return open.len() == 0;
        }
        let writes = stands_at(v, &output, next);
        match find_tag_close(v, next) {
            Some(end) => {
                let tag = match find_tag(v, next) {
                    Some(tag) => tag,
                    None => {
                        return false;
                    },
                };
                let word = find_logic_word(&tag);
                if writes {
                    if !has_no_logic_between(v, next, end) || (open.len() > 0 && !has_good_form(
                        &tag,
                    )) {
                        return false;
                    }
                } else {
                    if does_end_comment(v, next) {
                        return open.len() == 0;
                    }
                    let alone = does_stand_alone(word.as_str());
                    if !has_no_logic_between(v, next + 1, end) || !(has_good_form(&tag) || (open.len()
                        == 0 && alone)) {
                        return false;
                    }
                    let ghost before = texts(open@);
                    if does_open_block(word.as_str()) {
                        let close = "end".to_owned().concat(word.as_str());
                        let ghost text = close@;
                        open.push(close);
                        assert(texts(open@) =~= before.push(text));
                    } else if open.len() > 0 && text_eq(
                        word.as_str(),
                        open[open.len() - 1].as_str(),
                    ) {
                        assert(before.last() == open@[open@.len() - 1]@);
                        let _ = open.pop();
                        assert(texts(open@) =~= before.drop_last());
                    } else {
                        assert(open@.len() > 0 ==> before.last() == open@[open@.len() - 1]@);
                        if !alone {
                            return false;
                        }
                    }
                }
                at = end + 2;
            },
            None => {
                if open.len() > 0 || !writes {
                    return false;
                }
                at = next + 1;
            },
        }
    }
}

fn find_tag_begin(v: &Vec<char>, at: usize) -> (r: usize)
    requires
        at + 2 <= v@.len(),
    ensures
        r == tag_begin(v@, at as int),
        r <= at,
{
    assert(v.len() == v@.len());
    let mut i: usize = at;
    if v.len() - at > 2 && v[at + 2] == '-' {
        while i > 0 && (v[i - 1] == ' ' || v[i - 1] == '\n' || v[i - 1] == '\r')
            invariant
                i <= at <= v@.len(),
                blank_start(v@, i as int) == blank_start(v@, at as int),
            decreases i,
        {
            i -= 1;
        }
    }
    i
}

fn find_line_start(v: &Vec<char>, at: usize) -> (r: usize)
    requires
        at <= v@.len(),
    ensures
        r == line_start(v@, at as int),
        r <= at,
{
    let mut i: usize = at;
    while i > 0 && v[i - 1] != '\n'
        invariant
            i <= at <= v@.len(),
            line_start(v@, i as int) == line_start(v@, at as int),
        decreases i,
    {
        i -= 1;
    }
    i
}

fn has_quotes_in_tags(v: &Vec<char>, from: usize, to: usize) -> (r: bool)
    requires
        from <= to <= v@.len(),
    ensures
        r == quotes_in_tags(v@, from as int, to as int),
{
    let mut i: usize = from;
    let mut open = false;
    let ghost mut first: int = 0;
    while i < to
        invariant
            from <= i <= to <= v@.len(),
            open ==> from <= first < i && opens_at(v@, first),
            !open ==> forall|x: int| from <= x < i ==> !#[trigger] opens_at(v@, x),
            forall|x: int, q: int|
                from <= x < q < i && #[trigger] opens_at(v@, x) ==> !is_quote(#[trigger] v@[q]),
        decreases to - i,
    {
        let c = v[i];
        if open && (c == '"' || c == '\'') {
            assert(opens_at(v@, first) && is_quote(v@[i as int]));
            return true;
        }
        if does_open(v, i) {
            if !open {
                proof {
                    first = i as int;
                }
            }
            open = true;
        }
        i += 1;
    }
    false
}

fn has_wide_char_between(v: &Vec<char>, from: usize, to: usize) -> (r: bool)
    requires
        from <= to <= v@.len(),
    ensures
        r == has_wide_char(v@, from as int, to as int),
{
    let mut i: usize = from;
    while i < to
        invariant
            from <= i <= to <= v@.len(),
            forall|k: int| from <= k < i ==> (#[trigger] v@[k] as u32) < 128,
        decreases to - i,
    {
        if v[i] as u32 >= 128 {
            assert(v@[i as int] as u32 >= 128);
            return true;
        }
        i += 1;
    }
    false
}

fn is_inside_tag(v: &Vec<char>, at: usize) -> (r: bool)
    requires
        at <= v@.len(),
    ensures
        r == inside_tag(v@, at as int),
{
    let mut i: usize = 0;
    while i < at
        invariant
            i <= at <= v@.len(),
            forall|y: int| 0 <= y < i ==> !#[trigger] closes_behind(v@, y, at as int),
        decreases at - i,
    {
        match find_tag_close(v, i) {
            Some(end) => {
                if end >= at {
                    assert(closes_behind(v@, i as int, at as int));
                    return true;
                }
            },
            None => {},
        }
        i += 1;
    }
    false
}

fn does_hide_error(v: &Vec<char>, at: usize) -> (r: bool)
    requires
        at + 2 <= v@.len(),
    ensures
        r == hides_error(v@, at as int),
{
    match find_tag(v, at) {
        Some(tag) => {
            if has_good_form(&tag) {
                return false;
            }
        },
        None => {},
    }
    let begin = find_tag_begin(v, at);
    let line = find_line_start(v, begin);
    has_quotes_in_tags(v, line, begin) && (has_wide_char_between(v, line, begin) || is_inside_tag(
        v,
        line,
    ))
}

fn is_readable_at(v: &Vec<char>, at: usize) -> (r: bool)
    requires
        at < v@.len(),
    ensures
        r == readable_at(v@, at as int),
{
    assert(v.len() == v@.len());
    if does_open(v, at) && does_hide_error(v, at) {
        return false;
    }
    match find_tag_close(v, at) {
        Some(end) => match find_tag(v, at) {
            Some(tag) => {
                let word = find_logic_word(&tag);
                all_literals_fit(&bare_text(&tag)) && (!text_eq(word.as_str(), "comment")
                    || is_comment_plain(v, end + 2))
            },
            None => true,
        },
        None => true,
    }
}

/// Tells whether the language can read a text without stopping the program.
pub fn is_readable(text: &str) -> (r: bool)
    ensures
        r == readable(text@),
{
    let v = chars_of(text);
    if has_names_only(&v) {
        return true;
    }
    let mut i: usize = 0;
    while i < v.len()
        invariant
            i <= v@.len(),
            v@ == text@,
            !names_only(text@),
            forall|at: int| 0 <= at < i ==> #[trigger] readable_at(v@, at),
        decreases v.len() - i,
    {
        if v[i] == '{' && !is_readable_at(&v, i) {
            assert(!readable_at(v@, i as int));
            return false;
        }
        assert(readable_at(v@, i as int)) by {
            if v@[i as int] != '{' {
                lemma_no_tag_without_brace(v@, i as int);
            }
        }
        i += 1;
    }
    true
}

proof fn lemma_no_tag_without_brace(s: Seq<char>, at: int)
    requires
        0 <= at < s.len(),
        s[at] != '{',
    ensures
        !opens_at(s, at),
        tag_at(s, at) is None,
{
    reveal_strlit("{{");
    reveal_strlit("{%");
    if occurs_at(s, "{{"@, at) {
        assert(s.subrange(at, at + 2)[0] == "{{"@[0]);
    }
    if occurs_at(s, "{%"@, at) {
        assert(s.subrange(at, at + 2)[0] == "{%"@[0]);
    }
}

fn find_all_tags(v: &Vec<char>) -> (r: Vec<Vec<char>>)
    ensures
        tag_texts(r@) == tags_from(v@, 0),
        forall|i: int| 0 <= i < r@.len() ==> (#[trigger] r@[i])@.len() >= 2,
{
    let mut r: Vec<Vec<char>> = Vec::new();
    let mut at: usize = 0;
    assert(tag_texts(r@) + tags_from(v@, 0) =~= tags_from(v@, 0));
    while at < v.len()
        invariant
            at <= v@.len(),
            tag_texts(r@) + tags_from(v@, at as int) == tags_from(v@, 0),
            forall|i: int| 0 <= i < r@.len() ==> (#[trigger] r@[i])@.len() >= 2,
        decreases v.len() - at,
    {
        let ghost before = tag_texts(r@);
        if v[at] == '{' {
            match find_tag(v, at) {
                Some(tag) => {
                    let ghost text = tag@;
                    r.push(tag);
                    assert(tag_texts(r@) =~= before.push(text));
                    assert(tag_texts(r@) + tags_from(v@, at + 1) =~= before + tags_from(
                        v@,
                        at as int,
                    ));
                },
                None => {},
            }
        } else {
            proof {
                lemma_no_tag_without_brace(v@, at as int);
            }
        }
        at += 1;
    }
    assert(tag_texts(r@) =~= tags_from(v@, 0));
    r
}

fn find_source_start(tag: &Vec<char>) -> (r: usize)
    requires
        tag@.len() >= 2,
    ensures
        r == source_start(tag@),
        r <= tag@.len(),
{
    let v = bare_text(tag);
    let word = find_logic_word(tag);
    if text_eq(word.as_str(), "assign") || text_eq(word.as_str(), "for") || text_eq(
        word.as_str(),
        "tablerow",
    ) {
        match find_target(&v) {
            Some(t) => t.1,
            None => find_inner_start(&v),
        }
    } else {
        find_inner_start(&v)
    }
}

fn find_next_bar(v: &Vec<char>, from: usize) -> (r: usize)
    requires
        from <= v@.len(),
    ensures
        r == next_bar(v@, from as int),
        from <= r <= v@.len(),
{
    let mut i: usize = from;
    while i < v.len() && v[i] != '|'
        invariant
            from <= i <= v@.len(),
            next_bar(v@, i as int) == next_bar(v@, from as int),
        decreases v.len() - i,
    {
        i += 1;
    }
    i
}

fn has_date_format(tag: &Vec<char>, v: &Vec<char>, from: usize, to: usize) -> (r: bool)
    requires
        from <= to <= v@.len() == tag@.len(),
    ensures
        r == is_date_format(tag@, v@, from as int, to as int),
{
    if count_string_digits(tag, v, from, to) > DATE_DIGITS {
        return false;
    }
    let mut i: usize = from;
    while i < to
        invariant
            from <= i,
            to <= v@.len() == tag@.len(),
            forall|k: int|
                from <= k < i ==> (#[trigger] tag@[k] as u32) < 128 && !goes_on(v@[k], true),
        decreases to - i,
    {
        if tag[i] as u32 >= 128 || can_go_on(v[i], true) {
            assert(!((tag@[i as int] as u32) < 128 && !goes_on(v@[i as int], true)));
            return false;
        }
        i += 1;
    }
    true
}

fn is_filter_at(v: &Vec<char>, list: &Vec<(usize, usize)>, i: usize, name: &str) -> (r: bool)
    requires
        i < list@.len(),
        lie_within(list@, v@.len()),
    ensures
        r == is_filter(v@, places(list@), i as int, name@),
{
    let (from, to) = list[i];
    assert(list@[i as int] == (from, to));
    assert(places(list@)[i as int] == (from as int, to as int));
    has_bar_before(v, from) && text_eq(slice_text(v, from, to).as_str(), name)
}

fn does_sort_texts(v: &Vec<char>, list: &Vec<(usize, usize)>, n: usize) -> (r: bool)
    requires
        n <= list@.len(),
        lie_within(list@, v@.len()),
    ensures
        r == sorts_texts(v@, places(list@), n as int),
{
    let ghost all = places(list@);
    let mut split = false;
    let mut i: usize = 0;
    assert(all.len() == list@.len());
    while i < list.len()
        invariant
            i <= list@.len(),
            n <= list@.len(),
            all == places(list@),
            all.len() == list@.len(),
            lie_within(list@, v@.len()),
            split == (exists|k: int|
                0 <= k < i && k < n && #[trigger] is_filter(v@, all, k, "split"@)),
            forall|k: int| 0 <= k < i ==> !#[trigger] brings_list(v@, all, k),
        decreases list.len() - i,
    {
        if is_filter_at(v, list, i, "concat") || is_filter_at(v, list, i, "default") {
            assert(brings_list(v@, all, i as int));
            return false;
        }
        let splits = is_filter_at(v, list, i, "split");
        let ghost old_split = split;
        if i < n && splits {
            split = true;
        }
        proof {
            assert(split == (exists|k: int|
                0 <= k < i + 1 && k < n && #[trigger] is_filter(v@, all, k, "split"@))) by {
                if i < n && splits {
                    assert(is_filter(v@, all, i as int, "split"@));
                }
                if old_split {
                    let k = choose|k: int|
                        0 <= k < i && k < n && #[trigger] is_filter(v@, all, k, "split"@);
                    assert(is_filter(v@, all, k, "split"@));
                }
            }
        }
        i += 1;
    }
    split
}

fn is_calm_filter(
    tags: &Vec<Vec<char>>,
    values: &liquid::Object,
    tag: &Vec<char>,
    v: &Vec<char>,
    list: &Vec<(usize, usize)>,
    i: usize,
) -> (r: bool)
    requires
        tag@.len() >= 2,
        v@ == bare(tag@),
        v@.len() == tag@.len(),
        places(list@) == word_list(v@),
        lie_within(list@, v@.len()),
        i < list@.len(),
        forall|k: int| 0 <= k < tags@.len() ==> (#[trigger] tags@[k])@.len() >= 2,
    ensures
        r == calm_filter(
            tag_texts(tags@),
            object_texts(*values),
            scalar_names(*values),
            tag@,
            i as int,
        ),
{
    let (from, to) = list[i];
    assert(list@[i as int] == (from, to));
    assert(places(list@)[i as int] == (from as int, to as int));
    let word = slice_text(v, from, to);
    let end = find_next_bar(v, to);
    if is_arithmetic_text(word.as_str()) {
        let start = find_source_start(tag);
        if weigh_region(tags, values, tag, start, end, DEPTH) > ARITHMETIC_DIGITS {
            return false;
        }
    }
    if text_eq(word.as_str(), "slice") && weigh_region(tags, values, tag, to, end, DEPTH)
        > SLICE_DIGITS {
        return false;
    }
    if text_eq(word.as_str(), "date") && !has_date_format(tag, v, to, end) {
        return false;
    }
    if !text_eq(word.as_str(), "sort") || does_sort_texts(v, list, i) {
        return true;
    }
    let start = find_source_start(tag);
    has_plain_region(tags, values, tag, start, from, DEPTH)
}

fn has_colon_before(v: &Vec<char>, n: usize) -> (r: bool)
    requires
        n <= v@.len(),
    ensures
        r == colon_before(v@, n as int),
{
    let mut i: usize = n;
    while i > 0 && is_space_char(v[i - 1])
        invariant
            i <= n <= v@.len(),
            colon_before(v@, i as int) == colon_before(v@, n as int),
        decreases i,
    {
        i -= 1;
    }
    i > 0 && v[i - 1] == ':'
}

fn do_columns_fit(v: &Vec<char>, from: usize, to: usize) -> (r: bool)
    requires
        to <= v@.len(),
        colon_behind(v@, to as int),
    ensures
        r == columns_fit(v@, (from as int, to as int)),
{
    assert(v.len() == v@.len());
    let colon = find_space_end(v, to);
    let at = find_space_end(v, colon + 1);
    if at >= v.len() {
        return false;
    }
    let word = chars_of(slice_text(v, at, find_run_end(v, at, true)).as_str());
    if !is_numeral_text(&word) || word.len() as u64 > SLICE_DIGITS {
        return false;
    }
    let mut i: usize = 0;
    while i < word.len()
        invariant
            i <= word@.len(),
            at == space_end(v@, space_end(v@, to as int) + 1),
            at < v@.len(),
            word@ == v@.subrange(at as int, run_end(v@, at as int, true)),
            is_numeral(word@),
            word@.len() <= SLICE_DIGITS,
            forall|k: int| 0 <= k < i ==> !('1' <= #[trigger] word@[k] <= '9'),
        decreases word.len() - i,
    {
        let c = word[i];
        if '1' <= c && c <= '9' {
            assert('1' <= word@[i as int] <= '9');
            return true;
        }
        i += 1;
    }
    false
}

fn is_calm_logic(tag: &Vec<char>, v: &Vec<char>, list: &Vec<(usize, usize)>) -> (r: bool)
    requires
        tag@.len() >= 2,
        v@ == bare(tag@),
        v@.len() == tag@.len(),
        places(list@) == word_list(v@),
        lie_within(list@, v@.len()),
    ensures
        r == calm_logic(tag@),
{
    let word = find_logic_word(tag);
    if text_eq(word.as_str(), "include") || text_eq(word.as_str(), "render") {
        return false;
    }
    if text_eq(word.as_str(), "cycle") && has_colon_before(v, v.len()) {
        return false;
    }
    if text_eq(word.as_str(), "tablerow") {
        let mut i: usize = 0;
        let ghost all = word_list(v@);
        assert(all.len() == list@.len());
        while i < list.len()
            invariant
                i <= list@.len(),
                v@ == bare(tag@),
                word@ == logic_word(tag@),
                word@ == "tablerow"@,
                all == word_list(v@),
                all.len() == list@.len(),
                places(list@) == all,
                lie_within(list@, v@.len()),
                forall|k: int|
                    0 <= k < i && v@.subrange((#[trigger] all[k]).0, all[k].1) == "cols"@
                        && colon_behind(v@, all[k].1) ==> columns_fit(v@, all[k]),
            decreases list.len() - i,
        {
            let (from, to) = list[i];
            assert(list@[i as int] == (from, to));
            assert(places(list@)[i as int] == (from as int, to as int));
            assert(all[i as int] == (from as int, to as int));
            let next = find_space_end(v, to);
            if text_eq(slice_text(v, from, to).as_str(), "cols") && next < v.len() && v[next] == ':'
                && !do_columns_fit(v, from, to) {
                assert(!columns_fit(v@, word_list(v@)[i as int]));
                return false;
            }
            i += 1;
        }
    }
    true
}

fn is_calm_tag(tags: &Vec<Vec<char>>, values: &liquid::Object, n: usize) -> (r: bool)
    requires
        n < tags@.len(),
        forall|k: int| 0 <= k < tags@.len() ==> (#[trigger] tags@[k])@.len() >= 2,
    ensures
        r == calm_tag(
            tag_texts(tags@),
            object_texts(*values),
            scalar_names(*values),
            tags@[n as int]@,
        ),
{
    let tag = &tags[n];
    assert(tags@[n as int]@.len() >= 2);
    let v = bare_text(tag);
    let list = find_word_list(&v);
    if holds_range(&v) {
        let start = find_source_start(tag);
        if weigh_region(tags, values, tag, start, v.len(), DEPTH) > RANGE_DIGITS {
            return false;
        }
    }
    let mut i: usize = 0;
    let ghost all = word_list(v@);
    assert(all.len() == list@.len());
    while i < list.len()
        invariant
            i <= list@.len(),
            tag@.len() >= 2,
            tag@ == tags@[n as int]@,
            v@ == bare(tag@),
            v@.len() == tag@.len(),
            all == word_list(v@),
            all.len() == list@.len(),
            places(list@) == all,
            lie_within(list@, v@.len()),
            forall|k: int| 0 <= k < tags@.len() ==> (#[trigger] tags@[k])@.len() >= 2,
            forall|k: int|
                0 <= k < i && bar_before(v@, (#[trigger] all[k]).0) ==> calm_filter(
                    tag_texts(tags@),
                    object_texts(*values),
                    scalar_names(*values),
                    tag@,
                    k,
                ),
        decreases list.len() - i,
    {
        let (from, to) = list[i];
        assert(list@[i as int] == (from, to));
        assert(places(list@)[i as int] == (from as int, to as int));
        assert(all[i as int] == (from as int, to as int));
        if has_bar_before(&v, from) && !is_calm_filter(tags, values, tag, &v, &list, i) {
            assert(bar_before(v@, word_list(v@)[i as int].0));
            return false;
        }
        i += 1;
    }
    is_calm_logic(tag, &v, &list)
}

/// Tells whether the language can read a text and work on it with some values without stopping the
/// program.
pub fn is_tame(text: &str, values: &liquid::Object) -> (r: bool)
    ensures
        r == tame(text@, object_texts(*values), scalar_names(*values)),
{
    if !is_readable(text) {
        return false;
    }
    let v = chars_of(text);
    if has_names_only(&v) {
        return true;
    }
    let tags = find_all_tags(&v);
    let ghost all = tags_from(text@, 0);
    let mut i: usize = 0;
    assert(tag_texts(tags@).len() == tags@.len());
    while i < tags.len()
        invariant
            i <= tags@.len(),
            !names_only(text@),
            readable(text@),
            all == tags_from(text@, 0),
            all == tag_texts(tags@),
            all.len() == tags@.len(),
            forall|k: int| 0 <= k < tags@.len() ==> (#[trigger] tags@[k])@.len() >= 2,
            forall|k: int|
                0 <= k < i ==> calm_tag(
                    all,
                    object_texts(*values),
                    scalar_names(*values),
                    #[trigger] all[k],
                ),
        decreases tags.len() - i,
    {
        assert(all[i as int] == tags@[i as int]@);
        if !is_calm_tag(&tags, values, i) {
            assert(!calm_tag(
                all,
                object_texts(*values),
                scalar_names(*values),
                tags_from(text@, 0)[i as int],
            ));
            return false;
        }
        i += 1;
    }
    true
}

} // verus!
