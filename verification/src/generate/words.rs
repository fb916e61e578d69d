//! The words in the tags of a template.
use vstd::prelude::*;

use crate::text::{is_space, is_space_char};

verus! {

pub open spec fn starts_name(c: char) -> bool {
    'a' <= c <= 'z' || 'A' <= c <= 'Z' || c == '_'
}

pub open spec fn goes_on_name(c: char) -> bool {
    starts_name(c) || '0' <= c <= '9'
}

/// Whether a word goes on with `c`. The language lets a hyphen stand in a word too: `hyphen` says
/// whether it does here.
pub open spec fn goes_on(c: char, hyphen: bool) -> bool {
    goes_on_name(c) || (hyphen && c == '-')
}

pub fn can_start_name(c: char) -> (r: bool)
    ensures
        r == starts_name(c),
{
    ('a' <= c && c <= 'z') || ('A' <= c && c <= 'Z') || c == '_'
}

pub fn can_go_on_name(c: char) -> (r: bool)
    ensures
        r == goes_on_name(c),
{
    can_start_name(c) || ('0' <= c && c <= '9')
}

pub fn can_go_on(c: char, hyphen: bool) -> (r: bool)
    ensures
        r == goes_on(c, hyphen),
{
    can_go_on_name(c) || (hyphen && c == '-')
}

pub open spec fn is_quote(c: char) -> bool {
    c == '"' || c == '\''
}

/// Which quote a string is open with behind `c`, where `quote` is what it was open with before.
pub open spec fn quote_behind(quote: Option<char>, c: char) -> Option<char> {
    match quote {
        Some(q) => if c == q {
            None
        } else {
            quote
        },
        None => if is_quote(c) {
            Some(c)
        } else {
            None
        },
    }
}

/// A text with a double quote in place of each character of its strings, quotes included, where
/// `quote` is the quote that a string is open with at the start.
pub open spec fn bare_from(s: Seq<char>, quote: Option<char>) -> Seq<char>
    decreases s.len(),
{
    if s.len() == 0 {
        s
    } else {
        seq![
            if quote is Some || is_quote(s[0]) {
                '"'
            } else {
                s[0]
            },
        ] + bare_from(s.skip(1), quote_behind(quote, s[0]))
    }
}

/// A text with a double quote in place of each character of its strings, quotes included.
pub open spec fn bare(s: Seq<char>) -> Seq<char> {
    bare_from(s, None)
}

pub proof fn lemma_bare_len(s: Seq<char>, quote: Option<char>)
    ensures
        bare_from(s, quote).len() == s.len(),
    decreases s.len(),
{
    if s.len() > 0 {
        lemma_bare_len(s.skip(1), quote_behind(quote, s[0]));
    }
}

/// Puts a double quote in place of each character of the strings in a text.
pub fn bare_text(v: &Vec<char>) -> (r: Vec<char>)
    ensures
        r@ == bare(v@),
        r@.len() == v@.len(),
{
    let mut r: Vec<char> = Vec::new();
    let mut quote: Option<char> = None;
    let mut i: usize = 0;
    assert(v@.skip(0) =~= v@);
    assert(r@ + bare(v@) =~= bare(v@));
    while i < v.len()
        invariant
            i <= v@.len(),
            r@ + bare_from(v@.skip(i as int), quote) == bare(v@),
        decreases v.len() - i,
    {
        let c = v[i];
        let ghost rest = v@.skip(i as int);
        let ghost before = r@;
        let ghost open = quote;
        assert(rest[0] == c);
        assert(rest.skip(1) =~= v@.skip(i + 1));
        match quote {
            Some(q) => {
                r.push('"');
                if c == q {
                    quote = None;
                }
            },
            None => {
                if c == '"' || c == '\'' {
                    r.push('"');
                    quote = Some(c);
                } else {
                    r.push(c);
                }
            },
        }
        i += 1;
        assert(r@ + bare_from(v@.skip(i as int), quote) =~= before + bare_from(rest, open));
    }
    proof {
        assert(v@.skip(i as int).len() == 0);
        assert(r@ =~= bare(v@));
        lemma_bare_len(v@, None);
    }
    r
}

/// Where the run of word characters that starts at `at` ends.
pub open spec fn run_end(s: Seq<char>, at: int, hyphen: bool) -> int
    decreases s.len() - at,
{
    if 0 <= at < s.len() && goes_on(s[at], hyphen) {
        run_end(s, at + 1, hyphen)
    } else {
        at
    }
}

/// Where the white space that starts at `at` ends.
pub open spec fn space_end(s: Seq<char>, at: int) -> int
    decreases s.len() - at,
{
    if 0 <= at < s.len() && is_space(s[at]) {
        space_end(s, at + 1)
    } else {
        at
    }
}

pub proof fn lemma_run_end(s: Seq<char>, at: int, hyphen: bool)
    requires
        0 <= at <= s.len(),
    ensures
        at <= run_end(s, at, hyphen) <= s.len(),
        at < s.len() && goes_on(s[at], hyphen) ==> at < run_end(s, at, hyphen),
    decreases s.len() - at,
{
    if at < s.len() && goes_on(s[at], hyphen) {
        lemma_run_end(s, at + 1, hyphen);
    }
}

pub proof fn lemma_run_end_from(s: Seq<char>, at: int, hyphen: bool)
    ensures
        run_end(s, at, hyphen) >= at,
    decreases s.len() - at,
{
    if 0 <= at < s.len() && goes_on(s[at], hyphen) {
        lemma_run_end_from(s, at + 1, hyphen);
    }
}

pub proof fn lemma_space_end(s: Seq<char>, at: int)
    ensures
        space_end(s, at) >= at,
    decreases s.len() - at,
{
    if 0 <= at < s.len() && is_space(s[at]) {
        lemma_space_end(s, at + 1);
    }
}

/// A run is made of word characters.
proof fn lemma_run(s: Seq<char>, at: int, i: int, hyphen: bool)
    requires
        0 <= at <= i < run_end(s, at, hyphen),
    ensures
        i < s.len(),
        goes_on(s[i], hyphen),
    decreases s.len() - at,
{
    if at < s.len() && goes_on(s[at], hyphen) && at < i {
        lemma_run(s, at + 1, i, hyphen);
    }
}

pub fn find_run_end(v: &Vec<char>, at: usize, hyphen: bool) -> (r: usize)
    requires
        at <= v@.len(),
    ensures
        r == run_end(v@, at as int, hyphen),
        at <= r <= v@.len(),
{
    let mut i: usize = at;
    while i < v.len() && can_go_on(v[i], hyphen)
        invariant
            at <= i <= v@.len(),
            run_end(v@, i as int, hyphen) == run_end(v@, at as int, hyphen),
        decreases v.len() - i,
    {
        i += 1;
    }
    i
}

pub fn find_space_end(v: &Vec<char>, at: usize) -> (r: usize)
    requires
        at <= v@.len(),
    ensures
        r == space_end(v@, at as int),
        at <= r <= v@.len(),
{
    let mut i: usize = at;
    while i < v.len() && is_space_char(v[i])
        invariant
            at <= i <= v@.len(),
            space_end(v@, i as int) == space_end(v@, at as int),
        decreases v.len() - i,
    {
        i += 1;
    }
    i
}

/// Where the words from `at` on begin and end.
pub open spec fn words(s: Seq<char>, at: int, hyphen: bool) -> Seq<(int, int)>
    decreases s.len() - at,
{
    if at < 0 || at >= s.len() {
        Seq::empty()
    } else if goes_on(s[at], hyphen) && at < run_end(s, at, hyphen) <= s.len() {
        seq![(at, run_end(s, at, hyphen))] + words(s, run_end(s, at, hyphen), hyphen)
    } else {
        words(s, at + 1, hyphen)
    }
}

/// A word has at least one character and lies within the text.
pub proof fn lemma_words(s: Seq<char>, at: int, hyphen: bool)
    requires
        0 <= at,
    ensures
        forall|i: int|
            0 <= i < words(s, at, hyphen).len() ==> at <= (#[trigger] words(s, at, hyphen)[i]).0
                < words(s, at, hyphen)[i].1 <= s.len(),
    decreases s.len() - at,
{
    if at < s.len() {
        if goes_on(s[at], hyphen) {
            lemma_run_end(s, at, hyphen);
            let end = run_end(s, at, hyphen);
            lemma_words(s, end, hyphen);
            assert forall|i: int| 0 <= i < words(s, at, hyphen).len() implies at <= (#[trigger] words(
                s,
                at,
                hyphen,
            )[i]).0 < words(s, at, hyphen)[i].1 <= s.len() by {
                if i > 0 {
                    assert(words(s, at, hyphen)[i] == words(s, end, hyphen)[i - 1]);
                }
            }
        } else {
            lemma_words(s, at + 1, hyphen);
            assert(words(s, at, hyphen) == words(s, at + 1, hyphen));
        }
    }
}

/// A word is made of word characters.
pub proof fn lemma_words_are_runs(s: Seq<char>, at: int, k: int, hyphen: bool)
    requires
        0 <= at,
        0 <= k < words(s, at, hyphen).len(),
    ensures
        forall|i: int|
            words(s, at, hyphen)[k].0 <= i < words(s, at, hyphen)[k].1 ==> goes_on(
                #[trigger] s[i],
                hyphen,
            ),
    decreases s.len() - at,
{
    if at < s.len() {
        if goes_on(s[at], hyphen) {
            lemma_run_end(s, at, hyphen);
            let end = run_end(s, at, hyphen);
            if k > 0 {
                assert(words(s, at, hyphen)[k] == words(s, end, hyphen)[k - 1]);
                lemma_words_are_runs(s, end, k - 1, hyphen);
            } else {
                assert forall|i: int| at <= i < end implies goes_on(#[trigger] s[i], hyphen) by {
                    lemma_run(s, at, i, hyphen);
                }
            }
        } else {
            lemma_words_are_runs(s, at + 1, k, hyphen);
        }
    }
}

/// The places of words as numbers.
pub open spec fn places(list: Seq<(usize, usize)>) -> Seq<(int, int)> {
    list.map_values(|w: (usize, usize)| (w.0 as int, w.1 as int))
}

/// Whether each of the places is one of a word of a text with `n` characters.
pub open spec fn lie_within(list: Seq<(usize, usize)>, n: nat) -> bool {
    forall|i: int| 0 <= i < list.len() ==> (#[trigger] list[i]).0 < list[i].1 <= n
}

/// Finds the words from `at` on.
pub fn find_words(v: &Vec<char>, at: usize, hyphen: bool) -> (r: Vec<(usize, usize)>)
    requires
        at <= v@.len(),
    ensures
        places(r@) == words(v@, at as int, hyphen),
        lie_within(r@, v@.len()),
{
    let mut r: Vec<(usize, usize)> = Vec::new();
    let mut i: usize = at;
    assert(places(r@) + words(v@, at as int, hyphen) =~= words(v@, at as int, hyphen));
    while i < v.len()
        invariant
            i <= v@.len(),
            places(r@) + words(v@, i as int, hyphen) == words(v@, at as int, hyphen),
            lie_within(r@, v@.len()),
        decreases v.len() - i,
    {
        if can_go_on(v[i], hyphen) {
            let end = find_run_end(v, i, hyphen);
            let ghost before = places(r@);
            proof {
                lemma_run_end(v@, i as int, hyphen);
            }
            r.push((i, end));
            assert(places(r@) =~= before.push((i as int, end as int)));
            assert(places(r@) + words(v@, end as int, hyphen) =~= before + words(
                v@,
                i as int,
                hyphen,
            ));
            i = end;
        } else {
            i += 1;
        }
    }
    assert(places(r@) =~= words(v@, at as int, hyphen));
    r
}

/// Whether a vertical bar stands before `at`, with nothing but white space between.
pub open spec fn bar_before(s: Seq<char>, at: int) -> bool
    decreases at,
{
    0 < at <= s.len() && (s[at - 1] == '|' || (is_space(s[at - 1]) && bar_before(s, at - 1)))
}

pub fn has_bar_before(v: &Vec<char>, at: usize) -> (r: bool)
    requires
        at <= v@.len(),
    ensures
        r == bar_before(v@, at as int),
{
    let mut i: usize = at;
    while i > 0 && is_space_char(v[i - 1])
        invariant
            i <= at <= v@.len(),
            bar_before(v@, i as int) == bar_before(v@, at as int),
        decreases i,
    {
        i -= 1;
    }
    i > 0 && v[i - 1] == '|'
}

/// Whether a single dot stands directly before `at`.
pub open spec fn dot_before(s: Seq<char>, at: int) -> bool {
    0 < at <= s.len() && s[at - 1] == '.' && !(at > 1 && s[at - 2] == '.')
}

/// Whether a colon stands at `at` or behind it, with nothing but white space between.
pub open spec fn colon_behind(s: Seq<char>, at: int) -> bool {
    space_end(s, at) < s.len() && s[space_end(s, at)] == ':'
}

/// Where the first word of a logic tag begins: behind its two characters, a hyphen or none, and
/// white space.
pub open spec fn tag_word(tag: Seq<char>) -> int {
    space_end(
        tag,
        if tag.len() > 2 && tag[2] == '-' {
            3
        } else {
            2
        },
    )
}

pub fn find_tag_word(v: &Vec<char>) -> (r: usize)
    requires
        v@.len() >= 2,
    ensures
        r == tag_word(v@),
        r <= v@.len(),
{
    if v.len() > 2 && v[2] == '-' {
        find_space_end(v, 3)
    } else {
        find_space_end(v, 2)
    }
}

} // verus!
