//! The variables that the tags of a template refer to.
use vstd::prelude::*;

use crate::generate::words::{
    bar_before, bare, bare_text, can_start_name, colon_behind, dot_before, find_run_end,
    find_space_end, find_tag_word, find_words, goes_on_name, has_bar_before, lemma_run_end_from,
    lemma_space_end, lemma_words, lemma_words_are_runs, lie_within, places, run_end, starts_name,
    tag_word, words,
};
use crate::text::{
    chars_of, has_prefix, lemma_filter_from, occurs_at, slice_text, text_eq, texts,
};

verus! {

/// Output tags and logic tags, each up to its first end mark, or up to the end of the text where
/// it has none.
pub const WHOLE_TAG_PATTERN: &'static str = r"(?s)\{\{.*?(?:\}\}|\z)|\{%.*?(?:%\}|\z)";

/// The place behind the first `mark` from `from` on, the end of the text where there is none.
pub open spec fn behind_mark(s: Seq<char>, mark: Seq<char>, from: int) -> int
    decreases s.len() - from,
{
    if from >= s.len() {
        s.len() as int
    } else if occurs_at(s, mark, from) {
        from + mark.len()
    } else {
        behind_mark(s, mark, from + 1)
    }
}

/// The length of the tag that opens at the start of `s`, where one does.
pub open spec fn whole_tag_len(s: Seq<char>) -> Option<int> {
    if has_prefix(s, "{{"@) {
        Some(behind_mark(s, "}}"@, 2))
    } else if has_prefix(s, "{%"@) {
        Some(behind_mark(s, "%}"@, 2))
    } else {
        None
    }
}

/// The tags of a text, from left to right.
pub open spec fn tags_of(s: Seq<char>) -> Seq<Seq<char>>
    decreases s.len(),
{
    if s.len() == 0 {
        Seq::empty()
    } else {
        match whole_tag_len(s) {
            Some(n) => if 0 < n <= s.len() {
                seq![s.take(n)] + tags_of(s.skip(n))
            } else {
                Seq::empty()
            },
            None => tags_of(s.skip(1)),
        }
    }
}

/// Whether a word of the template language stands for something else than a variable.
pub open spec fn is_keyword(word: Seq<char>) -> bool {
    ||| word == "and"@
    ||| word == "or"@
    ||| word == "contains"@
    ||| word == "in"@
    ||| word == "true"@
    ||| word == "false"@
    ||| word == "nil"@
    ||| word == "null"@
    ||| word == "empty"@
    ||| word == "blank"@
    ||| word == "reversed"@
    ||| word == "with"@
    ||| word == "as"@
}

fn is_keyword_text(word: &str) -> (r: bool)
    ensures
        r == is_keyword(word@),
{
    text_eq(word, "and") || text_eq(word, "or") || text_eq(word, "contains") || text_eq(word, "in")
        || text_eq(word, "true") || text_eq(word, "false") || text_eq(word, "nil") || text_eq(
        word,
        "null",
    ) || text_eq(word, "empty") || text_eq(word, "blank") || text_eq(word, "reversed") || text_eq(
        word,
        "with",
    ) || text_eq(word, "as")
}

/// Whether a text can be the name of a variable.
pub open spec fn is_name(word: Seq<char>) -> bool {
    &&& word.len() > 0
    &&& starts_name(word[0])
    &&& forall|i: int| 0 <= i < word.len() ==> goes_on_name(#[trigger] word[i])
}

/// Whether the word at `w` is the name of a variable: it can be a name and is no keyword, and it
/// is not the name of a filter, of a member or of an argument.
pub open spec fn names_variable(s: Seq<char>, w: (int, int)) -> bool {
    &&& starts_name(s[w.0])
    &&& !is_keyword(s.subrange(w.0, w.1))
    &&& !bar_before(s, w.0)
    &&& !dot_before(s, w.0)
    &&& !colon_behind(s, w.1)
}

/// Where the names in a tag can begin: behind its opening, and behind the first word of a logic
/// tag.
pub open spec fn names_start(tag: Seq<char>) -> int {
    if has_prefix(tag, "{%"@) {
        run_end(tag, tag_word(tag), false)
    } else {
        2
    }
}

/// The names of the variables in a tag, from left to right, where `s` is the tag without its
/// strings.
pub open spec fn variables_in(s: Seq<char>, list: Seq<(int, int)>) -> Seq<Seq<char>> {
    list.filter(|w: (int, int)| names_variable(s, w)).map_values(
        |w: (int, int)| s.subrange(w.0, w.1),
    )
}

/// The names of the variables in a tag, from left to right. Keywords and strings are left out, and
/// so are the names of filters, of members and of arguments.
pub open spec fn tag_variables(tag: Seq<char>) -> Seq<Seq<char>> {
    variables_in(bare(tag), words(bare(tag), names_start(bare(tag)), false))
}

/// The names that the tags of a text refer to, from left to right.
pub open spec fn references(s: Seq<char>) -> Seq<Seq<char>> {
    all_variables(tags_of(s))
}

/// The names that some tags refer to, tag by tag.
pub open spec fn all_variables(tags: Seq<Seq<char>>) -> Seq<Seq<char>>
    decreases tags.len(),
{
    if tags.len() == 0 {
        Seq::empty()
    } else {
        all_variables(tags.drop_last()) + tag_variables(tags.last())
    }
}

/// What a tag refers to are names, and no keywords.
proof fn lemma_tag_variables_are_names(tag: Seq<char>, i: int)
    requires
        0 <= i < tag_variables(tag).len(),
        names_start(bare(tag)) >= 0,
    ensures
        is_name(tag_variables(tag)[i]),
        !is_keyword(tag_variables(tag)[i]),
{
    let s = bare(tag);
    let all = words(s, names_start(s), false);
    let pred = |w: (int, int)| names_variable(s, w);
    lemma_words(s, names_start(s), false);
    lemma_filter_from(all, pred, i);
    let w = all.filter(pred)[i];
    let k = choose|k: int| 0 <= k < all.len() && all[k] == w;
    lemma_words_are_runs(s, names_start(s), k, false);
    assert(tag_variables(tag)[i] == s.subrange(w.0, w.1));
}

/// What the tags of a text refer to are names, and no keywords.
pub proof fn law_references_are_names(s: Seq<char>, i: int)
    requires
        0 <= i < references(s).len(),
    ensures
        is_name(references(s)[i]),
        !is_keyword(references(s)[i]),
{
    lemma_all_variables_are_names(tags_of(s), i);
}

proof fn lemma_all_variables_are_names(tags: Seq<Seq<char>>, i: int)
    requires
        0 <= i < all_variables(tags).len(),
    ensures
        is_name(all_variables(tags)[i]),
        !is_keyword(all_variables(tags)[i]),
    decreases tags.len(),
{
    let front = all_variables(tags.drop_last());
    if i < front.len() {
        lemma_all_variables_are_names(tags.drop_last(), i);
    } else {
        lemma_names_start(bare(tags.last()));
        lemma_tag_variables_are_names(tags.last(), i - front.len());
    }
}

proof fn lemma_names_start(s: Seq<char>)
    ensures
        names_start(s) >= 2,
{
    lemma_space_end(s, 2);
    lemma_space_end(s, 3);
    lemma_run_end_from(s, tag_word(s), false);
}

fn is_variable_at(v: &Vec<char>, from: usize, to: usize) -> (r: bool)
    requires
        from < to <= v@.len(),
    ensures
        r == names_variable(v@, (from as int, to as int)),
{
    if !can_start_name(v[from]) || is_keyword_text(slice_text(v, from, to).as_str())
        || has_bar_before(v, from) {
        return false;
    }
    if from > 0 && v[from - 1] == '.' && !(from > 1 && v[from - 2] == '.') {
        return false;
    }
    let next = find_space_end(v, to);
    !(next < v.len() && v[next] == ':')
}

/// Finds the names of the variables in a tag.
pub fn find_tag_variables(tag: &str) -> (r: Vec<String>)
    requires
        tag@.len() >= 2,
    ensures
        texts(r@) == tag_variables(tag@),
{
    let v = bare_text(&chars_of(tag));
    proof {
        reveal_strlit("{%");
        assert(v@.len() == tag@.len());
        assert(has_prefix(v@, "{%"@) <==> v@[0] == '{' && v@[1] == '%') by {
            if has_prefix(v@, "{%"@) {
                assert(v@.subrange(0, 2)[0] == '{' && v@.subrange(0, 2)[1] == '%');
            }
            if v@[0] == '{' && v@[1] == '%' {
                assert(v@.subrange(0, 2) =~= "{%"@);
            }
        }
    }
    let start: usize = if v[0] == '{' && v[1] == '%' {
        find_run_end(&v, find_tag_word(&v), false)
    } else {
        2
    };
    let list = find_words(&v, start, false);
    let mut r: Vec<String> = Vec::new();
    let mut i: usize = 0;
    let ghost all = words(v@, start as int, false);
    let ghost pred = |w: (int, int)| names_variable(v@, w);
    proof {
        reveal(Seq::filter);
        assert(texts(r@) =~= variables_in(v@, all.take(0)));
    }
    while i < list.len()
        invariant
            i <= list@.len(),
            places(list@) == all,
            lie_within(list@, v@.len()),
            pred == (|w: (int, int)| names_variable(v@, w)),
            texts(r@) == variables_in(v@, all.take(i as int)),
        decreases list.len() - i,
    {
        let (from, to) = list[i];
        let ghost before = texts(r@);
        let ghost kept = all.take(i as int).filter(pred);
        let ghost w = (from as int, to as int);
        assert(list@[i as int] == (from, to));
        assert(places(list@)[i as int] == w);
        if is_variable_at(&v, from, to) {
            r.push(slice_text(&v, from, to));
            assert(texts(r@) =~= before.push(v@.subrange(w.0, w.1)));
        }
        proof {
            reveal(Seq::filter);
            let next = all.take(i + 1);
            assert(next.drop_last() =~= all.take(i as int));
            assert(next.last() == w);
            if names_variable(v@, w) {
                assert(next.filter(pred) == kept.push(w));
            } else {
                assert(next.filter(pred) == kept);
            }
            assert(texts(r@) =~= variables_in(v@, next));
        }
        i += 1;
    }
    assert(all.take(i as int) =~= all);
    r
}

/// Calls `regex::Regex::find_iter` with the pattern of a whole tag and collects the text of each
/// match. Claims that these are the tags, from left to right without overlap.
#[verifier::external_body]
fn find_tags(pattern: &str, content: &str) -> (r: Vec<String>)
    requires
        pattern@ == WHOLE_TAG_PATTERN@,
    ensures
        texts(r@) == tags_of(content@),
{
    let tag = regex::Regex::new(pattern).unwrap();
    tag.find_iter(content).map(|found| found.as_str().to_string()).collect()
}

/// A tag has at least its two opening characters.
pub proof fn lemma_tag_lengths(s: Seq<char>)
    ensures
        forall|i: int| 0 <= i < tags_of(s).len() ==> (#[trigger] tags_of(s)[i]).len() >= 2,
    decreases s.len(),
{
    reveal_strlit("{{");
    reveal_strlit("{%");
    reveal_strlit("}}");
    reveal_strlit("%}");
    if s.len() > 0 {
        match whole_tag_len(s) {
            Some(n) => {
                if has_prefix(s, "{{"@) {
                    lemma_behind_mark(s, "}}"@, 2);
                } else {
                    lemma_behind_mark(s, "%}"@, 2);
                }
                lemma_tag_lengths(s.skip(n));
                let rest = tags_of(s.skip(n));
                assert(2 <= n <= s.len());
                assert(tags_of(s) == seq![s.take(n)] + rest);
                assert forall|i: int| 0 <= i < tags_of(s).len() implies (#[trigger] tags_of(
                    s,
                )[i]).len() >= 2 by {
                    if i > 0 {
                        assert(tags_of(s)[i] == rest[i - 1]);
                    }
                }
            },
            None => {
                lemma_tag_lengths(s.skip(1));
                assert(tags_of(s) == tags_of(s.skip(1)));
            },
        }
    }
}

proof fn lemma_behind_mark(s: Seq<char>, mark: Seq<char>, from: int)
    requires
        0 <= from <= s.len(),
    ensures
        from <= behind_mark(s, mark, from) <= s.len(),
    decreases s.len() - from,
{
    if from < s.len() && !occurs_at(s, mark, from) {
        lemma_behind_mark(s, mark, from + 1);
    }
}

/// The names of the variables that the tags of a text refer to.
pub fn extract_template_variables(content: &str) -> (r: Vec<String>)
    ensures
        texts(r@) == references(content@),
{
    let tags = find_tags(WHOLE_TAG_PATTERN, content);
    let mut r: Vec<String> = Vec::new();
    let mut i: usize = 0;
    let ghost all = tags_of(content@);
    proof {
        lemma_tag_lengths(content@);
        assert(texts(r@) =~= all_variables(all.take(0)));
    }
    while i < tags.len()
        invariant
            i <= tags@.len(),
            texts(tags@) == all,
            forall|k: int| 0 <= k < all.len() ==> (#[trigger] all[k]).len() >= 2,
            texts(r@) == all_variables(all.take(i as int)),
        decreases tags.len() - i,
    {
        let ghost before = texts(r@);
        assert(texts(tags@)[i as int] == tags@[i as int]@);
        let mut names = find_tag_variables(tags[i].as_str());
        let ghost more = texts(names@);
        r.append(&mut names);
        proof {
            let next = all.take(i + 1);
            assert(next.drop_last() =~= all.take(i as int));
            assert(next.last() == tags@[i as int]@);
            assert(texts(r@) =~= before + more);
        }
        i += 1;
    }
    assert(all.take(i as int) =~= all);
    r
}

} // verus!
