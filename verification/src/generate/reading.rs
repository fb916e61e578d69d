//! What is read out of the tags of a template, and what is rewritten in them.
use vstd::prelude::*;

use crate::generate::references::{
    all_variables, behind_mark, is_keyword, names_start, names_variable, references, tag_variables,
    tags_of, variables_in, whole_tag_len,
};
use crate::generate::tags::{
    lemma_longest_name, longest_name, mark_on_line, rewritten_tag, tag_len, with_tags_rewritten,
};
use crate::generate::variables::underscored;
use crate::generate::words::{
    bar_before, bare, bare_from, colon_behind, dot_before, goes_on, goes_on_name, run_end, space_end,
    starts_name, words,
};
use crate::text::{has_prefix, is_space, occurs_at};

verus! {

/// Rewriting a tag keeps its length, and changes nothing but hyphens, into underscores.
pub proof fn law_rewriting_a_tag_changes_hyphens_alone(tag: Seq<char>, names: Seq<Seq<char>>)
    ensures
        rewritten_tag(tag, names).len() == tag.len(),
        forall|i: int|
            0 <= i < tag.len() ==> #[trigger] rewritten_tag(tag, names)[i] == tag[i] || (tag[i] == '-'
                && rewritten_tag(tag, names)[i] == '_'),
    decreases tag.len(),
{
    lemma_longest_name(tag, names);
    let n = longest_name(tag, names);
    let out = rewritten_tag(tag, names);
    if tag.len() > 0 {
        let step = if n > 0 {
            n as int
        } else {
            1
        };
        let rest = tag.skip(step);
        law_rewriting_a_tag_changes_hyphens_alone(rest, names);
        assert forall|i: int| 0 <= i < tag.len() implies #[trigger] out[i] == tag[i] || (tag[i] == '-'
            && out[i] == '_') by {
            if i >= step {
                assert(out[i] == rewritten_tag(rest, names)[i - step]);
                assert(rest[i - step] == tag[i]);
            } else if n > 0 {
                assert(out[i] == underscored(tag.take(step))[i]);
            }
        }
    }
}

/// Rewriting a text keeps its length, and changes nothing but hyphens, into underscores.
pub proof fn law_rewriting_a_text_changes_hyphens_alone(s: Seq<char>, names: Seq<Seq<char>>)
    ensures
        with_tags_rewritten(s, names).len() == s.len(),
        forall|i: int|
            0 <= i < s.len() ==> #[trigger] with_tags_rewritten(s, names)[i] == s[i] || (s[i] == '-'
                && with_tags_rewritten(s, names)[i] == '_'),
    decreases s.len(),
{
    let out = with_tags_rewritten(s, names);
    if s.len() > 0 {
        match tag_len(s) {
            Some(n) => {
                if 0 < n <= s.len() {
                    law_rewriting_a_tag_changes_hyphens_alone(s.take(n), names);
                    law_rewriting_a_text_changes_hyphens_alone(s.skip(n), names);
                    assert forall|i: int| 0 <= i < s.len() implies #[trigger] out[i] == s[i] || (s[i]
                        == '-' && out[i] == '_') by {
                        if i < n {
                            assert(out[i] == rewritten_tag(s.take(n), names)[i]);
                        } else {
                            assert(out[i] == with_tags_rewritten(s.skip(n), names)[i - n]);
                            assert(s.skip(n)[i - n] == s[i]);
                        }
                    }
                }
            },
            None => {
                law_rewriting_a_text_changes_hyphens_alone(s.skip(1), names);
                assert forall|i: int| 0 <= i < s.len() implies #[trigger] out[i] == s[i] || (s[i]
                    == '-' && out[i] == '_') by {
                    if i > 0 {
                        assert(out[i] == with_tags_rewritten(s.skip(1), names)[i - 1]);
                        assert(s.skip(1)[i - 1] == s[i]);
                    }
                }
            },
        }
    }
}

/// A character of a tag at which no name stands is kept, and what follows is rewritten on its own.
pub proof fn law_other_character_of_a_tag_is_kept(c: char, rest: Seq<char>, names: Seq<Seq<char>>)
    requires
        forall|i: int|
            0 <= i < names.len() && (#[trigger] names[i]).len() > 0 ==> !has_prefix(
                seq![c] + rest,
                names[i],
            ),
    ensures
        rewritten_tag(seq![c] + rest, names) == seq![c] + rewritten_tag(rest, names),
{
    let tag = seq![c] + rest;
    lemma_longest_name(tag, names);
    let n = longest_name(tag, names);
    if n > 0 {
        let i = choose|i: int| 0 <= i < names.len() && names[i] == tag.take(n as int);
        assert(tag.subrange(0, n as int) =~= names[i]);
        assert(has_prefix(tag, names[i]));
    }
    assert(tag.skip(1) =~= rest);
}

proof fn lemma_mark_on_line(s: Seq<char>, mark: Seq<char>, from: int, at: int)
    requires
        0 <= from <= at <= s.len(),
        occurs_at(s, mark, at),
        forall|i: int| from <= i < at ==> !#[trigger] occurs_at(s, mark, i),
        forall|i: int| from <= i < at ==> #[trigger] s[i] != '\n',
    ensures
        mark_on_line(s, mark, from) == Some(at),
    decreases at - from,
{
    if from < at {
        assert(!occurs_at(s, mark, from));
        assert(s[from] != '\n');
        lemma_mark_on_line(s, mark, from + 1, at);
    }
}

/// The length of a tag with nothing of an end mark and no line feed in it.
proof fn lemma_tag_len(open: Seq<char>, inner: Seq<char>, close: Seq<char>, rest: Seq<char>)
    requires
        (open == "{{"@ && close == "}}"@) || (open == "{%"@ && close == "%}"@),
        !inner.contains('}') && !inner.contains('\n'),
    ensures
        ({
            let s = open + inner + close + rest;
            &&& s.len() == inner.len() + 4 + rest.len()
            &&& tag_len(s) == Some(inner.len() as int + 4)
            &&& s.take(inner.len() as int + 4) == open + inner + close
            &&& s.skip(inner.len() as int + 4) == rest
        }),
{
    reveal_strlit("{{");
    reveal_strlit("}}");
    reveal_strlit("{%");
    reveal_strlit("%}");
    let s = open + inner + close + rest;
    let at = inner.len() as int + 2;
    assert(s.subrange(0, 2) =~= open);
    assert(has_prefix(s, open));
    if open == "{%"@ {
        assert(!has_prefix(s, "{{"@)) by {
            if has_prefix(s, "{{"@) {
                assert(s.subrange(0, 2)[1] == '{');
                assert(open[1] == '%');
            }
        }
    }
    assert(s.subrange(at, at + 2) =~= close);
    assert(occurs_at(s, close, at));
    assert forall|i: int| 2 <= i < at implies !#[trigger] occurs_at(s, close, i) by {
        if occurs_at(s, close, i) {
            if i < at - 1 {
                assert(s.subrange(i, i + 2)[1] == s[i + 1]);
                assert(close[1] == '}');
                assert(s[i + 1] == inner[i - 1]);
                assert(inner.contains('}'));
            } else if close == "}}"@ {
                assert(s.subrange(i, i + 2)[0] == s[i]);
                assert(s[i] == inner[i - 2]);
                assert(inner.contains('}'));
            } else {
                assert(s.subrange(i, i + 2)[1] == s[at]);
                assert(s[at] == close[0]);
            }
        }
    }
    assert forall|i: int| 2 <= i < at implies #[trigger] s[i] != '\n' by {
        assert(s[i] == inner[i - 2]);
    }
    lemma_mark_on_line(s, close, 2, at);
    assert(s.take(inner.len() as int + 4) =~= open + inner + close);
    assert(s.skip(inner.len() as int + 4) =~= rest);
}

/// What stands before a tag is kept, the tag is rewritten, and what follows it is treated on its own.
/// The tag is one of output or logic, on one line.
pub proof fn law_tag_in_a_text_is_rewritten(
    before: Seq<char>,
    open: Seq<char>,
    inner: Seq<char>,
    close: Seq<char>,
    rest: Seq<char>,
    names: Seq<Seq<char>>,
)
    requires
        (open == "{{"@ && close == "}}"@) || (open == "{%"@ && close == "%}"@),
        !before.contains('{'),
        !inner.contains('}') && !inner.contains('\n'),
    ensures
        with_tags_rewritten(before + open + inner + close + rest, names) == before + rewritten_tag(
            open + inner + close,
            names,
        ) + with_tags_rewritten(rest, names),
    decreases before.len(),
{
    let s = before + open + inner + close + rest;
    if before.len() == 0 {
        assert(s =~= open + inner + close + rest);
        lemma_tag_len(open, inner, close, rest);
        assert(before + rewritten_tag(open + inner + close, names) =~= rewritten_tag(
            open + inner + close,
            names,
        ));
    } else {
        reveal_strlit("{{");
        reveal_strlit("{%");
        let front = before.skip(1);
        assert(s[0] == before[0]);
        assert(before[0] != '{');
        assert(!has_prefix(s, "{{"@)) by {
            if has_prefix(s, "{{"@) {
                assert(s.subrange(0, 2)[0] == s[0]);
            }
        }
        assert(!has_prefix(s, "{%"@)) by {
            if has_prefix(s, "{%"@) {
                assert(s.subrange(0, 2)[0] == s[0]);
            }
        }
        assert(s.skip(1) =~= front + open + inner + close + rest);
        assert(!front.contains('{')) by {
            if front.contains('{') {
                let i = choose|i: int| 0 <= i < front.len() && front[i] == '{';
                assert(before[i + 1] == '{');
            }
        }
        law_tag_in_a_text_is_rewritten(front, open, inner, close, rest, names);
        assert(seq![s[0]] + (front + rewritten_tag(open + inner + close, names)
            + with_tags_rewritten(rest, names)) =~= before + rewritten_tag(open + inner + close, names)
            + with_tags_rewritten(rest, names));
    }
}

/// A tag that does not end on its line is no tag: its first character is kept.
pub proof fn law_tag_ends_on_its_line(open: Seq<char>, inner: Seq<char>, rest: Seq<char>, names: Seq<
    Seq<char>,
>)
    requires
        open == "{{"@ || open == "{%"@,
        !inner.contains('}'),
    ensures
        ({
            let s = open + inner + seq!['\n'] + rest;
            with_tags_rewritten(s, names) == seq!['{'] + with_tags_rewritten(s.skip(1), names)
        }),
{
    reveal_strlit("{{");
    reveal_strlit("}}");
    reveal_strlit("{%");
    reveal_strlit("%}");
    let s = open + inner + seq!['\n'] + rest;
    assert(s[0] == '{');
    assert(has_prefix(s, "{{"@) ==> tag_len(s) is None) by {
        lemma_no_mark(s, "}}"@, 2, inner.len() as int + 2);
    }
    assert(has_prefix(s, "{%"@) ==> tag_len(s) is None) by {
        lemma_no_mark(s, "%}"@, 2, inner.len() as int + 2);
        assert(has_prefix(s, "{{"@) ==> mark_on_line(s, "}}"@, 2) is None) by {
            lemma_no_mark(s, "}}"@, 2, inner.len() as int + 2);
        }
    }
}

proof fn lemma_no_mark(s: Seq<char>, mark: Seq<char>, from: int, at: int)
    requires
        2 <= from <= at < s.len(),
        s[at] == '\n',
        forall|i: int| 2 <= i < at ==> #[trigger] s[i] != '}',
        mark == "}}"@ || mark == "%}"@,
    ensures
        mark_on_line(s, mark, from) is None,
    decreases at - from,
{
    reveal_strlit("}}");
    reveal_strlit("%}");
    if occurs_at(s, mark, from) {
        assert(s.subrange(from, from + 2)[0] == s[from]);
        assert(s.subrange(from, from + 2)[1] == s[from + 1]);
        assert(mark[1] == '}');
        assert(s[from + 1] == '}');
        if from + 1 < at {
            assert(s[from + 1] != '}');
        } else if from == at {
            assert(mark[0] == '\n');
        }
    }
    if from < at {
        lemma_no_mark(s, mark, from + 1, at);
    }
}

/// White space alone.
pub open spec fn all_space(s: Seq<char>) -> bool {
    forall|i: int| 0 <= i < s.len() ==> is_space(#[trigger] s[i])
}

/// A text without quotes has no strings.
proof fn lemma_no_strings(s: Seq<char>)
    requires
        !s.contains('"') && !s.contains('\''),
    ensures
        bare(s) == s,
    decreases s.len(),
{
    if s.len() > 0 {
        let rest = s.skip(1);
        assert(s[0] != '"' && s[0] != '\'');
        assert forall|c: char| rest.contains(c) implies s.contains(c) by {
            let i = choose|i: int| 0 <= i < rest.len() && rest[i] == c;
            assert(s[i + 1] == c);
        }
        lemma_no_strings(rest);
        assert(seq![s[0]] + rest =~= s);
        assert(bare_from(s, None) =~= s);
    } else {
        assert(bare_from(s, None) =~= s);
    }
}

/// Where nothing of a word stands, no word begins.
proof fn lemma_no_word(s: Seq<char>, at: int, to: int)
    requires
        0 <= at <= to <= s.len(),
        forall|i: int| at <= i < to ==> !goes_on(#[trigger] s[i], false),
    ensures
        words(s, at, false) == words(s, to, false),
    decreases to - at,
{
    if at < to {
        assert(!goes_on(s[at], false));
        lemma_no_word(s, at + 1, to);
    }
}

/// A run of word characters ends where the next one is none.
proof fn lemma_run_ends(s: Seq<char>, at: int, to: int)
    requires
        0 <= at <= to < s.len(),
        forall|i: int| at <= i < to ==> goes_on(#[trigger] s[i], false),
        !goes_on(s[to], false),
    ensures
        run_end(s, at, false) == to,
    decreases to - at,
{
    if at < to {
        assert(goes_on(s[at], false));
        lemma_run_ends(s, at + 1, to);
    }
}

proof fn lemma_space_ends(s: Seq<char>, at: int, to: int)
    requires
        0 <= at <= to < s.len(),
        forall|i: int| at <= i < to ==> is_space(#[trigger] s[i]),
        !is_space(s[to]),
    ensures
        space_end(s, at) == to,
    decreases to - at,
{
    if at < to {
        assert(is_space(s[at]));
        lemma_space_ends(s, at + 1, to);
    }
}

proof fn lemma_no_bar(s: Seq<char>, at: int, from: int)
    requires
        0 < from <= at <= s.len(),
        forall|i: int| from <= i < at ==> is_space(#[trigger] s[i]),
        s[from - 1] != '|' && !is_space(s[from - 1]),
    ensures
        !bar_before(s, at),
    decreases at - from,
{
    if from < at {
        assert(is_space(s[at - 1]));
        lemma_no_bar(s, at - 1, from);
    }
}

/// The variable that stands alone in an output tag is the one that the tag refers to.
proof fn lemma_tag_with_a_name(left: Seq<char>, name: Seq<char>, right: Seq<char>)
    requires
        all_space(left) && all_space(right),
        name.len() > 0 && ('a' <= name[0] <= 'z' || 'A' <= name[0] <= 'Z' || name[0] == '_'),
        forall|i: int|
            0 <= i < name.len() ==> {
                let c = #[trigger] name[i];
                'a' <= c <= 'z' || 'A' <= c <= 'Z' || c == '_' || '0' <= c <= '9'
            },
        !is_keyword(name),
    ensures
        tag_variables("{{"@ + left + name + right + "}}"@) == seq![name],
{
    reveal_strlit("{{");
    reveal_strlit("}}");
    reveal_strlit("{%");
    let tag = "{{"@ + left + name + right + "}}"@;
    let a = 2 + left.len() as int;
    let b = a + name.len();
    let e = b + right.len();
    assert forall|i: int| 0 <= i < tag.len() implies #[trigger] tag[i] == (if i < 2 {
        '{'
    } else if i < a {
        left[i - 2]
    } else if i < b {
        name[i - a]
    } else if i < e {
        right[i - b]
    } else {
        '}'
    }) by {}
    assert forall|c: char| is_space(c) implies !goes_on(c, false) && c != '"' && c != '\'' && c != '|'
        && c != '.' && c != ':' && c != '{' && c != '}' by {}
    assert(!tag.contains('"') && !tag.contains('\'')) by {
        assert forall|i: int| 0 <= i < tag.len() implies tag[i] != '"' && tag[i] != '\'' by {
            if 2 <= i < a {
                assert(is_space(left[i - 2]));
            } else if a <= i < b {
                assert(goes_on_name(name[i - a]));
            } else if b <= i < e {
                assert(is_space(right[i - b]));
            }
        }
    }
    lemma_no_strings(tag);
    assert(!has_prefix(tag, "{%"@)) by {
        if has_prefix(tag, "{%"@) {
            assert(tag.subrange(0, 2)[1] == tag[1]);
        }
    }
    assert(names_start(tag) == 2);
    assert forall|i: int| 2 <= i < a implies !goes_on(#[trigger] tag[i], false) by {
        assert(is_space(left[i - 2]));
    }
    lemma_no_word(tag, 2, a);
    assert forall|i: int| a <= i < b implies goes_on(#[trigger] tag[i], false) by {
        assert(goes_on_name(name[i - a]));
    }
    assert(!goes_on(tag[b], false)) by {
        if b < e {
            assert(is_space(right[0]));
        }
    }
    lemma_run_ends(tag, a, b);
    assert forall|i: int| b <= i < tag.len() implies !goes_on(#[trigger] tag[i], false) by {
        if i < e {
            assert(is_space(right[i - b]));
        }
    }
    lemma_no_word(tag, b, tag.len() as int);
    let list = words(tag, 2, false);
    assert(goes_on(tag[a], false));
    assert(words(tag, tag.len() as int, false) =~= Seq::empty());
    assert(list =~= seq![(a, b)]);
    assert(tag.subrange(a, b) =~= name);
    assert forall|i: int| 2 <= i < a implies is_space(#[trigger] tag[i]) by {
        assert(is_space(left[i - 2]));
    }
    lemma_no_bar(tag, a, 2);
    assert(!dot_before(tag, a)) by {
        if left.len() > 0 {
            assert(is_space(left[left.len() - 1]));
        }
    }
    assert forall|i: int| b <= i < e implies is_space(#[trigger] tag[i]) by {
        assert(is_space(right[i - b]));
    }
    lemma_space_ends(tag, b, e);
    assert(!colon_behind(tag, b));
    assert(starts_name(tag[a]));
    let pred = |w: (int, int)| names_variable(tag, w);
    assert(pred((a, b)));
    reveal(Seq::filter);
    assert(list.last() == (a, b));
    assert(list.drop_last() =~= Seq::<(int, int)>::empty());
    assert(list.drop_last().filter(pred) =~= Seq::<(int, int)>::empty());
    assert(list.filter(pred) =~= seq![(a, b)]);
    assert(variables_in(tag, list) =~= seq![name]);
}

proof fn lemma_behind(s: Seq<char>, mark: Seq<char>, from: int, at: int)
    requires
        0 <= from <= at < s.len(),
        occurs_at(s, mark, at),
        forall|i: int| from <= i < at ==> !#[trigger] occurs_at(s, mark, i),
    ensures
        behind_mark(s, mark, from) == at + mark.len(),
    decreases at - from,
{
    if from < at {
        assert(!occurs_at(s, mark, from));
        lemma_behind(s, mark, from + 1, at);
    }
}

proof fn lemma_first_tag(tag: Seq<char>, tags: Seq<Seq<char>>)
    ensures
        all_variables(seq![tag] + tags) == tag_variables(tag) + all_variables(tags),
    decreases tags.len(),
{
    let all = seq![tag] + tags;
    if tags.len() == 0 {
        assert(all.drop_last() =~= Seq::<Seq<char>>::empty());
        assert(all.last() == tag);
        assert(all_variables(all.drop_last()) =~= Seq::empty());
        assert(all_variables(all) =~= tag_variables(tag) + all_variables(tags));
    } else {
        lemma_first_tag(tag, tags.drop_last());
        assert(all.drop_last() =~= seq![tag] + tags.drop_last());
        assert(all.last() == tags.last());
        assert(all_variables(all) =~= tag_variables(tag) + all_variables(tags));
    }
}

/// A text refers to the name in an output tag, with or without white space around it, and then to
/// what the rest of it refers to. Text before the tag refers to nothing.
pub proof fn law_name_in_a_tag_is_referred_to(
    before: Seq<char>,
    left: Seq<char>,
    name: Seq<char>,
    right: Seq<char>,
    rest: Seq<char>,
)
    requires
        !before.contains('{'),
        all_space(left) && all_space(right),
        name.len() > 0 && ('a' <= name[0] <= 'z' || 'A' <= name[0] <= 'Z' || name[0] == '_'),
        forall|i: int|
            0 <= i < name.len() ==> {
                let c = #[trigger] name[i];
                'a' <= c <= 'z' || 'A' <= c <= 'Z' || c == '_' || '0' <= c <= '9'
            },
        !is_keyword(name),
    ensures
        references(before + "{{"@ + left + name + right + "}}"@ + rest) == seq![name] + references(
            rest,
        ),
        references(before) == Seq::<Seq<char>>::empty(),
    decreases before.len(),
{
    reveal_strlit("{{");
    reveal_strlit("}}");
    reveal_strlit("{%");
    let tag = "{{"@ + left + name + right + "}}"@;
    let s = before + "{{"@ + left + name + right + "}}"@ + rest;
    if before.len() == 0 {
        assert(s =~= tag + rest);
        assert(s.subrange(0, 2) =~= "{{"@);
        assert(has_prefix(s, "{{"@));
        let at = tag.len() - 2;
        assert(s.subrange(at, at + 2) =~= "}}"@);
        assert(occurs_at(s, "}}"@, at));
        assert forall|i: int| 2 <= i < at implies !#[trigger] occurs_at(s, "}}"@, i) by {
            if occurs_at(s, "}}"@, i) {
                assert(s.subrange(i, i + 2)[0] == s[i]);
                assert(s[i] == '}');
                if i < 2 + left.len() {
                    assert(s[i] == left[i - 2]);
                    assert(is_space(left[i - 2]));
                } else if i < 2 + left.len() + name.len() {
                    assert(s[i] == name[i - 2 - left.len()]);
                } else {
                    assert(s[i] == right[i - 2 - left.len() - name.len()]);
                    assert(is_space(right[i - 2 - left.len() - name.len()]));
                }
            }
        }
        lemma_behind(s, "}}"@, 2, at);
        assert(whole_tag_len(s) == Some(tag.len() as int));
        assert(s.take(tag.len() as int) =~= tag);
        assert(s.skip(tag.len() as int) =~= rest);
        lemma_tag_with_a_name(left, name, right);
        lemma_first_tag(tag, tags_of(rest));
        assert(tags_of(before) =~= Seq::<Seq<char>>::empty());
    } else {
        let front = before.skip(1);
        assert(before[0] != '{');
        assert(s[0] == before[0]);
        assert(s.skip(1) =~= front + "{{"@ + left + name + right + "}}"@ + rest);
        assert(!front.contains('{')) by {
            if front.contains('{') {
                let i = choose|i: int| 0 <= i < front.len() && front[i] == '{';
                assert(before[i + 1] == '{');
            }
        }
        lemma_opens_no_tag(s);
        lemma_opens_no_tag(before);
        law_name_in_a_tag_is_referred_to(front, left, name, right, rest);
    }
}

proof fn lemma_opens_no_tag(s: Seq<char>)
    requires
        s.len() > 0,
        s[0] != '{',
    ensures
        whole_tag_len(s) is None,
{
    reveal_strlit("{{");
    reveal_strlit("{%");
    if has_prefix(s, "{{"@) {
        assert(s.subrange(0, 2)[0] == s[0]);
    }
    if has_prefix(s, "{%"@) {
        assert(s.subrange(0, 2)[0] == s[0]);
    }
}

} // verus!
