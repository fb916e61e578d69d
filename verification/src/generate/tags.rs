//! The tags of a template, and the rewriting of hyphenated names in them.
use vstd::prelude::*;

use crate::generate::variables::underscored;
use crate::text::{
    chars_of, has_part, has_prefix, occurs_at, replace_char, slice_text, stands_at, texts,
};

verus! {

/// Output tags and logic tags, each up to its first end mark on the same line.
pub const TAG_PATTERN: &'static str = r"(\{\{-?.*?-?\}\}|\{%-?.*?-?%\})";

/// The first place from `from` on where `mark` stands, with no line feed before it.
pub open spec fn mark_on_line(s: Seq<char>, mark: Seq<char>, from: int) -> Option<int>
    decreases s.len() - from,
{
    if from > s.len() {
        None
    } else if occurs_at(s, mark, from) {
        Some(from)
    } else if from == s.len() || s[from] == '\n' {
        None
    } else {
        mark_on_line(s, mark, from + 1)
    }
}

/// The length of the tag at the start of `s`, where there is one.
pub open spec fn tag_len(s: Seq<char>) -> Option<int> {
    let mark = if has_prefix(s, "{{"@) {
        Some("}}"@)
    } else if has_prefix(s, "{%"@) {
        Some("%}"@)
    } else {
        None
    };
    match mark {
        Some(m) => match mark_on_line(s, m, 2) {
            Some(at) => Some(at + 2),
            None => None,
        },
        None => None,
    }
}

/// The length of the longest of the names that stands at the start of `s`, 0 where none does.
pub open spec fn longest_name(s: Seq<char>, names: Seq<Seq<char>>) -> nat
    decreases names.len(),
{
    if names.len() == 0 {
        0
    } else {
        let rest = longest_name(s, names.drop_last());
        let last = names.last();
        if has_prefix(s, last) && last.len() > rest {
            last.len()
        } else {
            rest
        }
    }
}

/// A tag with the names in their underscored form, from left to right: at each place the longest
/// name that stands there is rewritten.
pub open spec fn rewritten_tag(tag: Seq<char>, names: Seq<Seq<char>>) -> Seq<char>
    decreases tag.len(),
{
    let n = longest_name(tag, names);
    if tag.len() == 0 || n > tag.len() {
        tag
    } else if n > 0 {
        underscored(tag.take(n as int)) + rewritten_tag(tag.skip(n as int), names)
    } else {
        seq![tag[0]] + rewritten_tag(tag.skip(1), names)
    }
}

/// A text with its tags rewritten, from left to right, and all else as it was.
pub open spec fn with_tags_rewritten(s: Seq<char>, names: Seq<Seq<char>>) -> Seq<char>
    decreases s.len(),
{
    if s.len() == 0 {
        s
    } else {
        match tag_len(s) {
            Some(n) => if 0 < n <= s.len() {
                rewritten_tag(s.take(n), names) + with_tags_rewritten(s.skip(n), names)
            } else {
                s
            },
            None => seq![s[0]] + with_tags_rewritten(s.skip(1), names),
        }
    }
}

/// The longest name that stands at the start of `s` is one of the names, and no name that stands
/// there is longer.
pub proof fn lemma_longest_name(s: Seq<char>, names: Seq<Seq<char>>)
    ensures
        longest_name(s, names) <= s.len(),
        forall|i: int|
            0 <= i < names.len() && has_prefix(s, #[trigger] names[i]) ==> names[i].len()
                <= longest_name(s, names),
        longest_name(s, names) > 0 ==> names.contains(s.take(longest_name(s, names) as int)),
    decreases names.len(),
{
    if names.len() > 0 {
        let front = names.drop_last();
        let last = names.last();
        lemma_longest_name(s, front);
        assert forall|i: int|
            0 <= i < names.len() && has_prefix(s, #[trigger] names[i]) implies names[i].len()
            <= longest_name(s, names) by {
            if i < front.len() {
                assert(front[i] == names[i]);
            }
        }
        let n = longest_name(s, names);
        if n > 0 {
            if has_prefix(s, last) && last.len() > longest_name(s, front) {
                assert(s.take(n as int) =~= last);
                assert(names[names.len() - 1] == last);
            } else {
                let i = choose|i: int| 0 <= i < front.len() && front[i] == s.take(n as int);
                assert(names[i] == s.take(n as int));
            }
        }
    }
}

/// The order of the names, and how often each is given, does not matter.
pub proof fn law_order_of_names_does_not_matter(
    tag: Seq<char>,
    a: Seq<Seq<char>>,
    b: Seq<Seq<char>>,
)
    requires
        forall|name: Seq<char>| #[trigger] a.contains(name) <==> b.contains(name),
    ensures
        rewritten_tag(tag, a) == rewritten_tag(tag, b),
    decreases tag.len(),
{
    lemma_longest_name(tag, a);
    lemma_longest_name(tag, b);
    let n = longest_name(tag, a);
    let m = longest_name(tag, b);
    assert(n == m) by {
        if n > 0 {
            let name = tag.take(n as int);
            assert(b.contains(name));
            let i = choose|i: int| 0 <= i < b.len() && b[i] == name;
            assert(has_prefix(tag, b[i])) by {
                assert(tag.subrange(0, n as int) =~= name);
            }
        }
        if m > 0 {
            let name = tag.take(m as int);
            assert(a.contains(name));
            let i = choose|i: int| 0 <= i < a.len() && a[i] == name;
            assert(has_prefix(tag, a[i])) by {
                assert(tag.subrange(0, m as int) =~= name);
            }
        }
    }
    if tag.len() > 0 {
        if n > 0 {
            law_order_of_names_does_not_matter(tag.skip(n as int), a, b);
        } else {
            law_order_of_names_does_not_matter(tag.skip(1), a, b);
        }
    }
}

/// A name that stands at some place of a tag, where no longer one stands there, comes out underscored,
/// and what follows it is rewritten on its own.
pub proof fn law_name_is_underscored(name: Seq<char>, rest: Seq<char>, names: Seq<Seq<char>>)
    requires
        name.len() > 0,
        names.contains(name),
        longest_name(name + rest, names) <= name.len(),
    ensures
        rewritten_tag(name + rest, names) == underscored(name) + rewritten_tag(rest, names),
{
    let tag = name + rest;
    lemma_longest_name(tag, names);
    let i = choose|i: int| 0 <= i < names.len() && names[i] == name;
    assert(tag.subrange(0, name.len() as int) =~= name);
    assert(has_prefix(tag, names[i]));
    assert(tag.take(name.len() as int) =~= name);
    assert(tag.skip(name.len() as int) =~= rest);
}

fn find_longest_name(v: &Vec<char>, at: usize, names: &Vec<String>) -> (n: usize)
    requires
        at <= v@.len(),
    ensures
        n == longest_name(v@.skip(at as int), texts(names@)),
        at + n <= v@.len(),
{
    let mut n: usize = 0;
    let mut i: usize = 0;
    let ghost s = v@.skip(at as int);
    assert(texts(names@).take(0) =~= Seq::empty());
    while i < names.len()
        invariant
            i <= names@.len(),
            at <= v@.len(),
            s == v@.skip(at as int),
            n == longest_name(s, texts(names@).take(i as int)),
            at + n <= v@.len(),
        decreases names.len() - i,
    {
        proof {
            let next = texts(names@).take(i + 1);
            assert(next.drop_last() =~= texts(names@).take(i as int));
            assert(next.last() == names@[i as int]@);
        }
        let name = chars_of(names[i].as_str());
        assert(occurs_at(v@, name@, at as int) == has_prefix(s, name@)) by {
            if at + name@.len() <= v@.len() {
                assert(v@.subrange(at as int, at + name@.len()) =~= s.subrange(
                    0,
                    name@.len() as int,
                ));
            }
        }
        if name.len() > n && stands_at(v, &name, at) {
            n = name.len();
        }
        i += 1;
    }
    assert(texts(names@).take(i as int) =~= texts(names@));
    n
}

/// Puts the names in a tag into their underscored form, at each place the longest one that stands
/// there.
pub fn rewrite_tag(tag: &str, names: &Vec<String>) -> (r: String)
    ensures
        r@ == rewritten_tag(tag@, texts(names@)),
{
    let v = chars_of(tag);
    let mut r = String::new();
    let mut at: usize = 0;
    let ghost all = rewritten_tag(tag@, texts(names@));
    assert(v@.skip(0) =~= v@);
    assert(r@ + all =~= all);
    while at < v.len()
        invariant
            at <= v@.len(),
            v@ == tag@,
            all == rewritten_tag(tag@, texts(names@)),
            r@ + rewritten_tag(v@.skip(at as int), texts(names@)) == all,
        decreases v.len() - at,
    {
        let n = find_longest_name(&v, at, names);
        let ghost s = v@.skip(at as int);
        let ghost before = r@;
        if n > 0 {
            let name = slice_text(&v, at, at + n);
            let other = replace_char(name.as_str(), '-', '_');
            r = r.concat(other.as_str());
            proof {
                assert(name@ =~= s.take(n as int));
                assert(s.skip(n as int) =~= v@.skip(at + n));
                assert(r@ + rewritten_tag(v@.skip(at + n), texts(names@)) =~= before
                    + rewritten_tag(s, texts(names@)));
            }
            at += n;
        } else {
            r.push(v[at]);
            proof {
                assert(s.skip(1) =~= v@.skip(at + 1));
                assert(s[0] == v@[at as int]);
                assert(r@ + rewritten_tag(v@.skip(at + 1), texts(names@)) =~= before
                    + rewritten_tag(s, texts(names@)));
            }
            at += 1;
        }
    }
    assert(v@.skip(at as int).len() == 0);
    assert(r@ =~= all);
    r
}

/// Calls `regex::Regex::replace_all` with the pattern of a tag and with [`rewrite_tag`] for what
/// takes the place of a match. Claims that the matches are the tags, taken from left to right
/// without overlap, and that what lies between them stays.
#[verifier::external_body]
fn replace_tags(pattern: &str, content: &str, names: &Vec<String>) -> (r: String)
    requires
        pattern@ == TAG_PATTERN@,
    ensures
        r@ == with_tags_rewritten(content@, texts(names@)),
{
    let tag = regex::Regex::new(pattern).unwrap();
    tag.replace_all(content, |found: &regex::Captures<'_>| rewrite_tag(&found[0], names)).into_owned()
}

/// What is handed to the template language for a file: its text with the hyphenated names in its
/// tags underscored. The language would take the hyphen for a minus.
pub fn preprocess_template(content: &str, hyphenated_vars: &Vec<String>) -> (r: String)
    ensures
        r@ == (if hyphenated_vars@.len() == 0 {
            content@
        } else {
            with_tags_rewritten(content@, texts(hyphenated_vars@))
        }),
{
    if hyphenated_vars.len() == 0 {
        content.to_owned()
    } else {
        replace_tags(TAG_PATTERN, content, hyphenated_vars)
    }
}

/// A text in which no tag opens.
pub open spec fn no_tag_opens(s: Seq<char>) -> bool {
    !has_part(s, "{{"@) && !has_part(s, "{%"@)
}

/// Text in which no tag opens stays as it is.
pub proof fn law_plain_text_is_kept(s: Seq<char>, names: Seq<Seq<char>>)
    requires
        no_tag_opens(s),
    ensures
        with_tags_rewritten(s, names) == s,
    decreases s.len(),
{
    if s.len() > 0 {
        let rest = s.skip(1);
        assert(!has_prefix(s, "{{"@)) by {
            if has_prefix(s, "{{"@) {
                assert(occurs_at(s, "{{"@, 0));
            }
        }
        assert(!has_prefix(s, "{%"@)) by {
            if has_prefix(s, "{%"@) {
                assert(occurs_at(s, "{%"@, 0));
            }
        }
        lemma_part_of_rest(s, "{{"@);
        lemma_part_of_rest(s, "{%"@);
        law_plain_text_is_kept(rest, names);
        assert(seq![s[0]] + rest =~= s);
    }
}

proof fn lemma_part_of_rest(s: Seq<char>, part: Seq<char>)
    requires
        s.len() > 0,
        !has_part(s, part),
    ensures
        !has_part(s.skip(1), part),
{
    if has_part(s.skip(1), part) {
        let at = choose|at: int| occurs_at(s.skip(1), part, at);
        assert(s.skip(1).subrange(at, at + part.len()) =~= s.subrange(at + 1, at + 1 + part.len()));
        assert(occurs_at(s, part, at + 1));
    }
}

proof fn lemma_tag_without_names(tag: Seq<char>)
    ensures
        rewritten_tag(tag, Seq::empty()) == tag,
    decreases tag.len(),
{
    if tag.len() > 0 {
        lemma_tag_without_names(tag.skip(1));
        assert(seq![tag[0]] + tag.skip(1) =~= tag);
    }
}

/// Where no name is to be rewritten, nothing changes.
pub proof fn law_no_names_no_change(s: Seq<char>)
    ensures
        with_tags_rewritten(s, Seq::empty()) == s,
    decreases s.len(),
{
    if s.len() > 0 {
        match tag_len(s) {
            Some(n) => {
                if 0 < n <= s.len() {
                    lemma_tag_without_names(s.take(n));
                    law_no_names_no_change(s.skip(n));
                    assert(s.take(n) + s.skip(n) =~= s);
                }
            },
            None => {
                law_no_names_no_change(s.skip(1));
                assert(seq![s[0]] + s.skip(1) =~= s);
            },
        }
    }
}

} // verus!
