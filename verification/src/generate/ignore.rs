//! The list of files that a template keeps to itself.
use vstd::prelude::*;

use crate::text::{
    has_prefix, has_suffix, is_space, law_line_ends_at_a_line_feed, law_white_space_is_taken_away,
    lemma_filter_from, lines, lines_of, starts_with, texts, trim, trimmed,
};

verus! {

#[verifier::external_type_specification]
#[verifier::external_body]
pub struct ExGlob(globset::Glob);

#[verifier::external_type_specification]
#[verifier::external_body]
pub struct ExGlobSetBuilder(globset::GlobSetBuilder);

#[verifier::external_type_specification]
#[verifier::external_body]
pub struct ExGlobSet(globset::GlobSet);

#[verifier::external_type_specification]
#[verifier::external_body]
pub struct ExGlobError(globset::Error);

/// The pattern that a glob was made of.
pub uninterp spec fn glob_text(glob: globset::Glob) -> Seq<char>;

/// The patterns that were added to a builder, in order.
pub uninterp spec fn builder_patterns(builder: globset::GlobSetBuilder) -> Seq<Seq<char>>;

/// The patterns of a set, in the order in which they were added.
pub uninterp spec fn set_patterns(set: globset::GlobSet) -> Seq<Seq<char>>;

/// The paths that a set matches, on the machine at hand.
pub uninterp spec fn set_paths(set: globset::GlobSet) -> Set<Seq<char>>;

/// Whether a text without a backslash is a pattern.
pub uninterp spec fn is_glob(pattern: Seq<char>) -> bool;

/// Whether a text can be refused as a pattern: on some machine.
pub uninterp spec fn can_refuse_glob(pattern: Seq<char>) -> bool;

/// Whether a set of some patterns can be refused: on some machine.
pub uninterp spec fn can_refuse_set(patterns: Seq<Seq<char>>) -> bool;

/// Whether a set of some patterns can match some paths and no others: on some machine.
pub uninterp spec fn can_match(patterns: Seq<Seq<char>>, paths: Set<Seq<char>>) -> bool;

/// Whether a path matches a pattern, neither of them with a backslash.
pub uninterp spec fn glob_matches(pattern: Seq<char>, path: Seq<char>) -> bool;

/// A text without a backslash, which is an escape on some machines and parts the names of a path on
/// others.
pub open spec fn no_backslash(s: Seq<char>) -> bool {
    !s.contains('\\')
}

/// Texts of which none has a backslash.
pub open spec fn no_backslashes(list: Seq<Seq<char>>) -> bool {
    forall|i: int| 0 <= i < list.len() ==> no_backslash(#[trigger] list[i])
}

/// Whether a text has at least one character, and none that means something else in a pattern.
pub open spec fn is_literal(s: Seq<char>) -> bool {
    &&& s.len() > 0
    &&& forall|i: int|
        0 <= i < s.len() ==> {
            let c = #[trigger] s[i];
            c != '*' && c != '?' && c != '[' && c != ']' && c != '{' && c != '}' && c != '\\'
        }
}

/// Whether a pattern is a star and a text: neither a dot nor a slash alone.
pub open spec fn is_ending(pattern: Seq<char>) -> bool {
    &&& pattern.len() > 1 && pattern[0] == '*'
    &&& is_literal(pattern.skip(1))
    &&& pattern.skip(1) != seq!['.'] && pattern.skip(1) != seq!['/']
}

/// Whether a pattern is a text and a star.
pub open spec fn is_beginning(pattern: Seq<char>) -> bool {
    pattern.len() > 1 && pattern.last() == '*' && is_literal(pattern.drop_last())
}

/// Whether a pattern is a text with no star, or with one star at its start or its end.
pub open spec fn is_simple(pattern: Seq<char>) -> bool {
    is_literal(pattern) || is_ending(pattern) || is_beginning(pattern)
}

/// Patterns all of which are simple.
pub open spec fn all_simple(patterns: Seq<Seq<char>>) -> bool {
    forall|i: int| 0 <= i < patterns.len() ==> is_simple(#[trigger] patterns[i])
}

/// Whether a path matches a simple pattern: it is the text, ends with it or begins with it.
pub open spec fn simple_matches(pattern: Seq<char>, path: Seq<char>) -> bool {
    if is_literal(pattern) {
        path == pattern
    } else if is_ending(pattern) {
        has_suffix(path, pattern.skip(1))
    } else {
        has_prefix(path, pattern.drop_last())
    }
}

/// Calls `globset::Glob::new`. Claims that a glob comes back for every simple pattern; of a text
/// without a backslash that a glob comes back exactly where the text is a pattern; and of every
/// glob that it is made of the text. Of a text with a backslash it is only said that one for which
/// no glob comes back can be refused: that depends on the machine.
#[verifier::external_body]
fn new_glob(pattern: &str) -> (r: Result<globset::Glob, globset::Error>)
    ensures
        is_simple(pattern@) ==> r is Ok,
        no_backslash(pattern@) ==> (r is Ok <==> is_glob(pattern@)),
        r is Err ==> can_refuse_glob(pattern@),
        r matches Ok(glob) ==> glob_text(glob) == pattern@,
{
    globset::Glob::new(pattern)
}

/// Calls `globset::GlobSetBuilder::new`. Claims that the new builder holds no pattern.
#[verifier::external_body]
fn new_builder() -> (b: globset::GlobSetBuilder)
    ensures
        builder_patterns(b) == Seq::<Seq<char>>::empty(),
{
    globset::GlobSetBuilder::new()
}

/// Calls `globset::GlobSetBuilder::add`. Claims that the pattern stands behind those that were
/// there before.
#[verifier::external_body]
fn add_glob(builder: &mut globset::GlobSetBuilder, glob: globset::Glob)
    ensures
        builder_patterns(*final(builder)) == builder_patterns(*old(builder)).push(glob_text(glob)),
{
    builder.add(glob);
}

/// Calls `globset::GlobSetBuilder::build`. Claims of a set that comes back that it has the patterns
/// that were added and, where none of them has a backslash, that it matches a path without a
/// backslash exactly where one of them does. Claims of simple patterns that a set comes back, and
/// that it matches a path without a backslash exactly where the path is, begins with or ends with
/// the text of one of them. Of other patterns it is only said that those of which no set comes back
/// can be refused, and that the paths of a set are some that the patterns can match: a pattern can
/// be too large for the machine.
#[verifier::external_body]
fn build_set(builder: &globset::GlobSetBuilder) -> (r: Result<globset::GlobSet, globset::Error>)
    ensures
        all_simple(builder_patterns(*builder)) ==> r is Ok,
        r is Err ==> can_refuse_set(builder_patterns(*builder)),
        r matches Ok(set) ==> can_match(builder_patterns(*builder), set_paths(set)),
        r matches Ok(set) ==> all_simple(builder_patterns(*builder)) ==> (forall|path: Seq<char>|
            no_backslash(path) ==> (#[trigger] set_paths(set).contains(path) <==> any_simple_matches(builder_patterns(*builder), path))),
        r matches Ok(set) ==> set_patterns(set) == builder_patterns(*builder),
        r matches Ok(set) ==> no_backslashes(builder_patterns(*builder)) ==> (forall|path: Seq<char>|
            no_backslash(path) ==> (#[trigger] set_paths(set).contains(path) <==> exists|i: int|
                0 <= i < builder_patterns(*builder).len() && #[trigger] glob_matches(builder_patterns(*builder)[i], path))),
{
    builder.build()
}

/// Whether a path matches one of some simple patterns.
pub open spec fn any_simple_matches(patterns: Seq<Seq<char>>, path: Seq<char>) -> bool {
    exists|i: int| 0 <= i < patterns.len() && #[trigger] simple_matches(patterns[i], path)
}

/// Whether a path matches one of some patterns.
pub open spec fn any_glob_matches(patterns: Seq<Seq<char>>, path: Seq<char>) -> bool {
    exists|i: int| 0 <= i < patterns.len() && #[trigger] glob_matches(patterns[i], path)
}

/// Calls `globset::GlobSet::is_match`. Claims that it tells whether the path is one that the set
/// matches and, where neither the path nor a pattern has a backslash, that it tells whether the
/// path matches one of the patterns.
#[verifier::external_body]
fn set_matches(set: &globset::GlobSet, path: &str) -> (r: bool)
    ensures
        r == set_paths(*set).contains(path@),
        no_backslash(path@) && no_backslashes(set_patterns(*set)) ==> r == (exists|i: int|
            0 <= i < set_patterns(*set).len() && #[trigger] glob_matches(set_patterns(*set)[i], path@)),
{
    set.is_match(path)
}

/// Whether a line, without the white space around it, can name files to be left out: it is not
/// empty and no comment.
pub open spec fn is_rule_line(line: Seq<char>) -> bool {
    line.len() > 0 && line[0] != '#'
}

/// The lines of the list that can name files to be left out, without the white space around them.
pub open spec fn ignore_lines(content: Seq<char>) -> Seq<Seq<char>> {
    lines_of(content).map_values(|l: Seq<char>| trimmed(l)).filter(|l: Seq<char>| is_rule_line(l))
}

/// The patterns in the list, line by line, where none of the lines has a backslash.
pub open spec fn ignore_patterns(content: Seq<char>) -> Seq<Seq<char>> {
    ignore_lines(content).filter(|l: Seq<char>| is_glob(l))
}

/// Whether `kept` are some of the lines, in order: of the lines without a backslash exactly the
/// patterns, and all that are simple. Only a line that can be refused is left out.
pub open spec fn keeps_patterns(lines: Seq<Seq<char>>, kept: Seq<Seq<char>>) -> bool
    decreases lines.len(),
{
    if lines.len() == 0 {
        kept.len() == 0
    } else {
        let line = lines.last();
        let before = lines.drop_last();
        ||| {
            &&& kept.len() > 0 && kept.last() == line
            &&& no_backslash(line) ==> is_glob(line)
            &&& keeps_patterns(before, kept.drop_last())
        }
        ||| {
            &&& no_backslash(line) ==> !is_glob(line)
            &&& !is_simple(line) && can_refuse_glob(line)
            &&& keeps_patterns(before, kept)
        }
    }
}

/// Of lines without a backslash, the patterns are kept.
pub proof fn lemma_keeps_patterns(lines: Seq<Seq<char>>, kept: Seq<Seq<char>>)
    requires
        keeps_patterns(lines, kept),
        no_backslashes(lines),
    ensures
        kept == lines.filter(|l: Seq<char>| is_glob(l)),
    decreases lines.len(),
{
    reveal(Seq::filter);
    if lines.len() > 0 {
        let line = lines.last();
        let before = lines.drop_last();
        assert(lines[lines.len() - 1] == line);
        assert forall|i: int| 0 <= i < before.len() implies no_backslash(#[trigger] before[i]) by {
            assert(before[i] == lines[i]);
        }
        if is_glob(line) {
            lemma_keeps_patterns(before, kept.drop_last());
            assert(kept =~= kept.drop_last().push(line));
        } else {
            lemma_keeps_patterns(before, kept);
        }
    }
}

/// Of simple lines, all are kept.
pub proof fn lemma_keeps_simple(lines: Seq<Seq<char>>, kept: Seq<Seq<char>>)
    requires
        keeps_patterns(lines, kept),
        all_simple(lines),
    ensures
        kept == lines,
    decreases lines.len(),
{
    if lines.len() > 0 {
        let before = lines.drop_last();
        assert(is_simple(lines[lines.len() - 1]));
        assert forall|i: int| 0 <= i < before.len() implies is_simple(#[trigger] before[i]) by {
            assert(before[i] == lines[i]);
        }
        lemma_keeps_simple(before, kept.drop_last());
        assert(kept =~= kept.drop_last().push(lines.last()));
        assert(lines =~= before.push(lines.last()));
    } else {
        assert(kept =~= lines);
    }
}

/// Whether there can be no set for some lines: none of them is a pattern, or a set of those that are
/// can be refused.
pub open spec fn can_lack_set(lines: Seq<Seq<char>>) -> bool {
    exists|kept: Seq<Seq<char>>| #[trigger]
        keeps_patterns(lines, kept) && (kept.len() == 0 || can_refuse_set(kept))
}

/// Reads the list of files to be left out: one pattern per line, with comments and empty lines
/// between. There is no set where the list holds no pattern, or where none can be made of them; of
/// simple patterns one can always be made.
pub fn build_globset(content: &str) -> (r: Option<globset::GlobSet>)
    ensures
        r matches Some(set) ==> {
            &&& set_patterns(set).len() > 0
            &&& keeps_patterns(ignore_lines(content@), set_patterns(set))
            &&& can_match(set_patterns(set), set_paths(set))
            &&& no_backslashes(ignore_lines(content@)) ==> set_patterns(set) == ignore_patterns(
                content@,
            )
            &&& no_backslashes(ignore_lines(content@)) ==> forall|path: Seq<char>|
                no_backslash(path) ==> (#[trigger] set_paths(set).contains(path)
                    <==> any_glob_matches(ignore_patterns(content@), path))
        },
        all_simple(ignore_lines(content@)) ==> {
            &&& r is Some <==> ignore_lines(content@).len() > 0
            &&& r matches Some(set) ==> set_patterns(set) == ignore_lines(content@) && forall|
                path: Seq<char>,
            |
                no_backslash(path) ==> (#[trigger] set_paths(set).contains(path)
                    <==> any_simple_matches(ignore_lines(content@), path))
        },
        r is None ==> can_lack_set(ignore_lines(content@)),
        r is None && no_backslashes(ignore_lines(content@)) ==> ignore_patterns(content@).len() == 0
            || can_refuse_set(ignore_patterns(content@)),
        ignore_lines(content@).len() == 0 ==> r is None,
        no_backslashes(ignore_lines(content@)) && ignore_patterns(content@).len() == 0 ==> r is None,
{
    let list = lines(content);
    let mut builder = new_builder();
    let mut has_patterns = false;
    let mut i: usize = 0;
    let ghost all = lines_of(content@).map_values(|l: Seq<char>| trimmed(l));
    let ghost pred = |l: Seq<char>| is_rule_line(l);
    proof {
        reveal(Seq::filter);
        reveal_strlit("#");
        assert("#"@ =~= seq!['#']);
        assert(all.take(0).filter(pred) =~= Seq::empty());
    }
    while i < list.len()
        invariant
            i <= list@.len(),
            texts(list@) == lines_of(content@),
            all == lines_of(content@).map_values(|l: Seq<char>| trimmed(l)),
            pred == (|l: Seq<char>| is_rule_line(l)),
            "#"@ == seq!['#'],
            keeps_patterns(all.take(i as int).filter(pred), builder_patterns(builder)),
            has_patterns == (builder_patterns(builder).len() > 0),
        decreases list.len() - i,
    {
        let line = trim(list[i].as_str());
        let ghost before = builder_patterns(builder);
        let ghost rules = all.take(i as int).filter(pred);
        proof {
            reveal(Seq::filter);
            assert(texts(list@)[i as int] == list@[i as int]@);
            let next = all.take(i + 1);
            assert(next.drop_last() =~= all.take(i as int));
            assert(next.last() == line@);
            assert(line@.len() > 0 ==> (has_prefix(line@, "#"@) <==> line@[0] == '#'))
                by {
                if line@.len() > 0 {
                    assert(line@.subrange(0, 1)[0] == line@[0]);
                    if line@[0] == '#' {
                        assert(line@.subrange(0, 1) =~= "#"@);
                    }
                }
            }
        }
        if !line.as_str().is_empty() && !starts_with(line.as_str(), "#") {
            assert(all.take(i + 1).filter(pred) == rules.push(line@));
            assert(rules.push(line@).drop_last() =~= rules);
            match new_glob(line.as_str()) {
                Ok(glob) => {
                    add_glob(&mut builder, glob);
                    has_patterns = true;
                    assert(before.push(line@).drop_last() =~= before);
                },
                Err(_) => {},
            }
        }
        i += 1;
    }
    proof {
        assert(texts(list@).len() == all.len());
        assert(all.take(i as int) =~= all);
        let rules = ignore_lines(content@);
        if all_simple(rules) {
            lemma_keeps_simple(rules, builder_patterns(builder));
        }
        if no_backslashes(rules) {
            lemma_keeps_patterns(rules, builder_patterns(builder));
            assert forall|k: int| 0 <= k < builder_patterns(builder).len() implies no_backslash(
                #[trigger] builder_patterns(builder)[k],
            ) by {
                lemma_filter_from(rules, |l: Seq<char>| is_glob(l), k);
            }
        }
    }
    if !has_patterns {
        return None;
    }
    match build_set(&builder) {
        Ok(set) => Some(set),
        Err(_) => None,
    }
}

/// The patterns of a set, none where there is no set.
pub open spec fn patterns_of(genignore: Option<globset::GlobSet>) -> Seq<Seq<char>> {
    match genignore {
        Some(set) => set_patterns(set),
        None => Seq::empty(),
    }
}

/// The paths that a set matches, none where there is no set.
pub open spec fn paths_of(genignore: Option<globset::GlobSet>) -> Set<Seq<char>> {
    match genignore {
        Some(set) => set_paths(set),
        None => Set::empty(),
    }
}

/// Whether a file or directory, given by its path relative to the template, is left out: whether
/// the set matches the path. Where neither the path nor a pattern has a backslash, that is whether
/// one of the patterns does.
pub fn is_ignored(genignore: &Option<globset::GlobSet>, relative_path: &str) -> (r: bool)
    ensures
        r == paths_of(*genignore).contains(relative_path@),
        no_backslash(relative_path@) && no_backslashes(patterns_of(*genignore)) ==> r
            == any_glob_matches(patterns_of(*genignore), relative_path@),
{
    match genignore {
        Some(set) => set_matches(set, relative_path),
        None => false,
    }
}

/// Each line of the list stands for itself, the white space around it aside. An empty line and one that
/// begins with a number sign say nothing.
pub proof fn law_list_is_read_line_by_line(
    left: Seq<char>,
    rule: Seq<char>,
    right: Seq<char>,
    rest: Seq<char>,
)
    requires
        forall|i: int| 0 <= i < left.len() ==> is_space(#[trigger] left[i]) && left[i] != '\n',
        forall|i: int|
            0 <= i < right.len() ==> is_space(#[trigger] right[i]) && right[i] != '\n' && right[i]
                != '\r',
        !rule.contains('\n'),
        rule.len() > 0 ==> !is_space(rule[0]) && !is_space(rule.last()),
        rule.len() == 0 ==> left.len() == 0,
    ensures
        ignore_lines(left + rule + right + seq!['\n'] + rest) == (if rule.len() == 0 || rule[0] == '#' {
            ignore_lines(rest)
        } else {
            seq![rule] + ignore_lines(rest)
        }),
        ignore_lines(Seq::empty()).len() == 0,
{
    let line = left + rule + right;
    let content = line + seq!['\n'] + rest;
    assert(content =~= left + rule + right + seq!['\n'] + rest);
    assert(!line.contains('\n')) by {
        if line.contains('\n') {
            let i = choose|i: int| 0 <= i < line.len() && line[i] == '\n';
            if i < left.len() {
                assert(left[i] != '\n');
            } else if i < left.len() + rule.len() {
                assert(rule[i - left.len()] == '\n');
            } else {
                assert(right[i - left.len() - rule.len()] != '\n');
            }
        }
    }
    assert(line.len() == 0 || line.last() != '\r') by {
        if right.len() > 0 {
            assert(line.last() == right[right.len() - 1]);
        } else if rule.len() > 0 {
            assert(line.last() == rule.last());
        }
    }
    law_line_ends_at_a_line_feed(line, rest);
    law_white_space_is_taken_away(left, rule, right);
    let strip = |l: Seq<char>| trimmed(l);
    let pred = |l: Seq<char>| is_rule_line(l);
    let one = seq![line].map_values(strip);
    let others = lines_of(rest).map_values(strip);
    assert(one =~= seq![rule]);
    assert(lines_of(content).map_values(strip) =~= one + others);
    broadcast use Seq::filter_distributes_over_add;

    assert((one + others).filter(pred) == one.filter(pred) + others.filter(pred));
    reveal(Seq::filter);
    assert(one.drop_last() =~= Seq::<Seq<char>>::empty());
    assert(one.last() == rule);
    assert(one.drop_last().filter(pred) =~= Seq::<Seq<char>>::empty());
    if rule.len() == 0 || rule[0] == '#' {
        assert(one.filter(pred) =~= Seq::<Seq<char>>::empty());
        assert(ignore_lines(content) =~= ignore_lines(rest));
    } else {
        assert(one.filter(pred) =~= seq![rule]);
    }
    assert(lines_of(Seq::empty()).map_values(strip).filter(pred).len() == 0);
}

/// A simple pattern without a star leaves out the path that it is. One that begins with a star leaves
/// out the paths that end with the rest of it, and one that ends with a star those that begin with
/// what stands before it.
pub proof fn law_what_a_simple_pattern_leaves_out(text: Seq<char>, more: Seq<char>, path: Seq<char>)
    requires
        is_literal(text),
    ensures
        simple_matches(text, path) <==> path == text,
        text != seq!['.'] && text != seq!['/'] ==> simple_matches(seq!['*'] + text, more + text),
        text != seq!['.'] && text != seq!['/'] && simple_matches(seq!['*'] + text, path)
            ==> path.len() >= text.len() && path.skip(path.len() - text.len()) == text,
        simple_matches(text.push('*'), text + more),
        simple_matches(text.push('*'), path) ==> path.len() >= text.len() && path.take(
            text.len() as int,
        ) == text,
{
    let ending = seq!['*'] + text;
    let beginning = text.push('*');
    assert(ending.skip(1) =~= text);
    assert(ending[0] == '*');
    assert(!is_literal(ending));
    assert(beginning.drop_last() =~= text);
    assert(beginning[text.len() as int] == '*');
    assert(!is_literal(beginning));
    if is_ending(beginning) {
        assert(beginning.skip(1)[text.len() - 1] == '*');
    }
    let a = more + text;
    assert(a.subrange(a.len() - text.len(), a.len() as int) =~= text);
    let b = text + more;
    assert(b.subrange(0, text.len() as int) =~= text);
    assert(path.len() >= text.len() ==> path.skip(path.len() - text.len()) =~= path.subrange(
        path.len() - text.len(),
        path.len() as int,
    ));
    assert(path.len() >= text.len() ==> path.take(text.len() as int) =~= path.subrange(
        0,
        text.len() as int,
    ));
}

/// What is kept of some lines are lines, and no more than there are. A simple line is always kept, and a
/// line without a backslash exactly where it is a pattern.
pub proof fn law_patterns_are_lines(lines: Seq<Seq<char>>, kept: Seq<Seq<char>>, line: Seq<char>)
    requires
        keeps_patterns(lines, kept),
    ensures
        kept.len() <= lines.len(),
        kept.contains(line) ==> lines.contains(line),
        lines.contains(line) && is_simple(line) ==> kept.contains(line),
        no_backslash(line) && kept.contains(line) ==> is_glob(line),
        no_backslash(line) && lines.contains(line) && is_glob(line) ==> kept.contains(line),
    decreases lines.len(),
{
    if lines.len() > 0 {
        let before = lines.drop_last();
        let last = lines.last();
        assert(lines[lines.len() - 1] == last);
        assert forall|x: Seq<char>| before.contains(x) implies lines.contains(x) by {
            let i = choose|i: int| 0 <= i < before.len() && before[i] == x;
            assert(lines[i] == x);
        }
        assert forall|x: Seq<char>| lines.contains(x) implies before.contains(x) || x == last by {
            let i = choose|i: int| 0 <= i < lines.len() && lines[i] == x;
            if i < before.len() {
                assert(before[i] == x);
            }
        }
        if kept.len() > 0 && kept.last() == last && (no_backslash(last) ==> is_glob(last))
            && keeps_patterns(before, kept.drop_last()) {
            let front = kept.drop_last();
            law_patterns_are_lines(before, front, line);
            assert(kept[kept.len() - 1] == last);
            assert forall|x: Seq<char>| front.contains(x) implies kept.contains(x) by {
                let i = choose|i: int| 0 <= i < front.len() && front[i] == x;
                assert(kept[i] == x);
            }
            assert forall|x: Seq<char>| kept.contains(x) implies front.contains(x) || x == last by {
                let i = choose|i: int| 0 <= i < kept.len() && kept[i] == x;
                if i < front.len() {
                    assert(front[i] == x);
                }
            }
        } else {
            law_patterns_are_lines(before, kept, line);
        }
    }
}

/// There can be no set for no lines. For simple lines there can be none only where a set of them can be
/// refused.
pub proof fn law_when_there_is_no_set(lines: Seq<Seq<char>>)
    ensures
        can_lack_set(Seq::empty()),
        all_simple(lines) && lines.len() > 0 ==> (can_lack_set(lines) ==> can_refuse_set(lines)),
{
    let none = Seq::<Seq<char>>::empty();
    assert(keeps_patterns(none, none));
    if all_simple(lines) && lines.len() > 0 && can_lack_set(lines) {
        let kept = choose|kept: Seq<Seq<char>>| #[trigger]
            keeps_patterns(lines, kept) && (kept.len() == 0 || can_refuse_set(kept));
        lemma_keeps_simple(lines, kept);
    }
}

/// A line with a backslash makes a list one with a backslash, wherever it stands.
pub proof fn law_backslash_is_found(list: Seq<Seq<char>>, i: int, k: int)
    requires
        0 <= i < list.len(),
        0 <= k < list[i].len(),
        list[i][k] == '\\',
    ensures
        !no_backslash(list[i]),
        !no_backslashes(list),
{
    assert(list[i].contains('\\'));
}

/// A longer list leaves out all that the shorter one left out.
pub proof fn law_more_patterns_ignore_more(
    patterns: Seq<Seq<char>>,
    more: Seq<Seq<char>>,
    path: Seq<char>,
)
    requires
        any_glob_matches(patterns, path),
    ensures
        any_glob_matches(patterns + more, path),
        any_glob_matches(more + patterns, path),
{
    let i = choose|i: int| 0 <= i < patterns.len() && #[trigger] glob_matches(patterns[i], path);
    assert((patterns + more)[i] == patterns[i]);
    assert((more + patterns)[more.len() + i] == patterns[i]);
}

} // verus!
