//! What becomes of a text with the name of a variable in it.
use vstd::prelude::*;

use crate::generate::expand::{can_become, law_every_name_has_a_value, template_text, with_missing};
use crate::generate::fill::{filled, law_value_takes_the_place_of_its_name, starts_literal};
use crate::generate::reading::{
    law_name_in_a_tag_is_referred_to, law_other_character_of_a_tag_is_kept,
    law_tag_in_a_text_is_rewritten,
};
use crate::generate::references::{is_keyword, references};
use crate::generate::tags::{
    law_name_is_underscored, law_plain_text_is_kept, lemma_longest_name, no_tag_opens, rewritten_tag,
};
use crate::generate::variables::underscored;
use crate::text::{has_part, has_prefix, occurs_at};

verus! {

/// A text without an opening brace opens no tag.
proof fn lemma_no_brace(s: Seq<char>)
    requires
        !s.contains('{'),
    ensures
        no_tag_opens(s),
{
    reveal_strlit("{{");
    reveal_strlit("{%");
    if has_part(s, "{{"@) {
        let i = choose|i: int| #[trigger] occurs_at(s, "{{"@, i);
        assert(s.subrange(i, i + 2)[0] == s[i]);
    }
    if has_part(s, "{%"@) {
        let i = choose|i: int| #[trigger] occurs_at(s, "{%"@, i);
        assert(s.subrange(i, i + 2)[0] == s[i]);
    }
}

/// Whether a text can be the name of a variable: a letter or an underscore, then letters, underscores
/// and digits.
pub open spec fn is_variable_name(name: Seq<char>) -> bool {
    &&& name.len() > 0 && ('a' <= name[0] <= 'z' || 'A' <= name[0] <= 'Z' || name[0] == '_')
    &&& forall|i: int|
        0 <= i < name.len() ==> {
            let c = #[trigger] name[i];
            'a' <= c <= 'z' || 'A' <= c <= 'Z' || c == '_' || '0' <= c <= '9'
        }
}

/// A text with the name of a variable in it becomes the text with the value of the variable in the
/// place of its tag. Where the variable has no value, nothing is put there.
pub proof fn law_text_gets_the_value_of_a_variable(
    before: Seq<char>,
    name: Seq<char>,
    after: Seq<char>,
    globals: Map<Seq<char>, Seq<char>>,
    scalars: Set<Seq<char>>,
    output: Seq<char>,
)
    requires
        !before.contains('{') && !after.contains('{'),
        is_variable_name(name),
        !is_keyword(name) && !starts_literal(name),
        can_become(
            before + "{{ "@ + name + " }}"@ + after,
            globals,
            scalars,
            Seq::empty(),
            output,
        ),
    ensures
        output == before + (if globals.contains_key(name) {
            globals[name]
        } else {
            Seq::empty()
        }) + after,
{
    let contents = before + "{{ "@ + name + " }}"@ + after;
    lemma_filled_text(before, name, after, globals);
    assert(template_text(contents, Seq::empty()) == contents);
}

proof fn lemma_filled_text(
    before: Seq<char>,
    name: Seq<char>,
    after: Seq<char>,
    globals: Map<Seq<char>, Seq<char>>,
)
    requires
        !before.contains('{') && !after.contains('{'),
        is_variable_name(name),
        !is_keyword(name) && !starts_literal(name),
    ensures
        ({
            let text = before + "{{ "@ + name + " }}"@ + after;
            filled(text, with_missing(globals, references(text))) == Some(
                before + (if globals.contains_key(name) {
                    globals[name]
                } else {
                    Seq::empty()
                }) + after,
            )
        }),
{
    reveal_strlit("{{");
    reveal_strlit("{{ ");
    reveal_strlit("}}");
    reveal_strlit(" }}");
    let text = before + "{{ "@ + name + " }}"@ + after;
    let blank = seq![' '];
    assert("{{ "@ =~= "{{"@ + blank);
    assert(" }}"@ =~= blank + "}}"@);
    assert(text =~= before + "{{"@ + blank + name + blank + "}}"@ + after);
    law_name_in_a_tag_is_referred_to(before, blank, name, blank, after);
    let names = references(text);
    assert(names[0] == name);
    assert(names.contains(name));
    law_every_name_has_a_value(globals, names, name);
    let values = with_missing(globals, names);
    lemma_no_brace(after);
    crate::generate::fill::lemma_plain_filled(after, 0, values);
    assert(after.skip(0) =~= after);
    law_value_takes_the_place_of_its_name(before, name, after, values);
}

/// A hyphenated name in a tag stands for the variable with the underscored name: the text becomes the
/// one with the value of that variable in the place of the tag.
pub proof fn law_hyphenated_name_stands_for_its_variable(
    before: Seq<char>,
    name: Seq<char>,
    after: Seq<char>,
    globals: Map<Seq<char>, Seq<char>>,
    scalars: Set<Seq<char>>,
    output: Seq<char>,
)
    requires
        !before.contains('{') && !after.contains('{'),
        is_variable_name(underscored(name)),
        name[0] != '-',
        !is_keyword(underscored(name)) && !starts_literal(underscored(name)),
        globals.contains_key(underscored(name)),
        can_become(before + "{{ "@ + name + " }}"@ + after, globals, scalars, seq![name], output),
    ensures
        output == before + globals[underscored(name)] + after,
{
    reveal_strlit("{{");
    reveal_strlit("{{ ");
    reveal_strlit("}}");
    reveal_strlit(" }}");
    let names = seq![name];
    let plain = underscored(name);
    let contents = before + "{{ "@ + name + " }}"@ + after;
    let inner = seq![' '] + name + seq![' '];
    assert(plain.len() == name.len());
    assert forall|i: int| 0 <= i < name.len() implies #[trigger] name[i] != '}' && name[i] != '\n'
        && name[i] != ' ' && name[i] != '{' by {
        assert(plain[i] == name[i] || name[i] == '-');
    }
    assert(!inner.contains('}') && !inner.contains('\n')) by {
        assert forall|i: int| 0 <= i < inner.len() implies inner[i] != '}' && inner[i] != '\n' by {
            if 0 < i < inner.len() - 1 {
                assert(inner[i] == name[i - 1]);
            }
        }
    }
    assert(contents =~= before + "{{"@ + inner + "}}"@ + after);
    law_tag_in_a_text_is_rewritten(before, "{{"@, inner, "}}"@, after, names);
    lemma_no_brace(after);
    law_plain_text_is_kept(after, names);
    // The tag is rewritten character by character up to the name, and behind it.
    let tail = seq![' ', '}', '}'];
    let rest = name + tail;
    lemma_tail_is_kept(tail, names, name);
    lemma_longest_is_name(name, tail);
    assert(names[0] == name);
    assert(names.contains(name));
    law_name_is_underscored(name, tail, names);
    lemma_kept_before(' ', rest, name);
    law_other_character_of_a_tag_is_kept(' ', rest, names);
    lemma_kept_before('{', seq![' '] + rest, name);
    law_other_character_of_a_tag_is_kept('{', seq![' '] + rest, names);
    lemma_kept_before('{', seq!['{'] + (seq![' '] + rest), name);
    law_other_character_of_a_tag_is_kept('{', seq!['{'] + (seq![' '] + rest), names);
    let tag = "{{"@ + inner + "}}"@;
    assert(tag =~= seq!['{'] + (seq!['{'] + (seq![' '] + rest)));
    let text = before + "{{ "@ + plain + " }}"@ + after;
    assert(rewritten_tag(tag, names) =~= "{{ "@ + plain + " }}"@);
    assert(template_text(contents, names) =~= text);
    lemma_filled_text(before, plain, after, globals);
}

/// No name stands at a character that is not its first.
proof fn lemma_kept_before(c: char, rest: Seq<char>, name: Seq<char>)
    requires
        name.len() > 0,
        name[0] != c,
    ensures
        !has_prefix(seq![c] + rest, name),
{
    let s = seq![c] + rest;
    if has_prefix(s, name) {
        assert(s.subrange(0, name.len() as int)[0] == s[0]);
    }
}

proof fn lemma_longest_is_name(name: Seq<char>, tail: Seq<char>)
    requires
        name.len() > 0,
    ensures
        crate::generate::tags::longest_name(name + tail, seq![name]) <= name.len(),
{
    let names = seq![name];
    let n = crate::generate::tags::longest_name(name + tail, names);
    lemma_longest_name(name + tail, names);
    if n > 0 {
        let i = choose|i: int| 0 <= i < names.len() && names[i] == (name + tail).take(n as int);
        assert(names[i] == name);
    }
}

proof fn lemma_tail_is_kept(tail: Seq<char>, names: Seq<Seq<char>>, name: Seq<char>)
    requires
        names == seq![name],
        name.len() > 0,
        forall|i: int| 0 <= i < tail.len() ==> #[trigger] tail[i] != name[0],
    ensures
        rewritten_tag(tail, names) == tail,
    decreases tail.len(),
{
    if tail.len() > 0 {
        let rest = tail.skip(1);
        assert forall|i: int| 0 <= i < rest.len() implies #[trigger] rest[i] != name[0] by {
            assert(rest[i] == tail[i + 1]);
        }
        lemma_tail_is_kept(rest, names, name);
        assert(tail[0] != name[0]);
        lemma_kept_before(tail[0], rest, name);
        law_other_character_of_a_tag_is_kept(tail[0], rest, names);
        assert(seq![tail[0]] + rest =~= tail);
    }
}

/// The words that stand for values of the language are no names of variables, and neither are those that
/// go on behind one where a name is put in.
pub proof fn law_words_of_the_language_are_no_names(rest: Seq<char>)
    ensures
        starts_literal("nil"@ + rest) && starts_literal("null"@ + rest) && starts_literal("empty"@ + rest)
            && starts_literal("blank"@ + rest) && starts_literal("true"@ + rest) && starts_literal(
            "false"@ + rest,
        ),
        is_keyword("nil"@) && is_keyword("null"@) && is_keyword("empty"@) && is_keyword("blank"@)
            && is_keyword("true"@) && is_keyword("false"@),
        is_keyword("and"@) && is_keyword("or"@) && is_keyword("contains"@) && is_keyword("in"@),
        is_keyword("reversed"@) && is_keyword("with"@) && is_keyword("as"@),
{
    lemma_prefix("nil"@, rest);
    lemma_prefix("null"@, rest);
    lemma_prefix("empty"@, rest);
    lemma_prefix("blank"@, rest);
    lemma_prefix("true"@, rest);
    lemma_prefix("false"@, rest);
}

proof fn lemma_prefix(word: Seq<char>, rest: Seq<char>)
    ensures
        has_prefix(word + rest, word),
{
    assert((word + rest).subrange(0, word.len() as int) =~= word);
}

} // verus!
