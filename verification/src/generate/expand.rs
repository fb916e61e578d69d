//! The expansion of one file of a template.
use vstd::prelude::*;

use crate::generate::references::{extract_template_variables, references};
use crate::generate::fill::{filled, lemma_filled_names, lemma_plain_filled, names_only};
use crate::generate::tame::{is_tame, readable, tame};
use crate::generate::values::{
    copy_object, has_name, insert_text, new_object, no_texts, object_texts, scalar_names,
};
use crate::generate::tags::{
    law_plain_text_is_kept, no_tag_opens, preprocess_template, with_tags_rewritten,
};
use crate::generate::variables::{lemma_project_variables, project_variables, underscored};
use crate::string_map::{
    has_key, key_index, lemma_key_index, map_of, text_items, unique_keys, StringMap,
};
use crate::text::{chars_of, contains, ends_with, has_suffix, replace_char, slice_text, texts};

verus! {

#[verifier::external_type_specification]
#[verifier::external_body]
pub struct ExParser(liquid::Parser);

#[verifier::external_type_specification]
#[verifier::external_body]
pub struct ExTemplate(liquid::Template);

#[verifier::external_type_specification]
#[verifier::external_body]
pub struct ExLiquidError(liquid::Error);

/// The text that a template was made of.
pub uninterp spec fn parsed_text(template: liquid::Template) -> Seq<char>;

/// Whether `output` is a text that the template language can make of a text with some values: with
/// some parser, at some time.
pub uninterp spec fn can_render(text: Seq<char>, values: Map<Seq<char>, Seq<char>>, output: Seq<char>) -> bool;

/// Whether the template language can refuse to read a text: with some parser.
pub uninterp spec fn can_refuse(text: Seq<char>) -> bool;

/// Whether the template language can give up on a text with some values: with some parser, at some
/// time.
pub uninterp spec fn can_give_up(text: Seq<char>, values: Map<Seq<char>, Seq<char>>) -> bool;

/// Calls `liquid::Parser::parse`. Claims that a template that comes back is made of the text, and
/// that one comes back for a text whose tags are names. Of another text it is only said that one for
/// which none comes back can be refused: which tags and filters there are depends on how the parser
/// was made. The parser stops the program on a number that does not fit 64 bits.
#[verifier::external_body]
fn parse_text(parser: &liquid::Parser, text: &str) -> (r: Result<liquid::Template, liquid::Error>)
    requires
        readable(text@),
    ensures
        names_only(text@) ==> r is Ok,
        r is Err ==> can_refuse(text@),
        r matches Ok(template) ==> parsed_text(template) == text@,
{
    parser.parse(text)
}

/// Whether `output` is a text with the values put in, unless other tags than names stand in the text
/// or a name has no value.
pub open spec fn fills_with(
    text: Seq<char>,
    values: Map<Seq<char>, Seq<char>>,
    output: Seq<char>,
) -> bool {
    filled(text, values) is None || filled(text, values) == Some(output)
}

/// Calls `liquid::Template::render`. Claims of a text whose tags are names with a value that the
/// text comes back with the values in their places, and of every text that comes back that it is
/// one that the language can make of the template's text with the values. Where none comes back, it
/// is only said that the language can give up on the text. Which it is depends on the filters that
/// the parser was made with, and on the clock. Some filters and tags of the language stop the program
/// on some values; a tame text calls none of them so.
#[verifier::external_body]
fn render_template(template: &liquid::Template, globals: &liquid::Object) -> (r: Result<String, liquid::Error>)
    requires
        tame(parsed_text(*template), object_texts(*globals), scalar_names(*globals)),
    ensures
        r is Err ==> can_give_up(parsed_text(*template), object_texts(*globals)),
        r is Err ==> filled(parsed_text(*template), object_texts(*globals)) is None,
        r matches Ok(output) ==> fills_with(parsed_text(*template), object_texts(*globals), output@),
        r matches Ok(output) ==> can_render(parsed_text(*template), object_texts(*globals), output@),
{
    template.render(globals)
}

/// The variables as the template language sees them: under underscored names, a later variable
/// in place of an earlier one.
pub open spec fn global_texts(items: Seq<(Seq<char>, Seq<char>)>) -> Map<Seq<char>, Seq<char>>
    decreases items.len(),
{
    if items.len() == 0 {
        no_texts()
    } else {
        global_texts(items.drop_last()).insert(underscored(items.last().0), items.last().1)
    }
}

/// Hands the variables to the template language, under underscored names: a hyphen in a name would
/// be read as a minus.
pub fn build_liquid_globals(variables: &StringMap<String>) -> (globals: liquid::Object)
    ensures
        object_texts(globals) == global_texts(text_items(variables.items())),
        scalar_names(globals) == global_texts(text_items(variables.items())).dom(),
{
    let mut globals = new_object();
    let n: usize = variables.len();
    let mut i: usize = 0;
    let ghost items = text_items(variables.items());
    assert(items.take(0) =~= Seq::empty());
    assert(scalar_names(globals) =~= global_texts(items.take(0)).dom());
    while i < n
        invariant
            i <= n,
            n == variables.items().len(),
            items == text_items(variables.items()),
            object_texts(globals) == global_texts(items.take(i as int)),
            scalar_names(globals) == global_texts(items.take(i as int)).dom(),
        decreases n - i,
    {
        proof {
            assert(items.take(i + 1).drop_last() =~= items.take(i as int));
            assert(items.take(i + 1).last() == items[i as int]);
        }
        let name = replace_char(variables.key_at(i).as_str(), '-', '_');
        insert_text(&mut globals, name, variables.value_at(i).clone());
        i += 1;
        assert(scalar_names(globals) =~= global_texts(items.take(i as int)).dom());
    }
    assert(items.take(i as int) =~= items);
    globals
}

/// A name that all variables agree on has the value that they give it.
proof fn lemma_global_value(
    items: Seq<(Seq<char>, Seq<char>)>,
    name: Seq<char>,
    value: Seq<char>,
    at: int,
)
    requires
        0 <= at < items.len(),
        underscored(items[at].0) == name,
        forall|i: int|
            0 <= i < items.len() && underscored((#[trigger] items[i]).0) == name ==> items[i].1
                == value,
    ensures
        global_texts(items).contains_key(name),
        global_texts(items)[name] == value,
    decreases items.len(),
{
    let front = items.drop_last();
    assert(items.last() == items[items.len() - 1]);
    if underscored(items.last().0) != name {
        assert(front[at] == items[at]);
        assert forall|i: int|
            0 <= i < front.len() && underscored((#[trigger] front[i]).0) == name implies front[i].1
            == value by {
            assert(front[i] == items[i]);
        }
        lemma_global_value(front, name, value, at);
    }
}

/// All variables have a value in the template, under their underscored names.
pub proof fn law_every_variable_has_a_global(items: Seq<(Seq<char>, Seq<char>)>, i: int)
    requires
        0 <= i < items.len(),
    ensures
        global_texts(items).contains_key(underscored(items[i].0)),
    decreases items.len(),
{
    if i < items.len() - 1 {
        assert(items.drop_last()[i] == items[i]);
        law_every_variable_has_a_global(items.drop_last(), i);
    }
}

/// The template sees the value that a variable has, where no other variable has the same underscored
/// name, and sees no name but those of variables.
pub proof fn law_variable_reaches_the_template(items: Seq<(Seq<char>, Seq<char>)>, i: int, name: Seq<
    char,
>)
    requires
        0 <= i < items.len(),
        forall|k: int|
            0 <= k < items.len() && k != i ==> underscored((#[trigger] items[k]).0) != underscored(
                items[i].0,
            ),
    ensures
        global_texts(items).contains_key(underscored(items[i].0)),
        global_texts(items)[underscored(items[i].0)] == items[i].1,
        global_texts(items).contains_key(name) ==> exists|k: int|
            0 <= k < items.len() && underscored((#[trigger] items[k]).0) == name,
{
    lemma_global_value(items, underscored(items[i].0), items[i].1, i);
    if global_texts(items).contains_key(name) {
        lemma_global_name(items, name);
    }
}

proof fn lemma_global_name(items: Seq<(Seq<char>, Seq<char>)>, name: Seq<char>)
    requires
        global_texts(items).contains_key(name),
    ensures
        exists|k: int| 0 <= k < items.len() && underscored((#[trigger] items[k]).0) == name,
    decreases items.len(),
{
    if items.len() > 0 {
        if underscored(items.last().0) == name {
            assert(underscored(items[items.len() - 1].0) == name);
        } else {
            let front = items.drop_last();
            lemma_global_name(front, name);
            let k = choose|k: int| 0 <= k < front.len() && underscored((#[trigger] front[k]).0) == name;
            assert(items[k] == front[k]);
        }
    }
}

/// A name with one underscore, at `at`, is the underscored form of two names alone: of itself and
/// of the one with a hyphen there.
proof fn lemma_spellings(key: Seq<char>, plain: Seq<char>, hyphened: Seq<char>, at: int)
    requires
        underscored(key) == plain,
        0 <= at < plain.len(),
        hyphened == plain.update(at, '-'),
        forall|i: int| 0 <= i < plain.len() && i != at ==> #[trigger] plain[i] != '_',
    ensures
        key == plain || key == hyphened,
{
    assert(underscored(key).len() == key.len());
    assert forall|i: int| 0 <= i < key.len() && i != at implies #[trigger] key[i] == plain[i] by {
        assert(underscored(key)[i] == plain[i]);
    }
    assert(underscored(key)[at] == plain[at]);
    if key[at] == '-' {
        assert(key =~= hyphened);
    } else {
        assert(key =~= plain);
    }
}

/// The value that all variables with one of the two spellings of a name give it.
proof fn lemma_spelled_global(
    items: Seq<(Seq<char>, Seq<char>)>,
    plain: Seq<char>,
    hyphened: Seq<char>,
    at: int,
    value: Seq<char>,
)
    requires
        unique_keys(items),
        0 <= at < plain.len(),
        hyphened == plain.update(at, '-'),
        plain[at] == '_',
        forall|i: int| 0 <= i < plain.len() && i != at ==> #[trigger] plain[i] != '_',
        forall|i: int| 0 <= i < plain.len() ==> #[trigger] plain[i] != '-',
        map_of(items).contains_key(plain) && map_of(items)[plain] == value,
        map_of(items).contains_key(hyphened) ==> map_of(items)[hyphened] == value,
    ensures
        global_texts(items).contains_key(plain),
        global_texts(items)[plain] == value,
{
    let found = key_index(items, plain);
    assert(has_key(items, plain));
    assert(underscored(plain) =~= plain);
    assert forall|i: int|
        0 <= i < items.len() && underscored((#[trigger] items[i]).0) == plain implies items[i].1
        == value by {
        lemma_spellings(items[i].0, plain, hyphened, at);
        lemma_key_index(items, i);
    }
    lemma_global_value(items, plain, value, found);
}

/// The template sees the name of the project as `project_name` and its crate name as
/// `crate_name`, whatever is defined.
pub proof fn law_project_name_reaches_the_template(name: Seq<char>, define: Seq<Seq<char>>)
    ensures
        ({
            let globals = global_texts(project_variables(name, define));
            &&& globals.contains_key("project_name"@) && globals["project_name"@] == name
            &&& globals.contains_key("crate_name"@) && globals["crate_name"@] == underscored(name)
        }),
{
    reveal_strlit("project_name");
    reveal_strlit("project-name");
    reveal_strlit("crate_name");
    reveal_strlit("crate-name");
    lemma_project_variables(name, define);
    let items = project_variables(name, define);
    assert("project-name"@ =~= "project_name"@.update(7, '-'));
    assert("crate-name"@ =~= "crate_name"@.update(5, '-'));
    lemma_spelled_global(items, "project_name"@, "project-name"@, 7, name);
    lemma_spelled_global(items, "crate_name"@, "crate-name"@, 5, underscored(name));
}

/// The values with an empty text for each of the names that has none.
pub open spec fn with_missing(
    globals: Map<Seq<char>, Seq<char>>,
    names: Seq<Seq<char>>,
) -> Map<Seq<char>, Seq<char>>
    decreases names.len(),
{
    if names.len() == 0 {
        globals
    } else {
        let before = with_missing(globals, names.drop_last());
        if before.contains_key(names.last()) {
            before
        } else {
            before.insert(names.last(), Seq::empty())
        }
    }
}

/// The names whose value is no list, with those that have none and get an empty text.
pub open spec fn scalars_with_missing(
    globals: Map<Seq<char>, Seq<char>>,
    scalars: Set<Seq<char>>,
    names: Seq<Seq<char>>,
) -> Set<Seq<char>>
    decreases names.len(),
{
    if names.len() == 0 {
        scalars
    } else {
        let before = scalars_with_missing(globals, scalars, names.drop_last());
        if with_missing(globals, names.drop_last()).contains_key(names.last()) {
            before
        } else {
            before.insert(names.last())
        }
    }
}

fn add_missing(globals: &liquid::Object, names: &Vec<String>) -> (r: liquid::Object)
    ensures
        object_texts(r) == with_missing(object_texts(*globals), texts(names@)),
        scalar_names(r) == scalars_with_missing(
            object_texts(*globals),
            scalar_names(*globals),
            texts(names@),
        ),
{
    let mut r = copy_object(globals);
    let mut i: usize = 0;
    assert(texts(names@).take(0) =~= Seq::empty());
    while i < names.len()
        invariant
            i <= names@.len(),
            object_texts(r) == with_missing(object_texts(*globals), texts(names@).take(i as int)),
            scalar_names(r) == scalars_with_missing(
                object_texts(*globals),
                scalar_names(*globals),
                texts(names@).take(i as int),
            ),
        decreases names.len() - i,
    {
        proof {
            let next = texts(names@).take(i + 1);
            assert(next.drop_last() =~= texts(names@).take(i as int));
            assert(next.last() == names@[i as int]@);
        }
        if !has_name(&r, names[i].as_str()) {
            let none = String::new();
            assert(none@ =~= Seq::empty());
            insert_text(&mut r, names[i].clone(), none);
        }
        i += 1;
    }
    assert(texts(names@).take(i as int) =~= texts(names@));
    r
}

/// Values that were there stay, all names have a value afterwards, and those that had none have an
/// empty one.
pub proof fn law_every_name_has_a_value(
    globals: Map<Seq<char>, Seq<char>>,
    names: Seq<Seq<char>>,
    name: Seq<char>,
)
    ensures
        globals.contains_key(name) ==> with_missing(globals, names).contains_key(name)
            && with_missing(globals, names)[name] == globals[name],
        !globals.contains_key(name) && names.contains(name) ==> with_missing(
            globals,
            names,
        ).contains_key(name) && with_missing(globals, names)[name] == Seq::<char>::empty(),
        !globals.contains_key(name) && !names.contains(name) ==> !with_missing(
            globals,
            names,
        ).contains_key(name),
    decreases names.len(),
{
    if names.len() > 0 {
        let front = names.drop_last();
        law_every_name_has_a_value(globals, front, name);
        if names.contains(name) {
            let i = choose|i: int| 0 <= i < names.len() && names[i] == name;
            if i < names.len() - 1 {
                assert(front[i] == name);
            }
        }
        if front.contains(name) {
            let i = choose|i: int| 0 <= i < front.len() && front[i] == name;
            assert(names[i] == name);
        }
        assert(names[names.len() - 1] == names.last());
    }
}

/// What is handed to the template language for a text: the text with hyphenated names underscored.
pub open spec fn template_text(contents: Seq<char>, names: Seq<Seq<char>>) -> Seq<char> {
    if names.len() == 0 {
        contents
    } else {
        with_tags_rewritten(contents, names)
    }
}

/// Makes what is handed to the template language for a text: the text itself, and the values with an
/// empty one for each variable that the text refers to and that has none. Nothing is handed over
/// for a text in which no tag opens.
pub fn expansion_input(
    contents: &str,
    globals: &liquid::Object,
    hyphenated_vars: &Vec<String>,
) -> (r: Option<(String, liquid::Object)>)
    ensures
        (match r {
            Some((text, full)) => {
                &&& !no_tag_opens(contents@)
                &&& text@ == template_text(contents@, texts(hyphenated_vars@))
                &&& object_texts(full) == with_missing(object_texts(*globals), references(text@))
                &&& scalar_names(full) == scalars_with_missing(
                    object_texts(*globals),
                    scalar_names(*globals),
                    references(text@),
                )
            },
            None => no_tag_opens(contents@),
        }),
{
    if contains(contents, "{{") || contains(contents, "{%") {
        let text = preprocess_template(contents, hyphenated_vars);
        let names = extract_template_variables(text.as_str());
        let full = add_missing(globals, &names);
        assert(texts(hyphenated_vars@).len() == hyphenated_vars@.len());
        Some((text, full))
    } else {
        None
    }
}

/// What a text becomes when the template language came back with `rendered`: that, or the text as
/// it was where the language could not make sense of it.
pub fn expansion_output(contents: &str, rendered: Option<String>) -> (r: String)
    ensures
        r@ == (match rendered {
            Some(text) => text@,
            None => contents@,
        }),
{
    match rendered {
        Some(text) => text,
        None => contents.to_owned(),
    }
}

/// Whether the language can be handed a text with some values and make nothing of it: it refuses to
/// read the text, or gives up on it.
pub open spec fn can_fail(text: Seq<char>, values: Map<Seq<char>, Seq<char>>) -> bool {
    can_refuse(text) || can_give_up(text, values)
}

/// Whether a text becomes `output` with some values, where `names` are the hyphenated names. The
/// language is handed the text with these names underscored, and an empty value for each variable
/// that it refers to and that has none. Where its tags are names with a value, the values take
/// their places; a text in which no tag opens stays as it was. A text that is not tame stays as it
/// was too. Every other text becomes one that the language can make of it, and stays as it was only
/// where the language can fail on it. `scalars` are the names whose value is no list.
pub open spec fn can_become(
    contents: Seq<char>,
    globals: Map<Seq<char>, Seq<char>>,
    scalars: Set<Seq<char>>,
    names: Seq<Seq<char>>,
    output: Seq<char>,
) -> bool {
    let text = template_text(contents, names);
    let values = with_missing(globals, references(text));
    match filled(text, values) {
        Some(expanded) => output == expanded,
        None => if tame(text, values, scalars_with_missing(globals, scalars, references(text))) {
            can_render(text, values, output) || (output == contents && can_fail(text, values))
        } else {
            output == contents
        },
    }
}

/// Expands a text. Which expansion comes out of a text that calls filters or holds logic tags is not
/// stated: it can depend on the clock and on the filters of the parser.
pub fn expand_text(
    contents: &str,
    parser: &liquid::Parser,
    globals: &liquid::Object,
    hyphenated_vars: &Vec<String>,
) -> (r: String)
    ensures
        can_become(
            contents@,
            object_texts(*globals),
            scalar_names(*globals),
            texts(hyphenated_vars@),
            r@,
        ),
        no_tag_opens(contents@) ==> r@ == contents@,
{
    let ghost text = template_text(contents@, texts(hyphenated_vars@));
    let ghost values = with_missing(object_texts(*globals), references(text));
    proof {
        if no_tag_opens(contents@) {
            law_plain_text_is_kept(contents@, texts(hyphenated_vars@));
            lemma_plain_filled(contents@, 0, values);
            assert(contents@.skip(0) =~= contents@);
        }
        if filled(text, values) is Some {
            lemma_filled_names(text, 0, values);
        }
    }
    match expansion_input(contents, globals, hyphenated_vars) {
        Some((text, full)) => {
            if !is_tame(text.as_str(), &full) {
                return contents.to_owned();
            }
            let rendered = match parse_text(parser, text.as_str()) {
                Ok(template) => match render_template(&template, &full) {
                    Ok(out) => Some(out),
                    Err(_) => None,
                },
                Err(_) => None,
            };
            expansion_output(contents, rendered)
        },
        None => contents.to_owned(),
    }
}

/// The name under which a file of a template is written: without the extension `.liquid`.
pub open spec fn output_name(name: Seq<char>) -> Seq<char> {
    if has_suffix(name, ".liquid"@) {
        name.take(name.len() - 7)
    } else {
        name
    }
}

pub fn output_name_of(name: &str) -> (r: String)
    ensures
        r@ == output_name(name@),
{
    if ends_with(name, ".liquid") {
        proof {
            reveal_strlit(".liquid");
        }
        let v = chars_of(name);
        let r = slice_text(&v, 0, v.len() - 7);
        assert(r@ =~= name@.take(name@.len() - 7));
        r
    } else {
        name.to_owned()
    }
}

} // verus!
