//! The variables of a template.
use vstd::prelude::*;

use crate::string_map::{has_key, lemma_put, map_of, put, text_items, unique_keys, StringMap};
use crate::text::{
    char_replaced, contains_char, replace_char, split_at_char, split_once, text_eq, texts,
};

verus! {

/// A name as the template language can read it, where a hyphen would be a minus.
pub open spec fn underscored(key: Seq<char>) -> Seq<char> {
    char_replaced(key, '-', '_')
}

/// The variables after one more definition. A definition without `=` defines nothing; one of a
/// hyphenated name defines the underscored name too.
pub open spec fn with_definition(
    vars: Seq<(Seq<char>, Seq<char>)>,
    item: Seq<char>,
) -> Seq<(Seq<char>, Seq<char>)> {
    match split_at_char(item, '=') {
        Some((key, value)) => {
            let first = put(vars, key, value);
            if underscored(key) == key {
                first
            } else {
                put(first, underscored(key), value)
            }
        },
        None => vars,
    }
}

/// The variables that a list of definitions gives, the later ones replacing the earlier ones.
pub open spec fn defined(define: Seq<Seq<char>>) -> Seq<(Seq<char>, Seq<char>)>
    decreases define.len(),
{
    if define.len() == 0 {
        Seq::empty()
    } else {
        with_definition(defined(define.drop_last()), define.last())
    }
}

/// The keys of a map of strings are those of its pairs as texts.
proof fn lemma_has_text_key(items: Seq<(Seq<char>, String)>, key: Seq<char>)
    ensures
        has_key(items, key) == has_key(text_items(items), key),
{
    if has_key(items, key) {
        let i = choose|i: int| 0 <= i < items.len() && (#[trigger] items[i]).0 == key;
        assert(text_items(items)[i].0 == key);
    }
    if has_key(text_items(items), key) {
        let i = choose|i: int|
            0 <= i < text_items(items).len() && (#[trigger] text_items(items)[i]).0 == key;
        assert(items[i].0 == key);
    }
}

/// Putting a text into a map of strings is putting it among the pairs as texts.
pub proof fn lemma_put_text(items: Seq<(Seq<char>, String)>, key: Seq<char>, value: String)
    ensures
        text_items(put(items, key, value)) == put(text_items(items), key, value@),
{
    lemma_has_text_key(items, key);
    assert(text_items(put(items, key, value)) =~= put(text_items(items), key, value@));
}

/// Puts a text under a key.
fn put_text(vars: &mut StringMap<String>, key: String, value: String)
    ensures
        text_items(final(vars).items()) == put(text_items(old(vars).items()), key@, value@),
{
    proof {
        lemma_put_text(vars.items(), key@, value);
    }
    vars.insert(key, value);
}

/// Reads definitions of the form `key=value`.
pub fn parse_variables(define: &Vec<String>) -> (vars: StringMap<String>)
    ensures
        text_items(vars.items()) == defined(texts(define@)),
{
    let mut vars: StringMap<String> = StringMap::new();
    let mut i: usize = 0;
    assert(text_items(vars.items()) =~= defined(texts(define@).take(0)));
    while i < define.len()
        invariant
            i <= define@.len(),
            text_items(vars.items()) == defined(texts(define@).take(i as int)),
        decreases define.len() - i,
    {
        proof {
            let next = texts(define@).take(i + 1);
            assert(next.drop_last() =~= texts(define@).take(i as int));
            assert(next.last() == define@[i as int]@);
        }
        if let Some((key, value)) = split_once(define[i].as_str(), '=') {
            let other = replace_char(key.as_str(), '-', '_');
            let same = text_eq(other.as_str(), key.as_str());
            let copy = value.clone();
            put_text(&mut vars, key, value);
            if !same {
                put_text(&mut vars, other, copy);
            }
        }
        i += 1;
    }
    assert(texts(define@).take(i as int) =~= texts(define@));
    vars
}

/// The variables with a value for both spellings of a name, of which only the underscored one
/// needs to be there.
pub open spec fn with_spellings(
    vars: Seq<(Seq<char>, Seq<char>)>,
    hyphened: Seq<char>,
    plain: Seq<char>,
    value: Seq<char>,
) -> Seq<(Seq<char>, Seq<char>)> {
    put(
        if has_key(vars, hyphened) {
            put(vars, hyphened, value)
        } else {
            vars
        },
        plain,
        value,
    )
}

/// The variables of a project: those defined, its name, and its name as a crate name. No
/// definition changes the name or the crate name, under either spelling.
pub open spec fn project_variables(name: Seq<char>, define: Seq<Seq<char>>) -> Seq<
    (Seq<char>, Seq<char>),
> {
    with_spellings(
        put(put(defined(define), "project-name"@, name), "project_name"@, name),
        "crate-name"@,
        "crate_name"@,
        underscored(name),
    )
}

/// The variables with which a project is generated.
pub fn variables_of_project(name: &str, define: &Vec<String>) -> (vars: StringMap<String>)
    ensures
        text_items(vars.items()) == project_variables(name@, texts(define@)),
{
    let mut vars = parse_variables(define);
    put_text(&mut vars, "project-name".to_owned(), name.to_owned());
    put_text(&mut vars, "project_name".to_owned(), name.to_owned());
    let crate_name = replace_char(name, '-', '_');
    proof {
        lemma_has_text_key(vars.items(), "crate-name"@);
    }
    if vars.contains_key("crate-name") {
        put_text(&mut vars, "crate-name".to_owned(), crate_name.clone());
    }
    put_text(&mut vars, "crate_name".to_owned(), crate_name);
    vars
}

/// The names among the variables that have a hyphen.
pub open spec fn hyphenated(items: Seq<(Seq<char>, Seq<char>)>) -> Seq<Seq<char>> {
    items.map_values(|e: (Seq<char>, Seq<char>)| e.0).filter(|k: Seq<char>| k.contains('-'))
}

/// The names among the variables that have a hyphen.
pub fn hyphenated_names(vars: &StringMap<String>) -> (names: Vec<String>)
    ensures
        texts(names@) == hyphenated(text_items(vars.items())),
{
    let mut names: Vec<String> = Vec::new();
    let n: usize = vars.len();
    let mut i: usize = 0;
    let ghost keys = text_items(vars.items()).map_values(|e: (Seq<char>, Seq<char>)| e.0);
    let ghost pred = |k: Seq<char>| k.contains('-');
    proof {
        reveal(Seq::filter);
        assert(texts(names@) =~= keys.take(0).filter(pred));
    }
    while i < n
        invariant
            i <= n,
            n == vars.items().len(),
            keys == text_items(vars.items()).map_values(|e: (Seq<char>, Seq<char>)| e.0),
            pred == (|k: Seq<char>| k.contains('-')),
            texts(names@) == keys.take(i as int).filter(pred),
        decreases n - i,
    {
        let key = vars.key_at(i);
        let ghost before = texts(names@);
        if contains_char(key.as_str(), '-') {
            names.push(key.clone());
            assert(texts(names@) =~= before.push(key@));
        }
        proof {
            reveal(Seq::filter);
            let next = keys.take(i + 1);
            assert(next.drop_last() =~= keys.take(i as int));
            assert(next.last() == key@);
        }
        i += 1;
    }
    assert(keys.take(i as int) =~= keys);
    names
}

/// A definition gives its name, and the underscored form of its name, the value it says, whatever
/// was defined before.
pub proof fn law_definition_is_found(define: Seq<Seq<char>>, key: Seq<char>, value: Seq<char>)
    requires
        !key.contains('='),
    ensures
        ({
            let vars = map_of(defined(define.push(key + seq!['='] + value)));
            &&& vars.contains_key(key) && vars[key] == value
            &&& vars.contains_key(underscored(key)) && vars[underscored(key)] == value
        }),
{
    let item = key + seq!['='] + value;
    let all = define.push(item);
    assert(all.drop_last() =~= define);
    crate::text::lemma_first_index_is(item, '=', key.len() as int);
    assert(item.take(key.len() as int) =~= key);
    assert(item.skip(key.len() as int + 1) =~= value);
    let before = defined(define);
    lemma_defined_unique(define);
    lemma_put(before, key, value);
    let first = put(before, key, value);
    if underscored(key) != key {
        lemma_put(first, underscored(key), value);
    }
}

/// Underscoring a name turns each of its hyphens into an underscore and changes nothing else.
pub proof fn law_hyphens_become_underscores(key: Seq<char>)
    ensures
        underscored(key).len() == key.len(),
        forall|i: int|
            0 <= i < key.len() ==> #[trigger] underscored(key)[i] == (if key[i] == '-' {
                '_'
            } else {
                key[i]
            }),
{
}

/// What a list of definitions gives after one more: the name and its underscored form have the value,
/// and all else is as it was.
pub proof fn lemma_defined_push(define: Seq<Seq<char>>, key: Seq<char>, value: Seq<char>)
    requires
        !key.contains('='),
    ensures
        map_of(defined(define.push(key + seq!['='] + value))) == map_of(defined(define)).insert(
            key,
            value,
        ).insert(underscored(key), value),
{
    let item = key + seq!['='] + value;
    let all = define.push(item);
    assert(all.drop_last() =~= define);
    crate::text::lemma_first_index_is(item, '=', key.len() as int);
    assert(item.take(key.len() as int) =~= key);
    assert(item.skip(key.len() as int + 1) =~= value);
    let before = defined(define);
    lemma_defined_unique(define);
    lemma_put(before, key, value);
    let first = put(before, key, value);
    let m = map_of(before).insert(key, value);
    if underscored(key) != key {
        lemma_put(first, underscored(key), value);
    } else {
        assert(m.insert(key, value) =~= m);
    }
}

/// A definition changes its own name and the underscored form of it alone. A text without an equals
/// sign defines nothing.
pub proof fn law_definition_changes_its_own_name_alone(
    define: Seq<Seq<char>>,
    key: Seq<char>,
    value: Seq<char>,
    other: Seq<char>,
    item: Seq<char>,
)
    requires
        !key.contains('='),
        other != key,
        other != underscored(key),
        !item.contains('='),
    ensures
        ({
            let before = map_of(defined(define));
            let after = map_of(defined(define.push(key + seq!['='] + value)));
            &&& after.contains_key(other) == before.contains_key(other)
            &&& before.contains_key(other) ==> after[other] == before[other]
        }),
        defined(define.push(item)) == defined(define),
        defined(Seq::empty()).len() == 0,
{
    lemma_defined_push(define, key, value);
    assert(define.push(item).drop_last() =~= define);
    crate::text::lemma_first_index(item, '=');
    assert(split_at_char(item, '=') is None) by {
        let at = crate::text::first_index(item, '=');
        if at < item.len() {
            assert(item[at] == '=');
        }
    }
}

/// A name is underscored in the template exactly where it is that of a variable and has a hyphen.
pub proof fn law_hyphenated_names_are_those_with_a_hyphen(
    items: Seq<(Seq<char>, Seq<char>)>,
    name: Seq<char>,
)
    ensures
        hyphenated(items).contains(name) <==> name.contains('-') && exists|i: int|
            0 <= i < items.len() && (#[trigger] items[i]).0 == name,
{
    let keys = items.map_values(|e: (Seq<char>, Seq<char>)| e.0);
    let pred = |k: Seq<char>| k.contains('-');
    broadcast use vstd::seq_lib::group_filter_ensures;

    if hyphenated(items).contains(name) {
        let k = choose|k: int| 0 <= k < hyphenated(items).len() && hyphenated(items)[k] == name;
        crate::text::lemma_filter_from(keys, pred, k);
        let i = choose|i: int| 0 <= i < keys.len() && keys[i] == name;
        assert(items[i].0 == name);
    }
    if name.contains('-') && exists|i: int| 0 <= i < items.len() && (#[trigger] items[i]).0 == name {
        let i = choose|i: int| 0 <= i < items.len() && (#[trigger] items[i]).0 == name;
        assert(keys[i] == name);
        assert(pred(keys[i]));
        assert(keys.filter(pred).contains(keys[i]));
    }
}

/// No name is defined twice.
pub proof fn lemma_defined_unique(define: Seq<Seq<char>>)
    ensures
        unique_keys(defined(define)),
    decreases define.len(),
{
    if define.len() > 0 {
        lemma_defined_unique(define.drop_last());
        let before = defined(define.drop_last());
        if let Some((key, value)) = split_at_char(define.last(), '=') {
            lemma_put(before, key, value);
            if underscored(key) != key {
                lemma_put(put(before, key, value), underscored(key), value);
            }
        }
    }
}

/// What the variables of a project are, as a map: those defined, with both spellings of its name
/// and those of its crate name that are there.
pub proof fn lemma_project_variables(name: Seq<char>, define: Seq<Seq<char>>)
    ensures
        ({
            let vars = project_variables(name, define);
            &&& unique_keys(vars)
            &&& map_of(vars).contains_key("project-name"@) && map_of(vars)["project-name"@] == name
            &&& map_of(vars).contains_key("project_name"@) && map_of(vars)["project_name"@] == name
            &&& map_of(vars).contains_key("crate_name"@) && map_of(vars)["crate_name"@]
                == underscored(name)
            &&& map_of(vars).contains_key("crate-name"@) ==> map_of(vars)["crate-name"@]
                == underscored(name)
        }),
{
    reveal_strlit("project-name");
    reveal_strlit("project_name");
    reveal_strlit("crate-name");
    reveal_strlit("crate_name");
    assert("project-name"@.len() == 12 && "project_name"@.len() == 12);
    assert("crate-name"@.len() == 10 && "crate_name"@.len() == 10);
    assert("project-name"@[7] == '-' && "project_name"@[7] == '_');
    assert("crate-name"@[5] == '-' && "crate_name"@[5] == '_');
    let start = defined(define);
    let first = put(start, "project-name"@, name);
    let second = put(first, "project_name"@, name);
    let third = if has_key(second, "crate-name"@) {
        put(second, "crate-name"@, underscored(name))
    } else {
        second
    };
    lemma_defined_unique(define);
    lemma_put(start, "project-name"@, name);
    lemma_put(first, "project_name"@, name);
    lemma_put(second, "crate-name"@, underscored(name));
    lemma_put(third, "crate_name"@, underscored(name));
    assert(map_of(second).contains_key("crate-name"@) == has_key(second, "crate-name"@));
}

/// The variables of a project as a map: what is defined, its name, and its crate name.
pub proof fn lemma_project_map(name: Seq<char>, define: Seq<Seq<char>>)
    ensures
        ({
            let named = map_of(defined(define)).insert("project-name"@, name).insert(
                "project_name"@,
                name,
            );
            let spelled = if named.contains_key("crate-name"@) {
                named.insert("crate-name"@, underscored(name))
            } else {
                named
            };
            map_of(project_variables(name, define)) == spelled.insert(
                "crate_name"@,
                underscored(name),
            )
        }),
{
    let start = defined(define);
    let first = put(start, "project-name"@, name);
    let second = put(first, "project_name"@, name);
    let third = if has_key(second, "crate-name"@) {
        put(second, "crate-name"@, underscored(name))
    } else {
        second
    };
    lemma_defined_unique(define);
    lemma_put(start, "project-name"@, name);
    lemma_put(first, "project_name"@, name);
    lemma_put(second, "crate-name"@, underscored(name));
    lemma_put(third, "crate_name"@, underscored(name));
    assert(map_of(second).contains_key("crate-name"@) == has_key(second, "crate-name"@));
}

/// Whatever is defined, the project's name and its crate name are found under their names.
pub proof fn law_project_name_wins(name: Seq<char>, define: Seq<Seq<char>>)
    ensures
        ({
            let vars = map_of(project_variables(name, define));
            &&& vars.contains_key("project-name"@) && vars["project-name"@] == name
            &&& vars.contains_key("project_name"@) && vars["project_name"@] == name
            &&& vars.contains_key("crate_name"@) && vars["crate_name"@] == underscored(name)
        }),
{
    lemma_project_variables(name, define);
}

} // verus!
