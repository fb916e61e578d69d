//! The values that a template refers to.
use vstd::prelude::*;

verus! {

#[verifier::external_type_specification]
#[verifier::external_body]
pub struct ExObject(liquid::Object);

/// The values of an object by their names, each as the text that is written for it.
pub uninterp spec fn object_texts(object: liquid::Object) -> Map<Seq<char>, Seq<char>>;

/// The names in an object whose value is one text, number or the like: no list, and no object.
pub uninterp spec fn scalar_names(object: liquid::Object) -> Set<Seq<char>>;

/// No names.
pub open spec fn no_names() -> Set<Seq<char>> {
    Set::empty()
}

/// No names and no values.
pub open spec fn no_texts() -> Map<Seq<char>, Seq<char>> {
    Map::empty()
}

/// Calls `liquid::Object::new`. Claims that the new object is empty.
#[verifier::external_body]
pub(crate) fn new_object() -> (object: liquid::Object)
    ensures
        object_texts(object) == no_texts(),
        scalar_names(object) == no_names(),
{
    liquid::Object::new()
}

/// Calls `liquid::Object::insert` with a text as the value. Claims that the name has this value
/// afterwards, which is no list, and that all other names keep theirs.
#[verifier::external_body]
pub(crate) fn insert_text(object: &mut liquid::Object, name: String, value: String)
    ensures
        object_texts(*final(object)) == object_texts(*old(object)).insert(name@, value@),
        scalar_names(*final(object)) == scalar_names(*old(object)).insert(name@),
{
    object.insert(name.into(), liquid_core::Value::scalar(value));
}

/// Calls `liquid::Object::contains_key`. Claims that it tells whether the name has a value.
#[verifier::external_body]
pub(crate) fn has_name(object: &liquid::Object, name: &str) -> (r: bool)
    ensures
        r == object_texts(*object).contains_key(name@),
{
    object.contains_key(name)
}

/// Calls `clone` on a `liquid::Object`. Claims that the copy has the same names and values.
#[verifier::external_body]
pub(crate) fn copy_object(object: &liquid::Object) -> (r: liquid::Object)
    ensures
        object_texts(r) == object_texts(*object),
        scalar_names(r) == scalar_names(*object),
{
    object.clone()
}

/// Calls `liquid::Object::get`, and `is_scalar` on the value. Claims that it tells whether the name has
/// a value that is neither a list nor an object.
#[verifier::external_body]
pub(crate) fn is_scalar(object: &liquid::Object, name: &str) -> (r: bool)
    ensures
        r == scalar_names(*object).contains(name@),
{
    match object.get(name) {
        Some(value) => liquid_core::ValueView::is_scalar(value),
        None => false,
    }
}

/// Calls `liquid::Object::get`, and `render` to make a text of the value. Claims that it gives the
/// text of the name's value, and nothing where the name has none.
#[verifier::external_body]
pub(crate) fn text_of(object: &liquid::Object, name: &str) -> (r: Option<String>)
    ensures
        r is Some <==> object_texts(*object).contains_key(name@),
        r matches Some(text) ==> text@ == object_texts(*object)[name@],
{
    match object.get(name) {
        Some(value) => Some(liquid_core::ValueView::render(value).to_string()),
        None => None,
    }
}

} // verus!
