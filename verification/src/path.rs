//! Paths as texts.
use vstd::prelude::*;

use crate::text::chars_of;

verus! {

/// The path `name` below `at`, where an empty path stands for the directory that paths start at. A
/// path that starts at the root stands for itself.
pub open spec fn below(at: Seq<char>, name: Seq<char>) -> Seq<char> {
    if name.len() > 0 && name[0] == '/' {
        name
    } else if at.len() == 0 || at.last() == '/' {
        at + name
    } else {
        at + "/"@ + name
    }
}

/// The path `name` below `at`.
pub fn join_below(at: &str, name: &str) -> (r: String)
    ensures
        r@ == below(at@, name@),
{
    let v = chars_of(at);
    let w = chars_of(name);
    if w.len() > 0 && w[0] == '/' {
        name.to_owned()
    } else if v.len() == 0 || v[v.len() - 1] == '/' {
        at.to_owned().concat(name)
    } else {
        at.to_owned().concat("/").concat(name)
    }
}

/// A path below a directory begins with the directory and ends with the name, with exactly one slash
/// between. A name that starts at the root stands for itself, and so does one below nothing.
pub proof fn law_path_below_a_directory(at: Seq<char>, name: Seq<char>)
    ensures
        name.len() > 0 && name[0] == '/' ==> below(at, name) == name,
        at.len() == 0 ==> below(at, name) == name,
        at.len() > 0 && at.last() != '/' && !(name.len() > 0 && name[0] == '/') ==> {
            &&& below(at, name).len() == at.len() + 1 + name.len()
            &&& below(at, name).take(at.len() as int) == at
            &&& below(at, name)[at.len() as int] == '/'
            &&& below(at, name).skip(at.len() as int + 1) == name
        },
        at.len() > 0 && at.last() == '/' && !(name.len() > 0 && name[0] == '/') ==> {
            &&& below(at, name).len() == at.len() + name.len()
            &&& below(at, name).take(at.len() as int) == at
            &&& below(at, name).skip(at.len() as int) == name
        },
{
    reveal_strlit("/");
    if at.len() == 0 {
        assert(at + name =~= name);
    }
    let joined = at + "/"@ + name;
    assert(joined.take(at.len() as int) =~= at);
    assert(joined.skip(at.len() as int + 1) =~= name);
    let direct = at + name;
    assert(direct.take(at.len() as int) =~= at);
    assert(direct.skip(at.len() as int) =~= name);
}

} // verus!
