//! JSON documents as plain data.

use vstd::prelude::*;

use crate::string_map::{has_key, put, unique_keys, StringMap};
use crate::text::{opt_text, text_eq, texts};

verus! {

/// A JSON document.
///
/// Members of an object keep the order in which they were written. A number that is not an
/// integer is kept as its text.
#[derive(Debug)]
pub enum Json {
    Null,
    Bool(bool),
    Int(i128),
    Decimal(String),
    Text(String),
    Array(Vec<Json>),
    Object(Vec<(String, Json)>),
}

/// What a [`Json`] value means, over sequences.
pub enum JsonTree {
    Null,
    Bool(bool),
    Int(int),
    Decimal(Seq<char>),
    Text(Seq<char>),
    Array(Seq<JsonTree>),
    Object(Seq<(Seq<char>, JsonTree)>),
}

/// The tree of a document.
pub open spec fn json_tree(j: Json) -> JsonTree
    decreases j,
{
    match j {
        Json::Null => JsonTree::Null,
        Json::Bool(b) => JsonTree::Bool(b),
        Json::Int(n) => JsonTree::Int(n as int),
        Json::Decimal(s) => JsonTree::Decimal(s@),
        Json::Text(s) => JsonTree::Text(s@),
        Json::Array(items) => JsonTree::Array(
            Seq::new(
                items@.len(),
                |i: int|
                    if 0 <= i < items@.len() {
                        json_tree(items@[i])
                    } else {
                        JsonTree::Null
                    },
            ),
        ),
        Json::Object(members) => JsonTree::Object(
            Seq::new(
                members@.len(),
                |i: int|
                    if 0 <= i < members@.len() {
                        (members@[i].0@, json_tree(members@[i].1))
                    } else {
                        (Seq::empty(), JsonTree::Null)
                    },
            ),
        ),
    }
}

impl View for Json {
    type V = JsonTree;

    open spec fn view(&self) -> JsonTree {
        json_tree(*self)
    }
}

/// An object without members, to be filled.
pub open spec fn no_members() -> Seq<(Seq<char>, JsonTree)> {
    Seq::empty()
}

/// An array without items, to be filled.
pub open spec fn no_items() -> Seq<JsonTree> {
    Seq::empty()
}

/// The array of some texts.
pub open spec fn text_array(list: Seq<Seq<char>>) -> JsonTree {
    JsonTree::Array(list.map_values(|s: Seq<char>| JsonTree::Text(s)))
}

/// A text, or null where there is none.
pub open spec fn text_or_null(s: Option<Seq<char>>) -> JsonTree {
    match s {
        Some(t) => JsonTree::Text(t),
        None => JsonTree::Null,
    }
}

/// The value of the first member called `key`.
pub open spec fn find_member(members: Seq<(Seq<char>, JsonTree)>, key: Seq<char>) -> Option<
    JsonTree,
>
    decreases members.len(),
{
    if members.len() == 0 {
        None
    } else if members[0].0 == key {
        Some(members[0].1)
    } else {
        find_member(members.skip(1), key)
    }
}

/// The first member with its key is the one found.
pub proof fn lemma_find_member(members: Seq<(Seq<char>, JsonTree)>, i: int)
    requires
        0 <= i < members.len(),
        forall|j: int| 0 <= j < i ==> (#[trigger] members[j]).0 != members[i].0,
    ensures
        find_member(members, members[i].0) == Some(members[i].1),
    decreases i,
{
    if i > 0 {
        let rest = members.skip(1);
        assert(members[0].0 != members[i].0);
        assert forall|j: int| 0 <= j < i - 1 implies (#[trigger] rest[j]).0 != rest[i - 1].0 by {
            assert(members[j + 1].0 != members[i].0);
        }
        lemma_find_member(rest, i - 1);
    }
}

/// A member behind others is found where none of them has its key.
pub broadcast proof fn lemma_find_push(
    members: Seq<(Seq<char>, JsonTree)>,
    member: (Seq<char>, JsonTree),
    key: Seq<char>,
)
    ensures
        #[trigger] find_member(members.push(member), key) == (match find_member(members, key) {
            Some(v) => Some(v),
            None => if member.0 == key {
                Some(member.1)
            } else {
                None
            },
        }),
    decreases members.len(),
{
    reveal_with_fuel(find_member, 2);
    let all = members.push(member);
    if members.len() > 0 {
        assert(all[0] == members[0]);
        assert(all.skip(1) =~= members.skip(1).push(member));
        lemma_find_push(members.skip(1), member, key);
    } else {
        assert(all.skip(1) =~= Seq::empty());
    }
}

/// Nothing is found among no members.
pub broadcast proof fn lemma_find_none(key: Seq<char>)
    ensures
        #[trigger] find_member(no_members(), key) is None,
{
}

impl JsonTree {
    /// The member called `key`; a value that is no object has none.
    pub open spec fn get(self, key: Seq<char>) -> Option<JsonTree> {
        match self {
            JsonTree::Object(members) => find_member(members, key),
            _ => None,
        }
    }

    /// The integer that this value is, where it fits 64 bits without a sign.
    pub open spec fn as_u64(self) -> Option<u64> {
        match self {
            JsonTree::Int(n) => if 0 <= n <= u64::MAX {
                Some(n as u64)
            } else {
                None
            },
            _ => None,
        }
    }

    /// The integer that this value is, where it fits 64 bits with a sign.
    pub open spec fn as_i64(self) -> Option<i64> {
        match self {
            JsonTree::Int(n) => if i64::MIN <= n <= i64::MAX {
                Some(n as i64)
            } else {
                None
            },
            _ => None,
        }
    }

    /// The text that this value is.
    pub open spec fn as_text(self) -> Option<Seq<char>> {
        match self {
            JsonTree::Text(s) => Some(s),
            _ => None,
        }
    }
}

/// The tree of an optional document.
pub open spec fn opt_tree(j: Option<Json>) -> Option<JsonTree> {
    match j {
        Some(v) => Some(v@),
        None => None,
    }
}

/// The tree of an object whose members are the pairs of a map of strings.
pub open spec fn string_members(items: Seq<(Seq<char>, String)>) -> Seq<(Seq<char>, JsonTree)> {
    items.map_values(|e: (Seq<char>, String)| (e.0, JsonTree::Text(e.1@)))
}

impl Json {
    pub fn text(s: &str) -> (j: Json)
        ensures
            j@ == JsonTree::Text(s@),
    {
        Json::Text(s.to_owned())
    }

    pub fn integer(n: i64) -> (j: Json)
        ensures
            j@ == JsonTree::Int(n as int),
    {
        Json::Int(n as i128)
    }

    pub fn boolean(b: bool) -> (j: Json)
        ensures
            j@ == JsonTree::Bool(b),
    {
        Json::Bool(b)
    }

    pub fn null() -> (j: Json)
        ensures
            j@ == JsonTree::Null,
    {
        Json::Null
    }

    /// The member called `key`; a value that is no object has none.
    pub fn get(&self, key: &str) -> (r: Option<&Json>)
        ensures
            (match r {
                Some(j) => self@.get(key@) == Some(j@),
                None => self@.get(key@) is None,
            }),
    {
        match self {
            Json::Object(members) => {
                let ghost tree = self@->Object_0;
                let mut i: usize = 0;
                assert(tree.skip(0) =~= tree);
                while i < members.len()
                    invariant
                        i <= members@.len(),
                        self@ == JsonTree::Object(tree),
                        tree.len() == members@.len(),
                        forall|k: int|
                            0 <= k < tree.len() ==> #[trigger] tree[k] == (
                                members@[k].0@,
                                members@[k].1@,
                            ),
                        find_member(tree.skip(i as int), key@) == find_member(tree, key@),
                    decreases members.len() - i,
                {
                    assert(tree.skip(i as int)[0] == tree[i as int]);
                    if text_eq(members[i].0.as_str(), key) {
                        return Some(&members[i].1);
                    }
                    assert(tree.skip(i as int).skip(1) =~= tree.skip(i + 1));
                    i += 1;
                }
                None
            },
            _ => None,
        }
    }

    pub fn as_u64(&self) -> (r: Option<u64>)
        ensures
            r == self@.as_u64(),
    {
        match self {
            Json::Int(n) => if 0 <= *n && *n <= u64::MAX as i128 {
                Some(*n as u64)
            } else {
                None
            },
            _ => None,
        }
    }

    pub fn as_i64(&self) -> (r: Option<i64>)
        ensures
            r == self@.as_i64(),
    {
        match self {
            Json::Int(n) => if i64::MIN as i128 <= *n && *n <= i64::MAX as i128 {
                Some(*n as i64)
            } else {
                None
            },
            _ => None,
        }
    }

    pub fn as_str(&self) -> (r: Option<&String>)
        ensures
            (match r {
                Some(s) => self@.as_text() == Some(s@),
                None => self@.as_text() is None,
            }),
    {
        match self {
            Json::Text(s) => Some(s),
            _ => None,
        }
    }

    /// A text, or null where there is none.
    pub fn text_or_null(s: &Option<String>) -> (j: Json)
        ensures
            j@ == text_or_null(opt_text(*s)),
    {
        match s {
            Some(t) => Json::text(t.as_str()),
            None => Json::Null,
        }
    }

    /// The object whose members are the pairs of `map`.
    pub fn from_strings(map: &StringMap<String>) -> (j: Json)
        ensures
            j@ == JsonTree::Object(string_members(map.items())),
    {
        let mut m = Members::new();
        let mut i: usize = 0;
        assert(m@ =~= string_members(map.items()).take(0));
        while i < map.len()
            invariant
                i <= map.items().len(),
                m@ == string_members(map.items()).take(i as int),
            decreases map.items().len() - i,
        {
            m = m.with(map.key_at(i).as_str(), Json::text(map.value_at(i).as_str()));
            i += 1;
            assert(m@ =~= string_members(map.items()).take(i as int));
        }
        assert(m@ =~= string_members(map.items()));
        m.into_object()
    }

    /// The array of the texts in `list`.
    pub fn from_texts(list: &Vec<String>) -> (j: Json)
        ensures
            j@ == text_array(texts(list@)),
    {
        let mut m = Items::new();
        let mut i: usize = 0;
        let ghost whole = texts(list@).map_values(|s: Seq<char>| JsonTree::Text(s));
        assert(m@ =~= whole.take(0));
        while i < list.len()
            invariant
                i <= list@.len(),
                whole == texts(list@).map_values(|s: Seq<char>| JsonTree::Text(s)),
                m@ == whole.take(i as int),
            decreases list.len() - i,
        {
            m = m.with(Json::text(list[i].as_str()));
            i += 1;
            assert(m@ =~= whole.take(i as int));
        }
        assert(m@ =~= whole);
        m.into_array()
    }
}

/// In the object that is made of a map of strings, each key has the value that it has in the map, and
/// there are no other keys.
pub proof fn law_strings_are_read_back(items: Seq<(Seq<char>, String)>, key: Seq<char>)
    requires
        unique_keys(items),
    ensures
        forall|i: int|
            0 <= i < items.len() && (#[trigger] items[i]).0 == key ==> JsonTree::Object(
                string_members(items),
            ).get(key) == Some(JsonTree::Text(items[i].1@)),
        (forall|i: int| 0 <= i < items.len() ==> (#[trigger] items[i]).0 != key)
            ==> JsonTree::Object(string_members(items)).get(key) is None,
{
    let members = string_members(items);
    assert forall|i: int| 0 <= i < items.len() && (#[trigger] items[i]).0 == key implies
        find_member(members, key) == Some(JsonTree::Text(items[i].1@)) by {
        assert forall|j: int| 0 <= j < i implies (#[trigger] members[j]).0 != members[i].0 by {
            assert(items[j].0 != items[i].0);
        }
        lemma_find_member(members, i);
    }
    if forall|i: int| 0 <= i < items.len() ==> (#[trigger] items[i]).0 != key {
        assert forall|i: int| 0 <= i < members.len() implies (#[trigger] members[i]).0 != key by {
            assert(items[i].0 != key);
        }
        lemma_not_found(members, key);
    }
}

/// A key that no member has is not found.
pub proof fn lemma_not_found(members: Seq<(Seq<char>, JsonTree)>, key: Seq<char>)
    requires
        forall|i: int| 0 <= i < members.len() ==> (#[trigger] members[i]).0 != key,
    ensures
        find_member(members, key) is None,
    decreases members.len(),
{
    if members.len() > 0 {
        assert(members[0].0 != key);
        let rest = members.skip(1);
        assert forall|i: int| 0 <= i < rest.len() implies (#[trigger] rest[i]).0 != key by {
            assert(members[i + 1].0 != key);
        }
        lemma_not_found(rest, key);
    }
}

/// What is put under a key of an object is read back under it, and all other keys keep what they had.
pub proof fn law_member_is_read_back(tree: JsonTree, key: Seq<char>, value: JsonTree, other: Seq<char>)
    requires
        tree is Object,
    ensures
        with_member(tree, key, value) is Object,
        with_member(tree, key, value).get(key) == Some(value),
        other != key ==> with_member(tree, key, value).get(other) == tree.get(other),
{
    let members = tree->Object_0;
    if has_key(members, key) {
        let after = put(members, key, value);
        lemma_renewed(members, after, key, value, other);
    } else {
        assert forall|i: int| 0 <= i < members.len() implies (#[trigger] members[i]).0 != key by {}
        lemma_not_found(members, key);
        lemma_find_push(members, (key, value), key);
        lemma_find_push(members, (key, value), other);
    }
}

proof fn lemma_renewed(
    members: Seq<(Seq<char>, JsonTree)>,
    after: Seq<(Seq<char>, JsonTree)>,
    key: Seq<char>,
    value: JsonTree,
    other: Seq<char>,
)
    requires
        after.len() == members.len(),
        forall|i: int|
            0 <= i < members.len() ==> #[trigger] after[i] == if members[i].0 == key {
                (key, value)
            } else {
                members[i]
            },
    ensures
        has_key(members, key) ==> find_member(after, key) == Some(value),
        other != key ==> find_member(after, other) == find_member(members, other),
    decreases members.len(),
{
    if members.len() > 0 {
        assert(after[0].0 == members[0].0);
        let rest = members.skip(1);
        let more = after.skip(1);
        assert forall|i: int| 0 <= i < rest.len() implies #[trigger] more[i] == if rest[i].0 == key {
            (key, value)
        } else {
            rest[i]
        } by {
            assert(after[i + 1] == more[i] && members[i + 1] == rest[i]);
        }
        lemma_renewed(rest, more, key, value, other);
        if has_key(members, key) && members[0].0 != key {
            let i = choose|i: int| 0 <= i < members.len() && (#[trigger] members[i]).0 == key;
            assert(rest[i - 1].0 == key);
        }
    }
}

/// A document with `value` under `key`, where it is an object: in the old place where the key was
/// there, else at the end. Any other document stays as it is.
pub open spec fn with_member(tree: JsonTree, key: Seq<char>, value: JsonTree) -> JsonTree {
    match tree {
        JsonTree::Object(members) => JsonTree::Object(put(members, key, value)),
        _ => tree,
    }
}

fn put_member(members: Vec<(String, Json)>, key: &str, value: Json) -> (j: Json)
    ensures
        j@ == JsonTree::Object(put(Json::Object(members)@->Object_0, key@, value@)),
{
    let ghost tree = Json::Object(members)@->Object_0;
    let mut m = Members::new();
    let mut found = false;
    let mut i: usize = 0;
    let ghost renew = |e: (Seq<char>, JsonTree)|
        if e.0 == key@ {
            (e.0, value@)
        } else {
            e
        };
    assert(m@ =~= tree.take(0).map_values(renew));
    while i < members.len()
        invariant
            i <= members@.len(),
            tree == Json::Object(members)@->Object_0,
            renew == (|e: (Seq<char>, JsonTree)|
                if e.0 == key@ {
                    (e.0, value@)
                } else {
                    e
                }),
            m@ == tree.take(i as int).map_values(renew),
            found == (exists|k: int| 0 <= k < i && (#[trigger] tree[k]).0 == key@),
        decreases members.len() - i,
    {
        let ghost before = m@;
        assert(tree[i as int] == (members@[i as int].0@, members@[i as int].1@));
        if text_eq(members[i].0.as_str(), key) {
            found = true;
            m = m.with(members[i].0.as_str(), value.clone());
        } else {
            m = m.with(members[i].0.as_str(), members[i].1.clone());
        }
        assert(tree.take(i + 1) =~= tree.take(i as int).push(tree[i as int]));
        assert(m@ =~= tree.take(i + 1).map_values(renew));
        i += 1;
    }
    assert(tree.take(i as int) =~= tree);
    if found {
        assert(m@ =~= put(tree, key@, value@));
        m.into_object()
    } else {
        assert forall|k: int| 0 <= k < tree.len() implies (#[trigger] tree[k]).0 != key@ by {}
        assert(m@ =~= tree);
        m.with(key, value).into_object()
    }
}

impl Json {
    /// Puts `value` under `key` into a document that is an object.
    pub fn with_member(self, key: &str, value: Json) -> (j: Json)
        ensures
            j@ == with_member(self@, key@, value@),
    {
        match self {
            Json::Object(members) => put_member(members, key, value),
            other => other,
        }
    }
}

impl Clone for Json {
    fn clone(&self) -> (r: Json)
        ensures
            r@ == self@,
        decreases self,
    {
        match self {
            Json::Null => Json::Null,
            Json::Bool(b) => Json::Bool(*b),
            Json::Int(n) => Json::Int(*n),
            Json::Decimal(s) => Json::Decimal(s.clone()),
            Json::Text(s) => Json::Text(s.clone()),
            Json::Array(items) => {
                let mut m = Items::new();
                let mut i: usize = 0;
                let ghost tree = self@->Array_0;
                assert(m@ =~= tree.take(0));
                while i < items.len()
                    invariant
                        i <= items@.len(),
                        *self == Json::Array(*items),
                        tree == self@->Array_0,
                        m@ == tree.take(i as int),
                    decreases items.len() - i,
                {
                    m = m.with(items[i].clone());
                    i += 1;
                    assert(m@ =~= tree.take(i as int));
                }
                assert(m@ =~= tree);
                m.into_array()
            },
            Json::Object(members) => {
                let mut m = Members::new();
                let mut i: usize = 0;
                let ghost tree = self@->Object_0;
                assert(m@ =~= tree.take(0));
                while i < members.len()
                    invariant
                        i <= members@.len(),
                        *self == Json::Object(*members),
                        tree == self@->Object_0,
                        m@ == tree.take(i as int),
                    decreases members.len() - i,
                {
                    m = m.with(members[i].0.as_str(), members[i].1.clone());
                    i += 1;
                    assert(m@ =~= tree.take(i as int));
                }
                assert(m@ =~= tree);
                m.into_object()
            },
        }
    }
}

/// Members of an object under construction.
#[derive(Debug)]
pub struct Members {
    list: Vec<(String, Json)>,
}

impl View for Members {
    type V = Seq<(Seq<char>, JsonTree)>;

    closed spec fn view(&self) -> Seq<(Seq<char>, JsonTree)> {
        self.list@.map_values(|m: (String, Json)| (m.0@, m.1@))
    }
}

impl Members {
    pub fn new() -> (m: Members)
        ensures
            m@ == Seq::<(Seq<char>, JsonTree)>::empty(),
    {
        let m = Members { list: Vec::new() };
        assert(m@ =~= Seq::empty());
        m
    }

    pub fn with(self, key: &str, value: Json) -> (m: Members)
        ensures
            m@ == self@.push((key@, value@)),
    {
        let mut list = self.list;
        list.push((key.to_owned(), value));
        let m = Members { list };
        assert(m@ =~= self@.push((key@, value@)));
        m
    }

    pub fn into_object(self) -> (j: Json)
        ensures
            j@ == JsonTree::Object(self@),
    {
        let j = Json::Object(self.list);
        assert(j@->Object_0 =~= self@);
        j
    }
}


/// Items of an array under construction.
#[derive(Debug)]
pub struct Items {
    list: Vec<Json>,
}

impl View for Items {
    type V = Seq<JsonTree>;

    closed spec fn view(&self) -> Seq<JsonTree> {
        self.list@.map_values(|j: Json| j@)
    }
}

impl Items {
    pub fn new() -> (m: Items)
        ensures
            m@ == Seq::<JsonTree>::empty(),
    {
        let m = Items { list: Vec::new() };
        assert(m@ =~= Seq::empty());
        m
    }

    pub fn with(self, value: Json) -> (m: Items)
        ensures
            m@ == self@.push(value@),
    {
        let mut list = self.list;
        list.push(value);
        let m = Items { list };
        assert(m@ =~= self@.push(value@));
        m
    }

    pub fn into_array(self) -> (j: Json)
        ensures
            j@ == JsonTree::Array(self@),
    {
        let j = Json::Array(self.list);
        assert(j@->Array_0 =~= self@);
        j
    }
}

} // verus!
