//! Maps from strings, kept in the order in which their keys were first put in.

use vstd::prelude::*;

use crate::text::text_eq;

verus! {

/// Whether no key occurs twice.
pub open spec fn unique_keys<V>(items: Seq<(Seq<char>, V)>) -> bool {
    forall|i: int, j: int|
        0 <= i < j < items.len() ==> (#[trigger] items[i]).0 != (#[trigger] items[j]).0
}

/// Whether `key` is among the keys.
pub open spec fn has_key<V>(items: Seq<(Seq<char>, V)>, key: Seq<char>) -> bool {
    exists|i: int| 0 <= i < items.len() && (#[trigger] items[i]).0 == key
}

/// The position of a pair with the key `key`.
pub open spec fn key_index<V>(items: Seq<(Seq<char>, V)>, key: Seq<char>) -> int {
    choose|i: int| 0 <= i < items.len() && (#[trigger] items[i]).0 == key
}

/// The map that a list of pairs stands for.
pub open spec fn map_of<V>(items: Seq<(Seq<char>, V)>) -> Map<Seq<char>, V> {
    Map::new(|k: Seq<char>| has_key(items, k), |k: Seq<char>| items[key_index(items, k)].1)
}

/// The pairs after `value` was put under `key`: in its old place where `key` was there before,
/// else at the end.
pub open spec fn put<V>(items: Seq<(Seq<char>, V)>, key: Seq<char>, value: V) -> Seq<
    (Seq<char>, V),
> {
    if has_key(items, key) {
        items.map_values(
            |e: (Seq<char>, V)|
                if e.0 == key {
                    (key, value)
                } else {
                    e
                },
        )
    } else {
        items.push((key, value))
    }
}

/// In a list with unique keys, a key has one position.
pub proof fn lemma_key_index<V>(items: Seq<(Seq<char>, V)>, i: int)
    requires
        unique_keys(items),
        0 <= i < items.len(),
    ensures
        has_key(items, items[i].0),
        key_index(items, items[i].0) == i,
        map_of(items).contains_key(items[i].0),
        map_of(items)[items[i].0] == items[i].1,
{
    let j = key_index(items, items[i].0);
    assert(0 <= j < items.len() && items[j].0 == items[i].0);
    if j < i {
        assert(items[j].0 != items[i].0);
    } else if i < j {
        assert(items[i].0 != items[j].0);
    }
}

/// Putting a value under a key is insertion into the map.
pub proof fn lemma_put<V>(items: Seq<(Seq<char>, V)>, key: Seq<char>, value: V)
    requires
        unique_keys(items),
    ensures
        unique_keys(put(items, key, value)),
        map_of(put(items, key, value)) == map_of(items).insert(key, value),
{
    let after = put(items, key, value);
    let m = map_of(items).insert(key, value);
    assert forall|i: int, j: int| 0 <= i < j < after.len() implies (#[trigger] after[i]).0 != (
    #[trigger] after[j]).0 by {
        if !has_key(items, key) && j == items.len() {
            assert(items[i].0 != key);
        } else {
            assert(items[i].0 != items[j].0);
        }
    }
    assert forall|k: Seq<char>| map_of(after).contains_key(k) == m.contains_key(k) by {
        if has_key(items, k) {
            let i = key_index(items, k);
            assert(after[i].0 == k);
        }
        if has_key(after, k) {
            let i = key_index(after, k);
            if i < items.len() {
                assert(items[i].0 == k);
            }
        }
        if !has_key(items, key) {
            assert(after[items.len() as int].0 == key);
        }
    }
    assert forall|k: Seq<char>| map_of(after).contains_key(k) implies map_of(after)[k] == m[k] by {
        let i = key_index(after, k);
        assert(after[i].0 == k);
        if k == key {
            if i < items.len() {
                assert(items[i].0 == key);
            }
        } else {
            assert(items[i].0 == k);
            lemma_key_index(items, i);
        }
    }
    assert(map_of(after) =~= m);
}

/// Taking a pair out is removal from the map.
pub proof fn lemma_take_out<V>(items: Seq<(Seq<char>, V)>, i: int)
    requires
        unique_keys(items),
        0 <= i < items.len(),
    ensures
        unique_keys(items.remove(i)),
        map_of(items.remove(i)) == map_of(items).remove(items[i].0),
{
    let after = items.remove(i);
    let m = map_of(items).remove(items[i].0);
    assert(after =~= items.take(i) + items.skip(i + 1));
    assert forall|a: int, b: int| 0 <= a < b < after.len() implies (#[trigger] after[a]).0 != (
    #[trigger] after[b]).0 by {
        assert(items[before_removal(a, i)].0 != items[before_removal(b, i)].0);
    }
    assert forall|k: Seq<char>| map_of(after).contains_key(k) == m.contains_key(k) by {
        if has_key(after, k) {
            let a = before_removal(key_index(after, k), i);
            assert(items[a].0 == k);
            lemma_key_index(items, a);
            lemma_key_index(items, i);
        }
        if has_key(items, k) && k != items[i].0 {
            let x = key_index(items, k);
            let a = if x < i {
                x
            } else {
                x - 1
            };
            assert(after[a].0 == k);
        }
    }
    assert forall|k: Seq<char>| map_of(after).contains_key(k) implies map_of(after)[k] == m[k] by {
        let a = before_removal(key_index(after, k), i);
        assert(items[a].0 == k);
        lemma_key_index(items, a);
    }
    assert(map_of(after) =~= m);
}

spec fn before_removal(a: int, i: int) -> int {
    if a < i {
        a
    } else {
        a + 1
    }
}

/// A map from strings to values.
#[derive(Debug)]
pub struct StringMap<V> {
    entries: Vec<(String, V)>,
}

impl<V> StringMap<V> {
    /// The pairs, in the order in which their keys were first put in.
    pub closed spec fn items(self) -> Seq<(Seq<char>, V)> {
        self.entries@.map_values(|e: (String, V)| (e.0@, e.1))
    }

    #[verifier::type_invariant]
    spec fn keys_are_unique(self) -> bool {
        unique_keys(self.items())
    }
}

impl<V> View for StringMap<V> {
    type V = Map<Seq<char>, V>;

    open spec fn view(&self) -> Map<Seq<char>, V> {
        map_of(self.items())
    }
}

impl<V> StringMap<V> {
    pub fn new() -> (m: StringMap<V>)
        ensures
            m.items() == Seq::<(Seq<char>, V)>::empty(),
            m@ == Map::<Seq<char>, V>::empty(),
    {
        let m: StringMap<V> = StringMap { entries: Vec::new() };
        assert(m.items() =~= Seq::empty());
        m
    }

    pub fn len(&self) -> (n: usize)
        ensures
            n == self.items().len(),
            unique_keys(self.items()),
    {
        proof {
            use_type_invariant(self);
        }
        self.entries.len()
    }

    pub fn is_empty(&self) -> (r: bool)
        ensures
            r == (self.items().len() == 0),
    {
        self.entries.len() == 0
    }

    /// The key of the pair at position `i`.
    pub fn key_at(&self, i: usize) -> (k: &String)
        requires
            i < self.items().len(),
        ensures
            k@ == self.items()[i as int].0,
    {
        &self.entries[i].0
    }

    /// The value of the pair at position `i`.
    pub fn value_at(&self, i: usize) -> (v: &V)
        requires
            i < self.items().len(),
        ensures
            *v == self.items()[i as int].1,
    {
        &self.entries[i].1
    }

    fn position(&self, key: &str) -> (r: Option<usize>)
        ensures
            (match r {
                Some(i) => i < self.items().len() && self.items()[i as int].0 == key@,
                None => !has_key(self.items(), key@),
            }),
    {
        let mut i: usize = 0;
        while i < self.entries.len()
            invariant
                i <= self.entries@.len(),
                forall|k: int| 0 <= k < i ==> (#[trigger] self.items()[k]).0 != key@,
            decreases self.entries.len() - i,
        {
            if text_eq(self.entries[i].0.as_str(), key) {
                return Some(i);
            }
            assert(self.items()[i as int].0 != key@);
            i += 1;
        }
        None
    }

    /// The value under `key`.
    pub fn get(&self, key: &str) -> (r: Option<&V>)
        ensures
            (match r {
                Some(v) => self@.contains_key(key@) && *v == self@[key@],
                None => !self@.contains_key(key@),
            }),
    {
        proof {
            use_type_invariant(self);
        }
        match self.position(key) {
            Some(i) => {
                proof {
                    lemma_key_index(self.items(), i as int);
                }
                Some(&self.entries[i].1)
            },
            None => None,
        }
    }

    pub fn contains_key(&self, key: &str) -> (r: bool)
        ensures
            r == self@.contains_key(key@),
    {
        self.get(key).is_some()
    }

    /// Puts `value` under `key`; a value that was there is replaced.
    pub fn insert(&mut self, key: String, value: V)
        ensures
            final(self)@ == old(self)@.insert(key@, value),
            final(self).items() == put(old(self).items(), key@, value),
    {
        proof {
            use_type_invariant(&*self);
            lemma_put(self.items(), key@, value);
        }
        let ghost before = self.items();
        let at = self.position(key.as_str());
        let mut entries: Vec<(String, V)> = Vec::new();
        std::mem::swap(&mut entries, &mut self.entries);
        let ghost prior = entries@;
        match at {
            Some(i) => {
                assert(has_key(before, key@)) by {
                    assert(before[i as int].0 == key@);
                }
                entries.set(i, (key, value));
                let ghost after = entries@.map_values(|e: (String, V)| (e.0@, e.1));
                assert(after =~= put(before, key@, value)) by {
                    assert forall|k: int| 0 <= k < after.len() implies after[k] == put(
                        before,
                        key@,
                        value,
                    )[k] by {
                        if k != i {
                            assert(before[k].0 != before[i as int].0);
                        }
                    }
                }
                self.entries = entries;
            },
            None => {
                entries.push((key, value));
                assert(entries@.map_values(|e: (String, V)| (e.0@, e.1)) =~= before.push(
                    (key@, value),
                ));
                self.entries = entries;
            },
        }
    }

    /// Takes `key` out, with its value.
    pub fn remove(&mut self, key: &str) -> (r: Option<V>)
        ensures
            final(self)@ == old(self)@.remove(key@),
            (match r {
                Some(v) => old(self)@.contains_key(key@) && v == old(self)@[key@],
                None => !old(self)@.contains_key(key@),
            }),
    {
        proof {
            use_type_invariant(&*self);
        }
        let ghost before = self.items();
        match self.position(key) {
            Some(i) => {
                let mut entries: Vec<(String, V)> = Vec::new();
                std::mem::swap(&mut entries, &mut self.entries);
                let (_, value) = entries.remove(i);
                proof {
                    assert(entries@.map_values(|e: (String, V)| (e.0@, e.1)) =~= before.remove(
                        i as int,
                    ));
                    lemma_key_index(before, i as int);
                    lemma_take_out(before, i as int);
                }
                self.entries = entries;
                Some(value)
            },
            None => {
                assert(self@.remove(key@) =~= self@);
                None
            },
        }
    }
}

/// The pairs of a map of strings, as texts.
pub open spec fn text_items(items: Seq<(Seq<char>, String)>) -> Seq<(Seq<char>, Seq<char>)> {
    items.map_values(|e: (Seq<char>, String)| (e.0, e.1@))
}

/// A copy of a map of strings.
pub fn copy_strings(map: &StringMap<String>) -> (r: StringMap<String>)
    ensures
        text_items(r.items()) == text_items(map.items()),
{
    let mut r: StringMap<String> = StringMap::new();
    let n: usize = map.len();
    let mut i: usize = 0;
    assert(text_items(r.items()) =~= text_items(map.items()).take(0));
    while i < n
        invariant
            i <= n,
            n == map.items().len(),
            unique_keys(map.items()),
            text_items(r.items()) == text_items(map.items()).take(i as int),
        decreases n - i,
    {
        let ghost before = r.items();
        let key = map.key_at(i).clone();
        proof {
            let all = text_items(map.items());
            assert forall|a: int, b: int| 0 <= a < b < all.len() implies (#[trigger] all[a]).0 != (
            #[trigger] all[b]).0 by {
                assert(map.items()[a].0 != map.items()[b].0);
            }
            lemma_new_key(before, text_items(map.items()), i as int);
        }
        let value = map.value_at(i).clone();
        let ghost pair = (key@, value);
        r.insert(key, value);
        assert(r.items() == before.push(pair));
        assert(text_items(r.items()) =~= text_items(before).push((pair.0, pair.1@)));
        i += 1;
        assert(text_items(r.items()) =~= text_items(map.items()).take(i as int));
    }
    assert(text_items(r.items()) =~= text_items(map.items()));
    r
}

/// A map that was filled with the first `i` of some pairs lacks the key of the next one.
pub proof fn lemma_new_key(items: Seq<(Seq<char>, String)>, all: Seq<(Seq<char>, Seq<char>)>, i: int)
    requires
        0 <= i < all.len(),
        unique_keys(all),
        text_items(items) == all.take(i),
    ensures
        !has_key(items, all[i].0),
{
    if has_key(items, all[i].0) {
        let k = choose|k: int| 0 <= k < items.len() && (#[trigger] items[k]).0 == all[i].0;
        assert(text_items(items).len() == items.len() && all.take(i).len() == i);
        assert(text_items(items)[k].0 == items[k].0);
        assert(all.take(i)[k] == all[k]);
    }
}

/// A list of pairs with different keys has as many pairs as its map has keys.
pub proof fn lemma_map_size<V>(items: Seq<(Seq<char>, V)>)
    requires
        unique_keys(items),
    ensures
        map_of(items).dom().finite(),
        map_of(items).dom().len() == items.len(),
    decreases items.len(),
{
    let keys = items.map_values(|e: (Seq<char>, V)| e.0);
    assert forall|i: int, j: int| 0 <= i < keys.len() && 0 <= j < keys.len() && i != j implies keys[i]
        != keys[j] by {
        if i < j {
            assert(items[i].0 != items[j].0);
        } else {
            assert(items[j].0 != items[i].0);
        }
    }
    keys.unique_seq_to_set();
    assert(map_of(items).dom() =~= keys.to_set()) by {
        assert forall|k: Seq<char>| map_of(items).dom().contains(k) <==> keys.to_set().contains(k) by {
            if has_key(items, k) {
                let i = key_index(items, k);
                assert(keys[i] == k);
            }
            if keys.contains(k) {
                let i = choose|i: int| 0 <= i < keys.len() && keys[i] == k;
                assert(items[i].0 == k);
            }
        }
    }
    vstd::seq_lib::seq_to_set_is_finite(keys);
}

/// Under a key stands what was put there last. What stands under other keys, and their order, stays as it
/// was; a key that was not there before comes behind all others.
pub proof fn law_value_is_found_under_its_key<V>(
    items: Seq<(Seq<char>, V)>,
    key: Seq<char>,
    value: V,
    other: Seq<char>,
)
    requires
        unique_keys(items),
        other != key,
    ensures
        map_of(put(items, key, value)).contains_key(key),
        map_of(put(items, key, value))[key] == value,
        map_of(put(items, key, value)).contains_key(other) == map_of(items).contains_key(other),
        map_of(items).contains_key(other) ==> map_of(put(items, key, value))[other] == map_of(
            items,
        )[other],
        map_of(items).contains_key(key) ==> put(items, key, value).len() == items.len(),
        !map_of(items).contains_key(key) ==> put(items, key, value) == items.push((key, value)),
        forall|i: int| 0 <= i < items.len() ==> #[trigger] put(items, key, value)[i].0 == items[i].0,
{
    lemma_put(items, key, value);
}

/// The pairs of a map of strings as texts are its pairs, one by one.
pub proof fn law_pairs_are_read_one_by_one(items: Seq<(Seq<char>, String)>)
    ensures
        text_items(items).len() == items.len(),
        forall|i: int|
            0 <= i < items.len() ==> (#[trigger] text_items(items)[i]).0 == items[i].0 && text_items(
                items,
            )[i].1 == items[i].1@,
{
}

} // verus!
