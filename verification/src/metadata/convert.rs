//! What becomes of objects that may fail to convert.
use vstd::prelude::*;

use crate::metadata::memory::K8Watch;

verus! {

/// The outcome of the conversion of a stored object.
#[derive(Debug)]
pub enum Converted<T, E> {
    Item(T),
    /// The object is not meant for this store.
    Skipped,
    /// The object is not of the expected shape.
    Unreadable,
    /// The object cannot be used, and neither can the list it is in.
    Failed(E),
}

/// The items before the first failure.
pub open spec fn items_of<T, E>(list: Seq<Converted<T, E>>) -> Seq<T>
    decreases list.len(),
{
    if list.len() == 0 {
        Seq::empty()
    } else {
        let before = items_of(list.drop_last());
        match list.last() {
            Converted::Item(item) => before.push(item),
            _ => before,
        }
    }
}

/// The first failure in a list, where there is one.
pub open spec fn first_failure<T, E>(list: Seq<Converted<T, E>>) -> Option<E>
    decreases list.len(),
{
    if list.len() == 0 {
        None
    } else {
        match first_failure(list.drop_last()) {
            Some(e) => Some(e),
            None => match list.last() {
                Converted::Failed(e) => Some(e),
                _ => None,
            },
        }
    }
}

proof fn lemma_failure_stays<T, E>(list: Seq<Converted<T, E>>, n: int)
    requires
        0 <= n <= list.len(),
        first_failure(list.take(n)) is Some,
    ensures
        first_failure(list) == first_failure(list.take(n)),
    decreases list.len() - n,
{
    if n < list.len() {
        assert(list.take(n + 1).drop_last() =~= list.take(n));
        lemma_failure_stays(list, n + 1);
    } else {
        assert(list.take(n) =~= list);
    }
}

/// Collects the items of a list. Objects that are skipped or unreadable are passed over; a failure
/// takes the whole list with it.
pub fn collect_items<T, E>(list: Vec<Converted<T, E>>) -> (r: Result<Vec<T>, E>)
    ensures
        (match r {
            Ok(items) => first_failure(list@) is None && items@ == items_of(list@),
            Err(e) => first_failure(list@) == Some(e),
        }),
{
    let mut rest = list;
    let mut items: Vec<T> = Vec::new();
    let ghost all = list@;
    let ghost mut n: int = 0;
    assert(all.take(0) =~= Seq::empty());
    assert(all.skip(0) =~= all);
    while rest.len() > 0
        invariant
            0 <= n <= all.len(),
            all == list@,
            rest@ == all.skip(n),
            items@ == items_of(all.take(n)),
            first_failure(all.take(n)) is None,
        decreases rest@.len(),
    {
        let next = rest.remove(0);
        proof {
            assert(next == all[n]);
            assert(all.take(n + 1).drop_last() =~= all.take(n));
            assert(all.take(n + 1).last() == next);
            assert(rest@ =~= all.skip(n + 1));
        }
        match next {
            Converted::Item(item) => {
                items.push(item);
            },
            Converted::Failed(e) => {
                proof {
                    lemma_failure_stays(all, n + 1);
                }
                return Err(e);
            },
            _ => {},
        }
        proof {
            n = n + 1;
        }
    }
    assert(all.take(n) =~= all);
    Ok(items)
}

/// Lists are collected in order: what stands in two lists, one behind the other, is what stands in the
/// first and then what stands in the second. An item gives itself, all else nothing.
pub proof fn law_items_are_collected_in_order<T, E>(
    a: Seq<Converted<T, E>>,
    b: Seq<Converted<T, E>>,
    item: T,
    error: E,
)
    ensures
        items_of(a + b) == items_of(a) + items_of(b),
        items_of(seq![Converted::<T, E>::Item(item)]) == seq![item],
        items_of(seq![Converted::<T, E>::Skipped]) == Seq::<T>::empty(),
        items_of(seq![Converted::<T, E>::Unreadable]) == Seq::<T>::empty(),
        items_of(seq![Converted::<T, E>::Failed(error)]) == Seq::<T>::empty(),
        items_of(Seq::<Converted<T, E>>::empty()) == Seq::<T>::empty(),
    decreases b.len(),
{
    reveal_with_fuel(items_of, 2);
    assert(seq![Converted::<T, E>::Item(item)].drop_last() =~= Seq::empty());
    assert(seq![Converted::<T, E>::Skipped].drop_last() =~= Seq::empty());
    assert(seq![Converted::<T, E>::Unreadable].drop_last() =~= Seq::empty());
    assert(seq![Converted::<T, E>::Failed(error)].drop_last() =~= Seq::empty());
    if b.len() == 0 {
        assert(a + b =~= a);
        assert(items_of(a) + items_of(b) =~= items_of(a));
    } else {
        law_items_are_collected_in_order(a, b.drop_last(), item, error);
        assert((a + b).drop_last() =~= a + b.drop_last());
        assert((a + b).last() == b.last());
        assert(items_of(a + b) =~= items_of(a) + items_of(b));
    }
}

/// A list fails exactly where one of its objects did, with the error of the first that did.
pub proof fn law_first_failure_decides<T, E>(list: Seq<Converted<T, E>>)
    ensures
        first_failure(list) is None <==> forall|i: int|
            0 <= i < list.len() ==> !((#[trigger] list[i]) is Failed),
        first_failure(list) matches Some(e) ==> exists|i: int|
            {
                &&& 0 <= i < list.len() && #[trigger] list[i] == Converted::<T, E>::Failed(e)
                &&& forall|j: int| 0 <= j < i ==> !((#[trigger] list[j]) is Failed)
            },
    decreases list.len(),
{
    if list.len() > 0 {
        let front = list.drop_last();
        law_first_failure_decides(front);
        assert forall|i: int| 0 <= i < front.len() implies #[trigger] front[i] == list[i] by {}
        match first_failure(front) {
            Some(e) => {
                let i = choose|i: int|
                    {
                        &&& 0 <= i < front.len() && #[trigger] front[i] == Converted::<T, E>::Failed(e)
                        &&& forall|j: int| 0 <= j < i ==> !((#[trigger] front[j]) is Failed)
                    };
                assert(list[i] == Converted::<T, E>::Failed(e));
                assert forall|j: int| 0 <= j < i implies !((#[trigger] list[j]) is Failed) by {
                    assert(front[j] == list[j]);
                }
            },
            None => {
                assert forall|j: int| 0 <= j < front.len() implies !((#[trigger] list[j]) is Failed) by {
                    assert(front[j] == list[j]);
                }
                if list.last() is Failed {
                    assert(list[list.len() - 1] == Converted::<T, E>::Failed(first_failure(list)->0));
                }
            },
        }
    }
}

/// A change to a local store.
#[derive(Debug)]
pub enum LSUpdate<T, K> {
    Mod(T),
    Delete(K),
}

/// An event of a watch, with what it is about converted: the object where one was added or changed,
/// its key where one was deleted.
#[derive(Debug)]
pub enum WatchEvent<T, K, E> {
    Apply(Converted<T, E>),
    Delete(Converted<K, E>),
    /// The watch starts, or has sent all that was there at its start.
    Init,
    /// The watch reports an error.
    Error,
}

/// The change that an event of a watch gives. Objects that cannot be converted, and errors, give
/// none and do not end the watch.
pub fn watch_change<T, K, E>(event: WatchEvent<T, K, E>) -> (r: Option<LSUpdate<T, K>>)
    ensures
        r == (match event {
            WatchEvent::Apply(Converted::Item(item)) => Some(LSUpdate::Mod(item)),
            WatchEvent::Delete(Converted::Item(key)) => Some(LSUpdate::Delete(key)),
            _ => None,
        }),
{
    match event {
        WatchEvent::Apply(Converted::Item(item)) => Some(LSUpdate::Mod(item)),
        WatchEvent::Delete(Converted::Item(key)) => Some(LSUpdate::Delete(key)),
        _ => None,
    }
}

/// The change that a watch on objects in memory gives: `item` is the object of the watch converted,
/// `key` its key. An object that cannot be converted gives none and does not end the watch.
pub fn memory_change<T, K, E>(
    watch: &K8Watch,
    item: Converted<T, E>,
    key: Converted<K, E>,
) -> (r: Option<LSUpdate<T, K>>)
    ensures
        r == (match *watch {
            K8Watch::DELETED(_) => match key {
                Converted::Item(k) => Some(LSUpdate::Delete(k)),
                _ => None,
            },
            _ => match item {
                Converted::Item(i) => Some(LSUpdate::Mod(i)),
                _ => None,
            },
        }),
{
    match watch {
        K8Watch::ADDED(_) | K8Watch::MODIFIED(_) => match item {
            Converted::Item(i) => Some(LSUpdate::Mod(i)),
            _ => None,
        },
        K8Watch::DELETED(_) => match key {
            Converted::Item(k) => Some(LSUpdate::Delete(k)),
            _ => None,
        },
    }
}

} // verus!
