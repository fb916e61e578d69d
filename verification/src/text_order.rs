//! The order of texts by their characters, and sorting by it.
use vstd::prelude::*;
use vstd::relations::{sorted_by, total_ordering};
use vstd::seq_lib::{lemma_sorted_unique, to_multiset_build, to_multiset_insert};

use crate::text::{chars_of, texts};

verus! {

/// Whether `a` stands before `b` or is equal to it: the first character that differs decides, and
/// a text stands before those that go on behind it.
pub open spec fn text_le(a: Seq<char>, b: Seq<char>) -> bool
    decreases a.len(),
{
    if a.len() == 0 {
        true
    } else if b.len() == 0 {
        false
    } else if a[0] == b[0] {
        text_le(a.skip(1), b.skip(1))
    } else {
        (a[0] as int) < (b[0] as int)
    }
}

/// The texts of `list` in ascending order.
pub open spec fn sorted_texts(list: Seq<Seq<char>>) -> Seq<Seq<char>> {
    list.sort_by(|a: Seq<char>, b: Seq<char>| text_le(a, b))
}

proof fn lemma_reflexive(a: Seq<char>)
    ensures
        text_le(a, a),
    decreases a.len(),
{
    if a.len() > 0 {
        lemma_reflexive(a.skip(1));
    }
}

proof fn lemma_antisymmetric(a: Seq<char>, b: Seq<char>)
    requires
        text_le(a, b),
        text_le(b, a),
    ensures
        a == b,
    decreases a.len(),
{
    if a.len() > 0 {
        lemma_antisymmetric(a.skip(1), b.skip(1));
        assert(a =~= seq![a[0]] + a.skip(1));
        assert(b =~= seq![b[0]] + b.skip(1));
    } else {
        assert(a =~= b);
    }
}

proof fn lemma_transitive(a: Seq<char>, b: Seq<char>, c: Seq<char>)
    requires
        text_le(a, b),
        text_le(b, c),
    ensures
        text_le(a, c),
    decreases a.len(),
{
    if a.len() > 0 && a[0] == b[0] && b[0] == c[0] {
        lemma_transitive(a.skip(1), b.skip(1), c.skip(1));
    }
}

proof fn lemma_total(a: Seq<char>, b: Seq<char>)
    ensures
        text_le(a, b) || text_le(b, a),
    decreases a.len(),
{
    if a.len() > 0 && b.len() > 0 && a[0] == b[0] {
        lemma_total(a.skip(1), b.skip(1));
    }
}

/// Any two texts can be held against each other, and the order is a total one.
pub proof fn law_text_order_is_total()
    ensures
        total_ordering(|a: Seq<char>, b: Seq<char>| text_le(a, b)),
{
    let leq = |a: Seq<char>, b: Seq<char>| text_le(a, b);
    assert forall|a: Seq<char>| #[trigger] leq(a, a) by {
        lemma_reflexive(a);
    }
    assert forall|a: Seq<char>, b: Seq<char>| #[trigger] leq(a, b) && #[trigger] leq(b, a) implies a
        == b by {
        lemma_antisymmetric(a, b);
    }
    assert forall|a: Seq<char>, b: Seq<char>, c: Seq<char>| #[trigger]
        leq(a, b) && #[trigger] leq(b, c) implies leq(a, c) by {
        lemma_transitive(a, b, c);
    }
    assert forall|a: Seq<char>, b: Seq<char>| #[trigger] leq(a, b) || #[trigger] leq(b, a) by {
        lemma_total(a, b);
    }
}

/// Whether `a` stands before `b` or is equal to it.
pub fn text_at_most(a: &str, b: &str) -> (r: bool)
    ensures
        r == text_le(a@, b@),
{
    let v = chars_of(a);
    let w = chars_of(b);
    let mut i: usize = 0;
    assert(a@.skip(0) =~= a@);
    assert(b@.skip(0) =~= b@);
    while i < v.len() && i < w.len()
        invariant
            i <= v@.len(),
            i <= w@.len(),
            v@ == a@,
            w@ == b@,
            text_le(a@.skip(i as int), b@.skip(i as int)) == text_le(a@, b@),
        decreases v.len() - i,
    {
        assert(a@.skip(i as int)[0] == a@[i as int]);
        assert(b@.skip(i as int)[0] == b@[i as int]);
        let x: char = v[i];
        let y: char = w[i];
        if x != y {
            return x < y;
        }
        assert(a@.skip(i as int).skip(1) =~= a@.skip(i + 1));
        assert(b@.skip(i as int).skip(1) =~= b@.skip(i + 1));
        i += 1;
    }
    i == v.len()
}

proof fn lemma_insert_sorted(s: Seq<Seq<char>>, x: Seq<char>, at: int)
    requires
        sorted_by(s, |a: Seq<char>, b: Seq<char>| text_le(a, b)),
        0 <= at <= s.len(),
        at > 0 ==> text_le(s[at - 1], x),
        at < s.len() ==> text_le(x, s[at]),
    ensures
        sorted_by(s.insert(at, x), |a: Seq<char>, b: Seq<char>| text_le(a, b)),
{
    let leq = |a: Seq<char>, b: Seq<char>| text_le(a, b);
    let r = s.insert(at, x);
    assert forall|i: int, j: int| 0 <= i < j < r.len() implies #[trigger] leq(r[i], r[j]) by {
        if i < at && j < at {
            assert(leq(s[i], s[j]));
        } else if i < at && j == at {
            if i < at - 1 {
                assert(leq(s[i], s[at - 1]));
                lemma_transitive(s[i], s[at - 1], x);
            }
        } else if i < at {
            assert(leq(s[i], s[j - 1]));
        } else if i == at {
            if j - 1 > at {
                assert(leq(s[at], s[j - 1]));
                lemma_transitive(x, s[at], s[j - 1]);
            }
        } else {
            assert(leq(s[i - 1], s[j - 1]));
        }
    }
}

/// Puts `x` into a sorted list, in front of the first text that is not before it.
fn insert_sorted(list: &mut Vec<String>, x: String)
    requires
        sorted_by(texts(old(list)@), |a: Seq<char>, b: Seq<char>| text_le(a, b)),
    ensures
        sorted_by(texts(final(list)@), |a: Seq<char>, b: Seq<char>| text_le(a, b)),
        texts(final(list)@).to_multiset() == texts(old(list)@).to_multiset().insert(x@),
{
    let ghost before = texts(list@);
    let mut at: usize = list.len();
    while at > 0 && !text_at_most(list[at - 1].as_str(), x.as_str())
        invariant
            at <= list@.len(),
            texts(list@) == before,
            at < list@.len() ==> text_le(x@, before[at as int]),
        decreases at,
    {
        at -= 1;
        proof {
            lemma_total(x@, before[at as int]);
        }
    }
    let ghost text = x@;
    list.insert(at, x);
    assert(texts(list@) =~= before.insert(at as int, text));
    proof {
        lemma_insert_sorted(before, text, at as int);
        to_multiset_insert(before, at as int, text);
    }
}

/// The texts of `list` in ascending order.
pub fn sort_texts(list: Vec<String>) -> (r: Vec<String>)
    ensures
        texts(r@) == sorted_texts(texts(list@)),
{
    let mut r: Vec<String> = Vec::new();
    let mut i: usize = 0;
    assert(texts(r@) =~= texts(list@).take(0));
    while i < list.len()
        invariant
            i <= list@.len(),
            sorted_by(texts(r@), |a: Seq<char>, b: Seq<char>| text_le(a, b)),
            texts(r@).to_multiset() == texts(list@).take(i as int).to_multiset(),
        decreases list.len() - i,
    {
        insert_sorted(&mut r, list[i].clone());
        proof {
            to_multiset_build(texts(list@).take(i as int), list@[i as int]@);
            assert(texts(list@).take(i + 1) =~= texts(list@).take(i as int).push(
                list@[i as int]@,
            ));
        }
        i += 1;
    }
    proof {
        let leq = |a: Seq<char>, b: Seq<char>| text_le(a, b);
        assert(texts(list@).take(i as int) =~= texts(list@));
        law_text_order_is_total();
        texts(list@).lemma_sort_by_ensures(leq);
        lemma_sorted_unique(texts(r@), sorted_texts(texts(list@)), leq);
    }
    r
}

/// Of two texts that differ, the one with the smaller character at the first place where they do stands
/// before the other. A text stands before those that go on behind it.
pub proof fn law_first_difference_decides(
    same: Seq<char>,
    a: char,
    x: Seq<char>,
    b: char,
    y: Seq<char>,
)
    requires
        a != b,
    ensures
        text_le(same + seq![a] + x, same + seq![b] + y) <==> (a as int) < (b as int),
        text_le(same, same + x),
        x.len() > 0 ==> !text_le(same + x, same),
    decreases same.len(),
{
    if same.len() > 0 {
        let rest = same.skip(1);
        law_first_difference_decides(rest, a, x, b, y);
        assert((same + seq![a] + x).skip(1) =~= rest + seq![a] + x);
        assert((same + seq![b] + y).skip(1) =~= rest + seq![b] + y);
        assert((same + x).skip(1) =~= rest + x);
        assert((same + seq![a] + x)[0] == same[0] && (same + seq![b] + y)[0] == same[0]);
        assert((same + x)[0] == same[0]);
    } else {
        assert(same + seq![a] + x =~= seq![a] + x);
        assert(same + seq![b] + y =~= seq![b] + y);
        assert(same + x =~= x);
    }
}

/// Sorting keeps all texts, each as often as it was there, and puts them into ascending order.
pub proof fn law_sorting_puts_texts_into_order(list: Seq<Seq<char>>)
    ensures
        sorted_texts(list).to_multiset() == list.to_multiset(),
        forall|i: int, j: int|
            0 <= i < j < sorted_texts(list).len() ==> text_le(
                #[trigger] sorted_texts(list)[i],
                #[trigger] sorted_texts(list)[j],
            ),
{
    let leq = |a: Seq<char>, b: Seq<char>| text_le(a, b);
    law_text_order_is_total();
    list.lemma_sort_by_ensures(leq);
    let sorted = sorted_texts(list);
    assert forall|i: int, j: int| 0 <= i < j < sorted.len() implies text_le(
        #[trigger] sorted[i],
        #[trigger] sorted[j],
    ) by {
        assert(leq(sorted[i], sorted[j]));
    }
}

} // verus!
