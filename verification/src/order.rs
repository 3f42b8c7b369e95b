//! Lexicographic order on text, and a sort that is stated by that order.

use vstd::multiset::Multiset;
use vstd::prelude::*;
use vstd::relations::*;
use vstd::seq_lib::*;

use crate::text::{chars_of, texts, views};

verus! {

/// `a` comes before `b` or equals it, by code points.
pub open spec fn text_le(a: Seq<char>, b: Seq<char>) -> bool
    decreases a.len(),
{
    if a.len() == 0 {
        true
    } else if b.len() == 0 {
        false
    } else if a[0] != b[0] {
        a[0] < b[0]
    } else {
        text_le(a.drop_first(), b.drop_first())
    }
}

/// `a` comes strictly before `b`.
pub open spec fn text_lt(a: Seq<char>, b: Seq<char>) -> bool {
    text_le(a, b) && a != b
}

/// Pairs are ordered by the first part, then by the second.
pub open spec fn pair_le(a: (Seq<char>, Seq<char>), b: (Seq<char>, Seq<char>)) -> bool {
    if a.0 == b.0 {
        text_le(a.1, b.1)
    } else {
        text_le(a.0, b.0)
    }
}

pub proof fn lemma_text_le_reflexive(a: Seq<char>)
    ensures
        text_le(a, a),
    decreases a.len(),
{
    if a.len() > 0 {
        lemma_text_le_reflexive(a.drop_first());
    }
}

pub proof fn lemma_text_le_total(a: Seq<char>, b: Seq<char>)
    ensures
        text_le(a, b) || text_le(b, a),
    decreases a.len(),
{
    if a.len() > 0 && b.len() > 0 && a[0] == b[0] {
        lemma_text_le_total(a.drop_first(), b.drop_first());
    }
}

pub proof fn lemma_text_le_antisymmetric(a: Seq<char>, b: Seq<char>)
    requires
        text_le(a, b),
        text_le(b, a),
    ensures
        a == b,
    decreases a.len(),
{
    if a.len() > 0 && b.len() > 0 {
        lemma_text_le_antisymmetric(a.drop_first(), b.drop_first());
        assert(a =~= seq![a[0]] + a.drop_first());
        assert(b =~= seq![b[0]] + b.drop_first());
    } else {
        assert(a =~= b);
    }
}

pub proof fn lemma_text_le_transitive(a: Seq<char>, b: Seq<char>, c: Seq<char>)
    requires
        text_le(a, b),
        text_le(b, c),
    ensures
        text_le(a, c),
    decreases a.len(),
{
    if a.len() > 0 && b.len() > 0 && c.len() > 0 && a[0] == b[0] && b[0] == c[0] {
        lemma_text_le_transitive(a.drop_first(), b.drop_first(), c.drop_first());
    }
}

/// Types whose views have a total order that executable code can decide.
pub trait Ranked: View + Sized {
    spec fn rank_le(a: Self::V, b: Self::V) -> bool;

    proof fn lemma_rank_total()
        ensures
            total_ordering(|a: Self::V, b: Self::V| Self::rank_le(a, b)),
    ;

    fn le(&self, other: &Self) -> (r: bool)
        ensures
            r == Self::rank_le(self@, other@),
    ;
}

/// Whether `a` comes before `b` or equals it.
pub fn text_at_most(a: &str, b: &str) -> (r: bool)
    ensures
        r == text_le(a@, b@),
{
    let x = chars_of(a);
    let y = chars_of(b);
    let mut i: usize = 0;
    proof {
        assert(a@.skip(0) =~= a@);
        assert(b@.skip(0) =~= b@);
    }
    while i < x.len() && i < y.len() && x[i] == y[i]
        invariant
            x@ == a@,
            y@ == b@,
            i <= x@.len(),
            i <= y@.len(),
            text_le(a@.skip(i as int), b@.skip(i as int)) == text_le(a@, b@),
        decreases x@.len() - i,
    {
        proof {
            assert(a@.skip(i as int).drop_first() =~= a@.skip(i as int + 1));
            assert(b@.skip(i as int).drop_first() =~= b@.skip(i as int + 1));
        }
        i = i + 1;
    }
    if i == x.len() {
        true
    } else if i == y.len() {
        false
    } else {
        x[i] < y[i]
    }
}

impl Ranked for String {
    open spec fn rank_le(a: Seq<char>, b: Seq<char>) -> bool {
        text_le(a, b)
    }

    proof fn lemma_rank_total() {
        let leq = |a: Seq<char>, b: Seq<char>| Self::rank_le(a, b);
        assert forall|x: Seq<char>| #[trigger] leq(x, x) by {
            lemma_text_le_reflexive(x);
        }
        assert forall|x: Seq<char>, y: Seq<char>| #[trigger]
            leq(x, y) && #[trigger] leq(y, x) implies x == y by {
            lemma_text_le_antisymmetric(x, y);
        }
        assert forall|x: Seq<char>, y: Seq<char>, z: Seq<char>| #[trigger]
            leq(x, y) && #[trigger] leq(y, z) implies leq(x, z) by {
            lemma_text_le_transitive(x, y, z);
        }
        assert forall|x: Seq<char>, y: Seq<char>| #[trigger] leq(x, y) || #[trigger] leq(y, x) by {
            lemma_text_le_total(x, y);
        }
    }

    fn le(&self, other: &Self) -> (r: bool) {
        text_at_most(self.as_str(), other.as_str())
    }
}

impl Ranked for (String, String) {
    open spec fn rank_le(a: (Seq<char>, Seq<char>), b: (Seq<char>, Seq<char>)) -> bool {
        pair_le(a, b)
    }

    proof fn lemma_rank_total() {
        let leq = |a: (Seq<char>, Seq<char>), b: (Seq<char>, Seq<char>)| Self::rank_le(a, b);
        assert forall|x: (Seq<char>, Seq<char>)| #[trigger] leq(x, x) by {
            lemma_text_le_reflexive(x.1);
        }
        assert forall|x: (Seq<char>, Seq<char>), y: (Seq<char>, Seq<char>)| #[trigger]
            leq(x, y) && #[trigger] leq(y, x) implies x == y by {
            if x.0 == y.0 {
                lemma_text_le_antisymmetric(x.1, y.1);
            } else {
                lemma_text_le_antisymmetric(x.0, y.0);
            }
        }
        assert forall|
            x: (Seq<char>, Seq<char>),
            y: (Seq<char>, Seq<char>),
            z: (Seq<char>, Seq<char>),
        | #[trigger] leq(x, y) && #[trigger] leq(y, z) implies leq(x, z) by {
            if x.0 == y.0 && y.0 == z.0 {
                lemma_text_le_transitive(x.1, y.1, z.1);
            } else {
                if x.0 == z.0 {
                    lemma_text_le_antisymmetric(x.0, y.0);
                }
                if x.0 != y.0 && y.0 != z.0 {
                    lemma_text_le_transitive(x.0, y.0, z.0);
                }
            }
        }
        assert forall|x: (Seq<char>, Seq<char>), y: (Seq<char>, Seq<char>)| #[trigger]
            leq(x, y) || #[trigger] leq(y, x) by {
            lemma_text_le_total(x.0, y.0);
            lemma_text_le_total(x.1, y.1);
        }
    }

    fn le(&self, other: &Self) -> (r: bool) {
        if self.0 == other.0 {
            text_at_most(self.1.as_str(), other.1.as_str())
        } else {
            text_at_most(self.0.as_str(), other.0.as_str())
        }
    }
}

/// The items in ascending order.
pub open spec fn ascending<T: Ranked>(items: Seq<T::V>) -> Seq<T::V> {
    items.sort_by(|a: T::V, b: T::V| T::rank_le(a, b))
}

/// The texts in ascending order.
#[verifier::inline]
pub open spec fn sorted(items: Seq<Seq<char>>) -> Seq<Seq<char>> {
    ascending::<String>(items)
}

/// The pairs in ascending order.
#[verifier::inline]
pub open spec fn sorted_pairs(items: Seq<(Seq<char>, Seq<char>)>) -> Seq<(Seq<char>, Seq<char>)> {
    ascending::<(String, String)>(items)
}

fn insert_ranked<T: Ranked>(list: &mut Vec<T>, item: T)
    requires
        sorted_by(views(old(list)@), |a: T::V, b: T::V| T::rank_le(a, b)),
    ensures
        sorted_by(views(final(list)@), |a: T::V, b: T::V| T::rank_le(a, b)),
        views(final(list)@).to_multiset() == views(old(list)@).to_multiset().insert(item@),
{
    let ghost leq = |a: T::V, b: T::V| T::rank_le(a, b);
    let ghost before = views(list@);
    let mut at: usize = 0;
    while at < list.len() && list[at].le(&item)
        invariant
            at <= list@.len(),
            views(list@) == before,
            forall|k: int| 0 <= k < at ==> T::rank_le(before[k], item@),
        decreases list@.len() - at,
    {
        proof {
            assert(before[at as int] == list@[at as int]@);
        }
        at = at + 1;
    }
    let ghost key = item@;
    proof {
        T::lemma_rank_total();
        if at < list@.len() {
            assert(before[at as int] == list@[at as int]@);
            assert(leq(before[at as int], key) || leq(key, before[at as int]));
        }
    }
    list.insert(at, item);
    proof {
        let after = views(list@);
        assert(after =~= before.insert(at as int, key));
        to_multiset_insert(before, at as int, key);
        assert forall|i: int, j: int| 0 <= i < j < after.len() implies #[trigger] leq(
            after[i],
            after[j],
        ) by {
            if i < at && j < at {
                assert(leq(before[i], before[j]));
            } else if i < at && j == at {
            } else if i < at {
                assert(leq(before[i], before[j - 1]));
            } else if i == at {
                assert(leq(key, before[at as int]));
                if j - 1 > at {
                    assert(leq(before[at as int], before[j - 1]));
                    assert(leq(key, before[j - 1]));
                }
            } else {
                assert(leq(before[i - 1], before[j - 1]));
            }
        }
    }
}

/// The items of a list in ascending order.
pub fn sort_ranked<T: Ranked>(items: Vec<T>) -> (r: Vec<T>)
    ensures
        views(r@) == ascending::<T>(views(items@)),
{
    let ghost all = views(items@);
    let mut rest = items;
    let mut out: Vec<T> = Vec::new();
    proof {
        assert(views(out@) =~= Seq::empty());
        broadcast use group_to_multiset_ensures;
        broadcast use vstd::multiset::group_multiset_axioms;
        assert(views(out@).to_multiset() =~= vstd::multiset::Multiset::empty());
        assert(views(rest@).to_multiset().add(views(out@).to_multiset()) =~= all.to_multiset());
    }
    while rest.len() > 0
        invariant
            sorted_by(views(out@), |a: T::V, b: T::V| T::rank_le(a, b)),
            views(rest@).to_multiset().add(views(out@).to_multiset()) == all.to_multiset(),
        decreases rest@.len(),
    {
        let ghost rest_before = rest@;
        let ghost out_before = views(out@);
        let item = rest.pop().unwrap();
        let ghost key = item@;
        insert_ranked(&mut out, item);
        proof {
            broadcast use vstd::multiset::group_multiset_axioms;
            assert(views(rest_before) =~= views(rest@).push(key));
            to_multiset_build(views(rest@), key);
            assert(views(rest@).to_multiset().add(views(out@).to_multiset()) =~= views(
                rest_before,
            ).to_multiset().add(out_before.to_multiset()));
        }
    }
    proof {
        let leq = |a: T::V, b: T::V| T::rank_le(a, b);
        broadcast use group_to_multiset_ensures;
        broadcast use vstd::multiset::group_multiset_axioms;
        T::lemma_rank_total();
        assert(views(rest@) =~= Seq::empty());
        assert(views(rest@).to_multiset() =~= vstd::multiset::Multiset::empty());
        assert(views(out@).to_multiset() =~= all.to_multiset());
        all.lemma_sort_by_ensures(leq);
        lemma_sorted_unique(views(out@), all.sort_by(leq), leq);
    }
    out
}

/// Types whose items are put in order by a pair of texts; items with the same pair keep their
/// order.
pub trait SortKey: View + Sized {
    spec fn sort_key(item: Self::V) -> (Seq<char>, Seq<char>);

    fn key_at_most(&self, other: &Self) -> (r: bool)
        ensures
            r == pair_le(Self::sort_key(self@), Self::sort_key(other@)),
    ;
}

/// An item put behind the items that come before it or have the same key.
pub open spec fn inserted<T: SortKey>(list: Seq<T::V>, item: T::V) -> Seq<T::V>
    decreases list.len(),
{
    if list.len() == 0 || pair_le(T::sort_key(list.last()), T::sort_key(item)) {
        list.push(item)
    } else {
        inserted::<T>(list.drop_last(), item).push(list.last())
    }
}

/// The items by ascending key; items with the same key keep their order.
pub open spec fn keyed_order<T: SortKey>(items: Seq<T::V>) -> Seq<T::V>
    decreases items.len(),
{
    if items.len() == 0 {
        Seq::empty()
    } else {
        inserted::<T>(keyed_order::<T>(items.drop_last()), items.last())
    }
}

proof fn lemma_inserted_at<T: SortKey>(list: Seq<T::V>, item: T::V, at: int)
    requires
        0 <= at <= list.len(),
        at > 0 ==> pair_le(T::sort_key(list[at - 1]), T::sort_key(item)),
        forall|k: int|
            at <= k < list.len() ==> !pair_le(T::sort_key(#[trigger] list[k]), T::sort_key(item)),
    ensures
        inserted::<T>(list, item) == list.insert(at, item),
    decreases list.len(),
{
    if at == list.len() {
        assert(list.insert(at, item) =~= list.push(item));
    } else {
        let head = list.drop_last();
        assert(!pair_le(T::sort_key(list[list.len() - 1]), T::sort_key(item)));
        assert forall|k: int| at <= k < head.len() implies !pair_le(
            T::sort_key(#[trigger] head[k]),
            T::sort_key(item),
        ) by {
            assert(head[k] == list[k]);
        }
        lemma_inserted_at::<T>(head, item, at);
        assert(list.insert(at, item) =~= head.insert(at, item).push(list.last()));
    }
}

pub fn sort_by_key<T: SortKey>(items: Vec<T>) -> (r: Vec<T>)
    ensures
        views(r@) == keyed_order::<T>(views(items@)),
{
    let ghost all = views(items@);
    let count = items.len();
    let mut rest = items;
    let mut out: Vec<T> = Vec::new();
    let mut done: usize = 0;
    proof {
        assert(views(out@) =~= keyed_order::<T>(all.take(0)));
        assert(views(rest@) =~= all.skip(0));
    }
    while rest.len() > 0
        invariant
            done + rest@.len() == all.len(),
            all.len() == count,
            views(rest@) == all.skip(done as int),
            views(out@) == keyed_order::<T>(all.take(done as int)),
        decreases rest@.len(),
    {
        let ghost rest_before = rest@;
        let item = rest.remove(0);
        let ghost key = item@;
        proof {
            assert(views(rest_before)[0] == key);
            assert(key == all[done as int]);
            assert(views(rest@) =~= views(rest_before).drop_first());
            assert(views(rest@) =~= all.skip(done as int + 1));
            let upto = all.take(done as int + 1);
            assert(upto.drop_last() =~= all.take(done as int));
            assert(upto.last() == key);
        }
        let ghost before = views(out@);
        let mut at: usize = out.len();
        while at > 0 && !out[at - 1].key_at_most(&item)
            invariant
                at <= out@.len(),
                views(out@) == before,
                item@ == key,
                forall|k: int|
                    at <= k < before.len() ==> !pair_le(
                        T::sort_key(#[trigger] before[k]),
                        T::sort_key(key),
                    ),
            decreases at,
        {
            proof {
                assert(before[at - 1] == out@[at - 1]@);
            }
            at = at - 1;
        }
        proof {
            if at > 0 {
                assert(before[at - 1] == out@[at - 1]@);
            }
            lemma_inserted_at::<T>(before, key, at as int);
        }
        out.insert(at, item);
        proof {
            assert(views(out@) =~= before.insert(at as int, key));
        }
        done = done + 1;
    }
    proof {
        assert(all.take(all.len() as int) =~= all);
    }
    out
}

proof fn lemma_inserted_ascends<T: SortKey>(list: Seq<T::V>, item: T::V)
    requires
        forall|i: int, j: int|
            0 <= i < j < list.len() ==> pair_le(
                T::sort_key(#[trigger] list[i]),
                T::sort_key(#[trigger] list[j]),
            ),
    ensures
        ({
            let out = inserted::<T>(list, item);
            &&& out.to_multiset() == list.to_multiset().insert(item)
            &&& forall|i: int, j: int|
                0 <= i < j < out.len() ==> pair_le(
                    T::sort_key(#[trigger] out[i]),
                    T::sort_key(#[trigger] out[j]),
                )
        }),
    decreases list.len(),
{
    broadcast use group_to_multiset_ensures;

    let pairs = |a: (Seq<char>, Seq<char>), b: (Seq<char>, Seq<char>)|
        <(String, String) as Ranked>::rank_le(a, b);
    <(String, String) as Ranked>::lemma_rank_total();
    let out = inserted::<T>(list, item);
    if list.len() == 0 || pair_le(T::sort_key(list.last()), T::sort_key(item)) {
        assert forall|i: int, j: int| 0 <= i < j < out.len() implies pair_le(
            T::sort_key(#[trigger] out[i]),
            T::sort_key(#[trigger] out[j]),
        ) by {
            if j == list.len() && i < list.len() - 1 {
                assert(pair_le(T::sort_key(list[i]), T::sort_key(list[list.len() - 1])));
                assert(pairs(T::sort_key(list[i]), T::sort_key(list.last())));
                assert(pairs(T::sort_key(list.last()), T::sort_key(item)));
                assert(pairs(T::sort_key(list[i]), T::sort_key(item)));
            }
        }
    } else {
        let head = list.drop_last();
        assert forall|i: int, j: int| 0 <= i < j < head.len() implies pair_le(
            T::sort_key(#[trigger] head[i]),
            T::sort_key(#[trigger] head[j]),
        ) by {
            assert(pair_le(T::sort_key(list[i]), T::sort_key(list[j])));
        }
        lemma_inserted_ascends::<T>(head, item);
        let rest = inserted::<T>(head, item);
        assert(list =~= head.push(list.last()));
        assert(pairs(T::sort_key(list.last()), T::sort_key(item)) || pairs(
            T::sort_key(item),
            T::sort_key(list.last()),
        ));
        assert forall|i: int, j: int| 0 <= i < j < out.len() implies pair_le(
            T::sort_key(#[trigger] out[i]),
            T::sort_key(#[trigger] out[j]),
        ) by {
            if j == rest.len() {
                assert(rest.contains(rest[i]));
                assert(rest.to_multiset().contains(rest[i]));
                assert(head.to_multiset().insert(item).contains(rest[i]));
                if rest[i] != item {
                    assert(head.to_multiset().contains(rest[i]));
                    assert(head.contains(rest[i]));
                    let k = choose|k: int| 0 <= k < head.len() && head[k] == rest[i];
                    assert(pair_le(T::sort_key(list[k]), T::sort_key(list[list.len() - 1])));
                }
            }
        }
        assert(out.to_multiset() =~= list.to_multiset().insert(item));
    }
}

/// Putting items in order by key keeps every item, and gives ascending keys.
pub proof fn law_keyed_order<T: SortKey>(items: Seq<T::V>)
    ensures
        keyed_order::<T>(items).to_multiset() == items.to_multiset(),
        forall|i: int, j: int|
            0 <= i < j < items.len() ==> pair_le(
                T::sort_key(#[trigger] keyed_order::<T>(items)[i]),
                T::sort_key(#[trigger] keyed_order::<T>(items)[j]),
            ),
    decreases items.len(),
{
    broadcast use group_to_multiset_ensures;

    if items.len() > 0 {
        let head = items.drop_last();
        law_keyed_order::<T>(head);
        let before = keyed_order::<T>(head);
        assert(before.len() == head.len()) by {
            assert(before.to_multiset().len() == head.to_multiset().len());
        }
        lemma_inserted_ascends::<T>(before, items.last());
        assert(items =~= head.push(items.last()));
        assert(keyed_order::<T>(items).len() == items.len()) by {
            assert(keyed_order::<T>(items).to_multiset().len() == items.to_multiset().len());
        }
    }
}

/// Ascending lists of the same items are the same, where no two different items share a key.
proof fn lemma_ascending_unique<T: SortKey>(x: Seq<T::V>, y: Seq<T::V>)
    requires
        x.to_multiset() == y.to_multiset(),
        forall|i: int, j: int|
            0 <= i < j < x.len() ==> pair_le(
                T::sort_key(#[trigger] x[i]),
                T::sort_key(#[trigger] x[j]),
            ),
        forall|i: int, j: int|
            0 <= i < j < y.len() ==> pair_le(
                T::sort_key(#[trigger] y[i]),
                T::sort_key(#[trigger] y[j]),
            ),
        forall|a: T::V, b: T::V|
            #![trigger x.contains(a), x.contains(b)]
            x.contains(a) && x.contains(b) && T::sort_key(a) == T::sort_key(b) ==> a == b,
    ensures
        x == y,
    decreases x.len(),
{
    broadcast use group_to_multiset_ensures;
    broadcast use vstd::multiset::group_multiset_axioms;

    to_multiset_len(x);
    to_multiset_len(y);
    if x.len() > 0 {
        let n = x.len() - 1;
        let pairs = |a: (Seq<char>, Seq<char>), b: (Seq<char>, Seq<char>)|
            <(String, String) as Ranked>::rank_le(a, b);
        <(String, String) as Ranked>::lemma_rank_total();
        let (a, b) = (x[n], y[n]);
        assert(x.contains(a));
        assert(y.contains(b));
        assert(x.to_multiset().count(b) > 0);
        assert(y.to_multiset().count(a) > 0);
        assert(x.contains(b));
        assert(y.contains(a));
        let i = choose|i: int| 0 <= i < x.len() && x[i] == b;
        let j = choose|j: int| 0 <= j < y.len() && y[j] == a;
        assert(pairs(T::sort_key(a), T::sort_key(a)));
        assert(pairs(T::sort_key(b), T::sort_key(a))) by {
            if i < n {
                assert(pair_le(T::sort_key(x[i]), T::sort_key(x[n])));
            }
        }
        assert(pairs(T::sort_key(a), T::sort_key(b))) by {
            if j < n {
                assert(pair_le(T::sort_key(y[j]), T::sort_key(y[n])));
            }
        }
        assert(a == b);
        let head = x.drop_last();
        let tail = y.drop_last();
        assert(x =~= head.push(a));
        assert(y =~= tail.push(a));
        assert(head.to_multiset() =~= x.to_multiset().remove(a));
        assert(tail.to_multiset() =~= y.to_multiset().remove(a));
        assert forall|c: T::V| #[trigger] head.contains(c) implies x.contains(c) by {
            let k = choose|k: int| 0 <= k < head.len() && head[k] == c;
            assert(x[k] == c);
        }
        assert forall|k: int, m: int| 0 <= k < m < head.len() implies pair_le(
            T::sort_key(#[trigger] head[k]),
            T::sort_key(#[trigger] head[m]),
        ) by {
            assert(pair_le(T::sort_key(x[k]), T::sort_key(x[m])));
        }
        assert forall|k: int, m: int| 0 <= k < m < tail.len() implies pair_le(
            T::sort_key(#[trigger] tail[k]),
            T::sort_key(#[trigger] tail[m]),
        ) by {
            assert(pair_le(T::sort_key(y[k]), T::sort_key(y[m])));
        }
        lemma_ascending_unique::<T>(head, tail);
    } else {
        assert(x =~= y);
    }
}

/// The order in which items come plays no part when they are put in order by key, where no two
/// different items share a key.
pub proof fn law_keyed_order_is_unique<T: SortKey>(a: Seq<T::V>, b: Seq<T::V>)
    requires
        a.to_multiset() == b.to_multiset(),
        forall|x: T::V, y: T::V|
            #![trigger a.contains(x), a.contains(y)]
            a.contains(x) && a.contains(y) && T::sort_key(x) == T::sort_key(y) ==> x == y,
    ensures
        keyed_order::<T>(a) == keyed_order::<T>(b),
{
    broadcast use group_to_multiset_ensures;

    law_keyed_order::<T>(a);
    law_keyed_order::<T>(b);
    let x = keyed_order::<T>(a);
    let y = keyed_order::<T>(b);
    assert(x.len() == a.len()) by {
        assert(x.to_multiset().len() == a.to_multiset().len());
    }
    assert(y.len() == b.len()) by {
        assert(y.to_multiset().len() == b.to_multiset().len());
    }
    assert forall|c: T::V| #[trigger] x.contains(c) implies a.contains(c) by {
        assert(x.to_multiset().count(c) > 0);
    }
    lemma_ascending_unique::<T>(x, y);
}

/// What is made of each item of a list does not depend on the order of the list.
pub proof fn lemma_mapped_permutation<A, B>(a: Seq<A>, b: Seq<A>, f: spec_fn(A) -> B)
    requires
        a.to_multiset() == b.to_multiset(),
    ensures
        a.map_values(f).to_multiset() == b.map_values(f).to_multiset(),
{
    broadcast use vstd::multiset::group_multiset_axioms;

    let step = |item: A, bag: Multiset<B>| bag.insert(f(item));
    assert forall|x: A, y: A, v: Multiset<B>| #[trigger] step(x, step(y, v)) == step(
        y,
        step(x, v),
    ) by {
        assert(step(x, step(y, v)) =~= step(y, step(x, v)));
    }
    lemma_fold_right_permutation(a, b, step, Multiset::empty());
    lemma_mapped_fold(a, f, Multiset::empty());
    lemma_mapped_fold(b, f, Multiset::empty());
    let (x, y) = (a.map_values(f), b.map_values(f));
    assert(Multiset::<B>::empty().add(x.to_multiset()) =~= x.to_multiset());
    assert(Multiset::<B>::empty().add(y.to_multiset()) =~= y.to_multiset());
}

proof fn lemma_mapped_fold<A, B>(items: Seq<A>, f: spec_fn(A) -> B, start: Multiset<B>)
    ensures
        items.fold_right(|item: A, bag: Multiset<B>| bag.insert(f(item)), start) == start.add(
            items.map_values(f).to_multiset(),
        ),
    decreases items.len(),
{
    broadcast use group_to_multiset_ensures;
    broadcast use vstd::multiset::group_multiset_axioms;

    let mapped = items.map_values(f);
    if items.len() == 0 {
        assert(start.add(mapped.to_multiset()) =~= start);
    } else {
        let rest = items.drop_last();
        let next = start.insert(f(items.last()));
        lemma_mapped_fold(rest, f, next);
        assert(mapped =~= rest.map_values(f).push(f(items.last())));
        assert(next.add(rest.map_values(f).to_multiset()) =~= start.add(mapped.to_multiset()));
    }
}

/// The items without immediate repetitions.
pub open spec fn deduped(items: Seq<Seq<char>>) -> Seq<Seq<char>>
    decreases items.len(),
{
    if items.len() <= 1 {
        items
    } else if items.last() == items[items.len() - 2] {
        deduped(items.drop_last())
    } else {
        deduped(items.drop_last()).push(items.last())
    }
}

/// The distinct texts in ascending order.
pub open spec fn distinct_sorted(items: Seq<Seq<char>>) -> Seq<Seq<char>> {
    deduped(sorted(items))
}

pub proof fn lemma_deduped_last(items: Seq<Seq<char>>)
    ensures
        items.len() > 0 ==> deduped(items).len() > 0 && deduped(items).last() == items.last(),
        items.len() == 0 ==> deduped(items).len() == 0,
    decreases items.len(),
{
    if items.len() > 1 {
        lemma_deduped_last(items.drop_last());
    }
}

/// Sorting and dropping repetitions gives strictly ascending texts, and the same set of them.
pub proof fn law_distinct_sorted(items: Seq<Seq<char>>)
    ensures
        forall|i: int, j: int|
            0 <= i < j < distinct_sorted(items).len() ==> text_lt(
                #[trigger] distinct_sorted(items)[i],
                #[trigger] distinct_sorted(items)[j],
            ),
        forall|t: Seq<char>| distinct_sorted(items).contains(t) <==> items.contains(t),
{
    let leq = |a: Seq<char>, b: Seq<char>| <String as Ranked>::rank_le(a, b);
    <String as Ranked>::lemma_rank_total();
    items.lemma_sort_by_ensures(leq);
    let s = sorted(items);
    lemma_deduped_ascends(s);
    assert forall|t: Seq<char>| s.contains(t) <==> items.contains(t) by {
        broadcast use group_to_multiset_ensures;
        broadcast use vstd::multiset::group_multiset_axioms;
        assert(s.to_multiset().count(t) == items.to_multiset().count(t));
    }
}

proof fn lemma_deduped_ascends(s: Seq<Seq<char>>)
    requires
        sorted_by(s, |a: Seq<char>, b: Seq<char>| <String as Ranked>::rank_le(a, b)),
    ensures
        forall|i: int, j: int|
            0 <= i < j < deduped(s).len() ==> text_lt(
                #[trigger] deduped(s)[i],
                #[trigger] deduped(s)[j],
            ),
        forall|t: Seq<char>| deduped(s).contains(t) <==> s.contains(t),
    decreases s.len(),
{
    let leq = |a: Seq<char>, b: Seq<char>| <String as Ranked>::rank_le(a, b);
    if s.len() > 1 {
        let head = s.drop_last();
        assert forall|i: int, j: int| 0 <= i < j < head.len() implies #[trigger] leq(
            head[i],
            head[j],
        ) by {
            assert(leq(s[i], s[j]));
        }
        lemma_deduped_ascends(head);
        lemma_deduped_last(head);
        let d = deduped(head);
        assert(s =~= head.push(s.last()));
        if s.last() == s[s.len() - 2] {
            assert forall|t: Seq<char>| d.contains(t) <==> s.contains(t) by {
                if s.contains(t) {
                    let k = choose|k: int| 0 <= k < s.len() && s[k] == t;
                    if k == s.len() - 1 {
                        assert(head[s.len() - 2] == t);
                    } else {
                        assert(head[k] == t);
                    }
                    assert(head.contains(t));
                }
                if head.contains(t) {
                    let k = choose|k: int| 0 <= k < head.len() && head[k] == t;
                    assert(s[k] == t);
                }
            }
        } else {
            assert(leq(s[s.len() - 2], s[s.len() - 1]));
            let all = d.push(s.last());
            assert forall|i: int, j: int| 0 <= i < j < all.len() implies text_lt(
                #[trigger] all[i],
                #[trigger] all[j],
            ) by {
                if j == d.len() {
                    if i < d.len() - 1 {
                        assert(text_lt(d[i], d[d.len() - 1]));
                    } else {
                        lemma_text_le_reflexive(d[i]);
                    }
                    lemma_text_le_transitive(d[i], d.last(), s.last());
                    if d[i] == s.last() {
                        lemma_text_le_antisymmetric(d.last(), s.last());
                    }
                }
            }
            assert forall|t: Seq<char>| all.contains(t) <==> s.contains(t) by {
                if all.contains(t) {
                    let k = choose|k: int| 0 <= k < all.len() && all[k] == t;
                    if k == d.len() {
                        assert(s[s.len() - 1] == t);
                    } else {
                        assert(d[k] == t);
                        assert(deduped(head).contains(t));
                        assert(head.contains(t));
                        let m = choose|m: int| 0 <= m < head.len() && head[m] == t;
                        assert(s[m] == t);
                    }
                }
                if s.contains(t) {
                    let k = choose|k: int| 0 <= k < s.len() && s[k] == t;
                    if k == s.len() - 1 {
                        assert(all[d.len() as int] == t);
                    } else {
                        assert(head[k] == t);
                        assert(head.contains(t));
                        assert(deduped(head).contains(t));
                        let m = choose|m: int| 0 <= m < d.len() && d[m] == t;
                        assert(all[m] == t);
                    }
                }
            }
        }
    }
}

/// The distinct texts of a list in ascending order.
pub fn sort_distinct(items: Vec<String>) -> (r: Vec<String>)
    ensures
        texts(r@) == distinct_sorted(texts(items@)),
{
    let list = sort_ranked(items);
    let ghost all = views(list@);
    let mut out: Vec<String> = Vec::new();
    proof {
        assert(views(out@) =~= deduped(all.take(0)));
    }
    for i in 0..list.len()
        invariant
            all == views(list@),
            views(out@) == deduped(all.take(i as int)),
    {
        let ghost before = out@;
        proof {
            let upto = all.take(i as int + 1);
            assert(upto.drop_last() =~= all.take(i as int));
            assert(upto.last() == list@[i as int]@);
            if i > 0 {
                assert(upto[upto.len() - 2] == list@[i - 1]@);
            }
        }
        if i == 0 || list[i] != list[i - 1] {
            out.push(list[i].clone());
            proof {
                assert(views(out@) =~= views(before).push(list@[i as int]@));
                if i == 0 {
                    assert(views(out@) =~= all.take(1));
                }
            }
        }
    }
    proof {
        assert(all.take(list@.len() as int) =~= all);
    }
    out
}

} // verus!
