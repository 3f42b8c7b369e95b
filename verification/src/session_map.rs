//! Values kept by session.

use vstd::prelude::*;

use crate::runtime::{ResolvedRuntime, ResolvedRuntimeView};
use crate::text::same;

verus! {

/// What identifies a session: the runtime, its qualifier and the session's own identifier.
#[derive(Debug, PartialEq, Eq, Hash)]
pub struct SessionKey {
    pub runtime_arn: String,
    pub qualifier: String,
    pub runtime_session_id: String,
}

#[verifier::ext_equal]
pub struct SessionKeyView {
    pub runtime_arn: Seq<char>,
    pub qualifier: Seq<char>,
    pub runtime_session_id: Seq<char>,
}

impl View for SessionKey {
    type V = SessionKeyView;

    open spec fn view(&self) -> SessionKeyView {
        SessionKeyView {
            runtime_arn: self.runtime_arn@,
            qualifier: self.qualifier@,
            runtime_session_id: self.runtime_session_id@,
        }
    }
}

impl Clone for SessionKey {
    fn clone(&self) -> (r: Self)
        ensures
            r@ == self@,
    {
        SessionKey {
            runtime_arn: self.runtime_arn.clone(),
            qualifier: self.qualifier.clone(),
            runtime_session_id: self.runtime_session_id.clone(),
        }
    }
}

/// The key of a session of a runtime.
pub open spec fn key_of(runtime: ResolvedRuntimeView, runtime_session_id: Seq<char>) -> SessionKeyView {
    SessionKeyView {
        runtime_arn: runtime.runtime_arn,
        qualifier: runtime.qualifier,
        runtime_session_id,
    }
}

impl SessionKey {
    pub fn new(runtime: &ResolvedRuntime, runtime_session_id: String) -> (r: Self)
        ensures
            r@ == key_of(runtime@, runtime_session_id@),
    {
        SessionKey {
            runtime_arn: runtime.runtime_arn.clone(),
            qualifier: runtime.qualifier.clone(),
            runtime_session_id,
        }
    }

    pub fn same_as(&self, other: &SessionKey) -> (r: bool)
        ensures
            r == (self@ == other@),
    {
        same(self.runtime_arn.as_str(), other.runtime_arn.as_str()) && same(
            self.qualifier.as_str(),
            other.qualifier.as_str(),
        ) && same(self.runtime_session_id.as_str(), other.runtime_session_id.as_str())
    }
}

/// No two items have the same key.
pub open spec fn distinct_keys<V>(items: Seq<(SessionKey, V)>) -> bool {
    forall|i: int, j: int|
        0 <= i < j < items.len() ==> (#[trigger] items[i]).0@ != (#[trigger] items[j]).0@
}

/// The map that a list of keys and values stands for.
pub open spec fn mapped<V: View>(items: Seq<(SessionKey, V)>) -> Map<SessionKeyView, V::V>
    decreases items.len(),
{
    if items.len() == 0 {
        Map::empty()
    } else {
        mapped(items.drop_last()).insert(items.last().0@, items.last().1@)
    }
}

pub proof fn lemma_mapped_key<V: View>(items: Seq<(SessionKey, V)>, key: SessionKeyView)
    ensures
        mapped(items).contains_key(key) <==> exists|i: int|
            0 <= i < items.len() && (#[trigger] items[i]).0@ == key,
    decreases items.len(),
{
    if items.len() > 0 {
        let head = items.drop_last();
        lemma_mapped_key(head, key);
        if exists|i: int| 0 <= i < items.len() && (#[trigger] items[i]).0@ == key {
            let i = choose|i: int| 0 <= i < items.len() && (#[trigger] items[i]).0@ == key;
            if i < head.len() {
                assert(head[i] == items[i]);
            }
        }
        if exists|i: int| 0 <= i < head.len() && (#[trigger] head[i]).0@ == key {
            let i = choose|i: int| 0 <= i < head.len() && (#[trigger] head[i]).0@ == key;
            assert(items[i] == head[i]);
        }
        if items.last().0@ == key {
            assert(items[items.len() - 1].0@ == key);
        }
    }
}

pub proof fn lemma_mapped_value<V: View>(items: Seq<(SessionKey, V)>, i: int)
    requires
        distinct_keys(items),
        0 <= i < items.len(),
    ensures
        mapped(items).contains_key(items[i].0@),
        mapped(items)[items[i].0@] == items[i].1@,
    decreases items.len(),
{
    if i < items.len() - 1 {
        let head = items.drop_last();
        assert forall|a: int, b: int| 0 <= a < b < head.len() implies (#[trigger] head[a]).0@ != (
        #[trigger] head[b]).0@ by {
            assert(items[a].0@ != items[b].0@);
        }
        assert(head[i] == items[i]);
        lemma_mapped_value(head, i);
        assert(items[i].0@ != items[items.len() - 1].0@);
    }
}

/// Two lists with distinct keys stand for the same map where each item of one is in the other,
/// apart from one key.
proof fn lemma_mapped_differs_at<V: View>(
    a: Seq<(SessionKey, V)>,
    b: Seq<(SessionKey, V)>,
    key: SessionKeyView,
)
    requires
        distinct_keys(a),
        distinct_keys(b),
        forall|i: int|
            0 <= i < a.len() && (#[trigger] a[i]).0@ != key ==> exists|j: int|
                0 <= j < b.len() && #[trigger] b[j] == a[i],
        forall|j: int|
            0 <= j < b.len() && (#[trigger] b[j]).0@ != key ==> exists|i: int|
                0 <= i < a.len() && #[trigger] a[i] == b[j],
    ensures
        mapped(a).remove(key) == mapped(b).remove(key),
{
    let x = mapped(a).remove(key);
    let y = mapped(b).remove(key);
    assert forall|k: SessionKeyView| #[trigger] x.dom().contains(k) implies y.dom().contains(k)
        && x[k] == y[k] by {
        lemma_mapped_key(a, k);
        let i = choose|i: int| 0 <= i < a.len() && (#[trigger] a[i]).0@ == k;
        let j = choose|j: int| 0 <= j < b.len() && #[trigger] b[j] == a[i];
        lemma_mapped_value(a, i);
        lemma_mapped_value(b, j);
    }
    assert forall|k: SessionKeyView| #[trigger] y.dom().contains(k) implies x.dom().contains(k) by {
        lemma_mapped_key(b, k);
        let j = choose|j: int| 0 <= j < b.len() && (#[trigger] b[j]).0@ == k;
        let i = choose|i: int| 0 <= i < a.len() && #[trigger] a[i] == b[j];
        lemma_mapped_value(a, i);
    }
    assert(x =~= y);
}

/// A map from sessions to values.
pub struct SessionMap<V> {
    items: Vec<(SessionKey, V)>,
}

impl<V: View> View for SessionMap<V> {
    type V = Map<SessionKeyView, V::V>;

    closed spec fn view(&self) -> Map<SessionKeyView, V::V> {
        mapped(self.items@)
    }
}

impl<V> SessionMap<V> {
    #[verifier::type_invariant]
    spec fn inv(self) -> bool {
        distinct_keys(self.items@)
    }
}

impl<V: View> SessionMap<V> {
    /// The keys in the order in which they are kept.
    pub closed spec fn keys(&self) -> Seq<SessionKeyView> {
        self.items@.map_values(|item: (SessionKey, V)| item.0@)
    }

    pub fn new() -> (r: Self)
        ensures
            r@ == Map::<SessionKeyView, V::V>::empty(),
    {
        SessionMap { items: Vec::new() }
    }

    /// How many keys there are. Each is kept once, and they are the keys of the map.
    pub fn len(&self) -> (r: usize)
        ensures
            r == self.keys().len(),
            self.keys().no_duplicates(),
            forall|key: SessionKeyView| self.keys().contains(key) <==> self@.contains_key(key),
    {
        proof {
            use_type_invariant(self);
            assert forall|i: int, j: int|
                0 <= i < self.keys().len() && 0 <= j < self.keys().len() && i
                    != j implies self.keys()[i] != self.keys()[j] by {
                if i < j {
                    assert(self.items@[i].0@ != self.items@[j].0@);
                } else {
                    assert(self.items@[j].0@ != self.items@[i].0@);
                }
            }
            assert forall|key: SessionKeyView|
                self.keys().contains(key) <==> self@.contains_key(key) by {
                lemma_mapped_key(self.items@, key);
                if self@.contains_key(key) {
                    let i = choose|i: int|
                        0 <= i < self.items@.len() && (#[trigger] self.items@[i]).0@ == key;
                    assert(self.keys()[i] == key);
                }
                if self.keys().contains(key) {
                    let i = choose|i: int| 0 <= i < self.keys().len() && self.keys()[i] == key;
                    assert(self.items@[i].0@ == key);
                }
            }
        }
        self.items.len()
    }

    /// The key and value at a place.
    pub fn at(&self, i: usize) -> (r: (&SessionKey, &V))
        requires
            i < self.keys().len(),
        ensures
            r.0@ == self.keys()[i as int],
            self@.contains_key(r.0@),
            r.1@ == self@[r.0@],
    {
        proof {
            use_type_invariant(self);
            lemma_mapped_value(self.items@, i as int);
        }
        (&self.items[i].0, &self.items[i].1)
    }

    fn find(&self, key: &SessionKey) -> (r: Option<usize>)
        ensures
            match r {
                Some(i) => i < self.items@.len() && self.items@[i as int].0@ == key@,
                None => !self@.contains_key(key@),
            },
    {
        for i in 0..self.items.len()
            invariant
                forall|k: int| 0 <= k < i ==> (#[trigger] self.items@[k]).0@ != key@,
        {
            if self.items[i].0.same_as(key) {
                return Some(i);
            }
        }
        proof {
            lemma_mapped_key(self.items@, key@);
        }
        None
    }

    pub fn get(&self, key: &SessionKey) -> (r: Option<&V>)
        ensures
            match r {
                Some(value) => self@.contains_key(key@) && value@ == self@[key@],
                None => !self@.contains_key(key@),
            },
    {
        match self.find(key) {
            Some(i) => {
                proof {
                    use_type_invariant(self);
                    lemma_mapped_value(self.items@, i as int);
                }
                Some(&self.items[i].1)
            },
            None => None,
        }
    }

    pub fn remove(&mut self, key: &SessionKey) -> (r: Option<V>)
        ensures
            final(self)@ == old(self)@.remove(key@),
            match r {
                Some(value) => old(self)@.contains_key(key@) && value@ == old(self)@[key@],
                None => !old(self)@.contains_key(key@),
            },
    {
        proof {
            use_type_invariant(&*self);
        }
        match self.find(key) {
            None => {
                proof {
                    assert(self@.remove(key@) =~= self@);
                }
                None
            },
            Some(i) => {
                let mut items: Vec<(SessionKey, V)> = Vec::new();
                core::mem::swap(&mut items, &mut self.items);
                let ghost before = items@;
                let (_, value) = items.remove(i);
                proof {
                    let after = items@;
                    assert(after =~= before.remove(i as int));
                    assert forall|a: int, b: int| 0 <= a < b < after.len() implies (
                    #[trigger] after[a]).0@ != (#[trigger] after[b]).0@ by {
                        let a2 = if a < i { a } else { a + 1 };
                        let b2 = if b < i { b } else { b + 1 };
                        assert(before[a2].0@ != before[b2].0@);
                    }
                    assert forall|a: int|
                        0 <= a < before.len() && (#[trigger] before[a]).0@
                            != key@ implies exists|b: int|
                        0 <= b < after.len() && #[trigger] after[b] == before[a] by {
                        let b = if a < i { a } else { a - 1 };
                        assert(after[b] == before[a]);
                    }
                    assert forall|b: int|
                        0 <= b < after.len() && (#[trigger] after[b]).0@
                            != key@ implies exists|a: int|
                        0 <= a < before.len() && #[trigger] before[a] == after[b] by {
                        let a = if b < i { b } else { b + 1 };
                        assert(before[a] == after[b]);
                    }
                    lemma_mapped_differs_at(before, after, key@);
                    lemma_mapped_value(before, i as int);
                    lemma_mapped_key(after, key@);
                    assert(!mapped(after).contains_key(key@)) by {
                        if mapped(after).contains_key(key@) {
                            let b = choose|b: int|
                                0 <= b < after.len() && (#[trigger] after[b]).0@ == key@;
                            let a = if b < i { b } else { b + 1 };
                            assert(before[a].0@ == key@);
                            assert(before[i as int].0@ == key@);
                            if a < i {
                                assert(before[a].0@ != before[i as int].0@);
                            } else {
                                assert(before[i as int].0@ != before[a].0@);
                            }
                        }
                    }
                    assert(mapped(after).remove(key@) =~= mapped(after));
                }
                self.items = items;
                Some(value)
            },
        }
    }

    pub fn insert(&mut self, key: SessionKey, value: V)
        ensures
            final(self)@ == old(self)@.insert(key@, value@),
    {
        let ghost all = self@;
        let _ = self.remove(&key);
        proof {
            use_type_invariant(&*self);
        }
        let mut items: Vec<(SessionKey, V)> = Vec::new();
        core::mem::swap(&mut items, &mut self.items);
        let ghost before = items@;
        let ghost added = (key, value);
        items.push((key, value));
        proof {
            lemma_mapped_key(before, key@);
            assert(items@.drop_last() =~= before);
            assert forall|a: int, b: int| 0 <= a < b < items@.len() implies (
            #[trigger] items@[a]).0@ != (#[trigger] items@[b]).0@ by {
                if b == before.len() {
                    assert(before[a].0@ != key@);
                } else {
                    assert(before[a].0@ != before[b].0@);
                }
            }
            assert(all.remove(key@).insert(key@, value@) =~= all.insert(key@, value@));
        }
        self.items = items;
    }
}

} // verus!
