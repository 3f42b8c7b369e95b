//! A set of texts.

use vstd::prelude::*;

use crate::text::{contains_text, lemma_push_contains, same, texts};

verus! {

/// A set of texts, each of which is kept once.
#[derive(Debug)]
pub struct TextSet {
    items: Vec<String>,
}

impl View for TextSet {
    type V = Set<Seq<char>>;

    closed spec fn view(&self) -> Set<Seq<char>> {
        texts(self.items@).to_set()
    }
}

impl TextSet {
    #[verifier::type_invariant]
    spec fn inv(self) -> bool {
        texts(self.items@).no_duplicates()
    }

    pub fn new() -> (r: Self)
        ensures
            r@ == Set::<Seq<char>>::empty(),
    {
        let r = TextSet { items: Vec::new() };
        proof {
            assert(r@ =~= Set::empty());
        }
        r
    }

    /// How many texts there are.
    pub fn len(&self) -> (r: usize)
        ensures
            self@.finite(),
            r == self@.len(),
    {
        proof {
            use_type_invariant(self);
            texts(self.items@).unique_seq_to_set();
            vstd::seq_lib::seq_to_set_is_finite(texts(self.items@));
            assert(texts(self.items@).len() == self.items@.len());
        }
        self.items.len()
    }

    pub fn contains(&self, text: &str) -> (r: bool)
        ensures
            r == self@.contains(text@),
    {
        contains_text(&self.items, text)
    }

    /// Adds a text, unless it is there.
    pub fn insert(&mut self, text: &str)
        ensures
            final(self)@ == old(self)@.insert(text@),
    {
        proof {
            use_type_invariant(&*self);
        }
        if self.contains(text) {
            proof {
                assert(self@.insert(text@) =~= self@);
            }
            return;
        }
        let mut items: Vec<String> = Vec::new();
        core::mem::swap(&mut items, &mut self.items);
        let ghost before = texts(items@);
        items.push(text.to_owned());
        proof {
            assert(texts(items@) =~= before.push(text@));
            lemma_push_contains(before, text@);
            assert(!before.contains(text@));
            assert(before.push(text@).no_duplicates());
            assert(texts(items@).to_set() =~= before.to_set().insert(text@));
        }
        self.items = items;
    }

    /// Takes a text out, where it is there.
    pub fn remove(&mut self, text: &str)
        ensures
            final(self)@ == old(self)@.remove(text@),
    {
        proof {
            use_type_invariant(&*self);
        }
        let mut kept: Vec<String> = Vec::new();
        let ghost all = texts(self.items@);
        for i in 0..self.items.len()
            invariant
                all == texts(self.items@),
                all.no_duplicates(),
                texts(kept@).no_duplicates(),
                forall|x: Seq<char>|
                    texts(kept@).contains(x) <==> (all.take(i as int).contains(x) && x != text@),
        {
            let ghost before = texts(kept@);
            let ghost item = self.items@[i as int]@;
            proof {
                assert(all[i as int] == item);
                assert(all.take(i as int + 1) =~= all.take(i as int).push(item));
                lemma_push_contains(all.take(i as int), item);
                assert(!all.take(i as int).contains(item));
            }
            if !same(self.items[i].as_str(), text) {
                kept.push(self.items[i].clone());
                proof {
                    assert(texts(kept@) =~= before.push(item));
                    lemma_push_contains(before, item);
                    assert(!before.contains(item));
                }
            }
        }
        proof {
            assert(all.take(all.len() as int) =~= all);
            assert(texts(kept@).to_set() =~= all.to_set().remove(text@));
        }
        self.items = kept;
    }
}

} // verus!
