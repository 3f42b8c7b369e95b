//! A table of names and values, as found on images, containers and requests.

use vstd::prelude::*;

use crate::text::same;

verus! {

/// Names with their values; a later entry replaces an earlier one of the same name.
#[derive(Debug)]
pub struct Labels {
    entries: Vec<(String, String)>,
}

/// The table that a list of entries stands for.
pub open spec fn table(entries: Seq<(String, String)>) -> Map<Seq<char>, Seq<char>>
    decreases entries.len(),
{
    if entries.len() == 0 {
        Map::empty()
    } else {
        table(entries.drop_last()).insert(entries.last().0@, entries.last().1@)
    }
}

impl View for Labels {
    type V = Map<Seq<char>, Seq<char>>;

    closed spec fn view(&self) -> Map<Seq<char>, Seq<char>> {
        table(self.entries@)
    }
}

/// What a table holds under a name.
pub open spec fn lookup(labels: Map<Seq<char>, Seq<char>>, name: Seq<char>) -> Option<Seq<char>> {
    if labels.contains_key(name) {
        Some(labels[name])
    } else {
        None
    }
}

impl Labels {
    pub fn new() -> (r: Self)
        ensures
            r@ == Map::<Seq<char>, Seq<char>>::empty(),
    {
        Labels { entries: Vec::new() }
    }

    pub fn insert(&mut self, name: String, value: String)
        ensures
            final(self)@ == old(self)@.insert(name@, value@),
    {
        let ghost before = self.entries@;
        self.entries.push((name, value));
        proof {
            assert(self.entries@.drop_last() =~= before);
        }
    }

    pub fn get(&self, name: &str) -> (r: Option<&String>)
        ensures
            match r {
                Some(value) => lookup(self@, name@) == Some(value@),
                None => lookup(self@, name@) is None,
            },
    {
        let mut i: usize = self.entries.len();
        proof {
            assert(self.entries@.take(i as int) =~= self.entries@);
        }
        while i > 0
            invariant
                i <= self.entries@.len(),
                lookup(table(self.entries@.take(i as int)), name@) == lookup(self@, name@),
            decreases i,
        {
            proof {
                assert(self.entries@.take(i as int).drop_last() =~= self.entries@.take(i - 1));
                assert(self.entries@.take(i as int).last() == self.entries@[i - 1]);
            }
            i = i - 1;
            if same(self.entries[i].0.as_str(), name) {
                return Some(&self.entries[i].1);
            }
        }
        None
    }

    pub fn remove(&mut self, name: &str)
        ensures
            final(self)@ == old(self)@.remove(name@),
    {
        let ghost all = self.entries@;
        let mut kept: Vec<(String, String)> = Vec::new();
        for i in 0..self.entries.len()
            invariant
                self.entries@ == all,
                table(kept@) == table(all.take(i as int)).remove(name@),
        {
            let ghost before = kept@;
            let entry = &self.entries[i];
            proof {
                assert(all.take(i as int + 1).drop_last() =~= all.take(i as int));
            }
            if !same(entry.0.as_str(), name) {
                kept.push((entry.0.clone(), entry.1.clone()));
                proof {
                    assert(kept@.drop_last() =~= before);
                }
            }
            proof {
                assert(table(kept@) =~= table(all.take(i as int + 1)).remove(name@));
            }
        }
        proof {
            assert(all.take(all.len() as int) =~= all);
        }
        self.entries = kept;
    }

    /// Whether the table holds exactly this value under the name.
    pub fn holds(&self, name: &str, value: &str) -> (r: bool)
        ensures
            r == (lookup(self@, name@) == Some(value@)),
    {
        match self.get(name) {
            Some(found) => same(found.as_str(), value),
            None => false,
        }
    }

    /// The entries of the table; of two with one name the later counts.
    pub fn to_pairs(&self) -> (r: Vec<(String, String)>)
        ensures
            table(r@) == self@,
    {
        let mut out: Vec<(String, String)> = Vec::new();
        for i in 0..self.entries.len()
            invariant
                table(out@) == table(self.entries@.take(i as int)),
        {
            let ghost before = out@;
            out.push((self.entries[i].0.clone(), self.entries[i].1.clone()));
            proof {
                assert(out@.drop_last() =~= before);
                assert(self.entries@.take(i as int + 1).drop_last() =~= self.entries@.take(
                    i as int,
                ));
            }
        }
        proof {
            assert(self.entries@.take(self.entries@.len() as int) =~= self.entries@);
        }
        out
    }

    /// The table of a list of pairs; of two pairs with one name the later counts.
    pub fn from_pairs(pairs: Vec<(String, String)>) -> (r: Self)
        ensures
            r@ == table(pairs@),
    {
        Labels { entries: pairs }
    }
}

} // verus!
