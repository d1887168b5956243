//! Tables that are looked up by a text.
use vstd::prelude::*;

use crate::text::same;

verus! {

/// A table that holds at most one value for each text.
#[derive(Debug)]
pub struct Table<V> {
    entries: Vec<(String, V)>,
}

/// Whether `key` is the text of the entry at `i`.
pub open spec fn holds<V>(e: Seq<(String, V)>, i: int, key: Seq<char>) -> bool {
    0 <= i < e.len() && e[i].0@ == key
}

/// No text occurs twice.
pub open spec fn no_repeats<V>(e: Seq<(String, V)>) -> bool {
    forall|i: int, j: int| 0 <= i < j < e.len() ==> e[i].0@ != e[j].0@
}

/// The map that a list of entries without repeats stands for.
pub open spec fn map_of<V>(e: Seq<(String, V)>) -> Map<Seq<char>, V> {
    Map::new(
        |key: Seq<char>| exists|i: int| holds(e, i, key),
        |key: Seq<char>| e[choose|i: int| holds(e, i, key)].1,
    )
}

/// An entry of the list is an entry of the map.
pub proof fn lemma_holds<V>(e: Seq<(String, V)>, i: int)
    requires
        no_repeats(e),
        0 <= i < e.len(),
    ensures
        map_of(e).dom().contains(e[i].0@),
        map_of(e)[e[i].0@] == e[i].1,
{
    assert(holds(e, i, e[i].0@));
    let k = choose|k: int| holds(e, k, e[i].0@);
    assert(holds(e, k, e[i].0@));
}

impl<V> View for Table<V> {
    type V = Map<Seq<char>, V>;

    closed spec fn view(&self) -> Map<Seq<char>, V> {
        map_of(self.entries@)
    }
}

impl<V> Table<V> {
    #[verifier::type_invariant]
    spec fn well_formed(self) -> bool {
        no_repeats(self.entries@)
    }

    /// The empty table.
    pub fn new() -> (r: Table<V>)
        ensures
            r@ == Map::<Seq<char>, V>::empty(),
    {
        let r = Table { entries: Vec::new() };
        assert(r@ =~= Map::<Seq<char>, V>::empty());
        r
    }

    fn position(&self, key: &str) -> (r: Option<usize>)
        ensures
            match r {
                Some(i) => holds(self.entries@, i as int, key@),
                None => !self@.dom().contains(key@),
            },
    {
        let mut i: usize = 0;
        while i < self.entries.len()
            invariant
                i <= self.entries@.len(),
                forall|j: int| 0 <= j < i ==> !holds(self.entries@, j, key@),
            decreases self.entries@.len() - i,
        {
            if same(self.entries[i].0.as_str(), key) {
                return Some(i);
            }
            i += 1;
        }
        None
    }

    /// The value for a text.
    pub fn get(&self, key: &str) -> (r: Option<&V>)
        ensures
            match r {
                Some(v) => self@.dom().contains(key@) && self@[key@] == *v,
                None => !self@.dom().contains(key@),
            },
    {
        match self.position(key) {
            Some(i) => {
                proof {
                    use_type_invariant(self);
                    lemma_holds(self.entries@, i as int);
                }
                Some(&self.entries[i].1)
            },
            None => None,
        }
    }

    /// Gives a text its value, in place of an earlier one.
    pub fn insert(&mut self, key: String, value: V)
        ensures
            final(self)@ == old(self)@.insert(key@, value),
    {
        proof {
            use_type_invariant(&*self);
        }
        let ghost before = self.entries@;
        let ghost k = key@;
        let at = self.position(key.as_str());
        let mut entries: Vec<(String, V)> = Vec::new();
        std::mem::swap(&mut entries, &mut self.entries);
        match at {
            Some(i) => {
                entries.set(i, (key, value));
            },
            None => {
                assert forall|j: int| 0 <= j < before.len() implies before[j].0@ != k by {
                    lemma_holds(before, j);
                }
                entries.push((key, value));
            },
        }
        let ghost after = entries@;
        assert(no_repeats(after));
        assert(map_of(after) =~= map_of(before).insert(k, value)) by {
            let m = map_of(before).insert(k, value);
            let n = match at {
                Some(i) => i as int,
                None => before.len() as int,
            };
            assert forall|x: Seq<char>| map_of(after).dom().contains(x) <==> m.dom().contains(x) by {
                if map_of(after).dom().contains(x) && x != k {
                    let j = choose|j: int| holds(after, j, x);
                    assert(holds(before, j, x));
                }
                if m.dom().contains(x) {
                    if x == k {
                        assert(holds(after, n, x));
                    } else {
                        let j = choose|j: int| holds(before, j, x);
                        assert(holds(after, j, x));
                    }
                }
            }
            assert forall|x: Seq<char>| m.dom().contains(x) implies map_of(after)[x] == m[x] by {
                let j = choose|j: int| holds(after, j, x);
                assert(holds(after, j, x));
                lemma_holds(after, j);
                if x != k {
                    assert(holds(before, j, x));
                    lemma_holds(before, j);
                }
            }
        }
        self.entries = entries;
    }

    /// Empties the table. The result is what it held.
    pub fn take_all(&mut self) -> (r: Vec<(String, V)>)
        ensures
            no_repeats(r@),
            map_of(r@) == old(self)@,
            final(self)@ == Map::<Seq<char>, V>::empty(),
    {
        proof {
            use_type_invariant(&*self);
        }
        let mut entries: Vec<(String, V)> = Vec::new();
        assert(map_of(entries@) =~= Map::<Seq<char>, V>::empty());
        std::mem::swap(&mut entries, &mut self.entries);
        entries
    }
}

} // verus!
