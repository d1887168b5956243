//! The table of actions: at most one action for each control.
use vstd::prelude::*;

use crate::config::{Action, ActionView, ControlId};

verus! {

/// The actions of the controls, at most one for each.
#[derive(Debug)]
pub struct Mappings {
    entries: Vec<(ControlId, Action)>,
}

/// Whether `id` is the control of the entry at `i`.
pub open spec fn entry_is(e: Seq<(ControlId, Action)>, i: int, id: ControlId) -> bool {
    0 <= i < e.len() && e[i].0 == id
}

/// No control occurs twice.
pub open spec fn distinct(e: Seq<(ControlId, Action)>) -> bool {
    forall|i: int, j: int| 0 <= i < j < e.len() ==> e[i].0 != e[j].0
}

/// The map that a list of entries with distinct controls stands for.
pub open spec fn as_map(e: Seq<(ControlId, Action)>) -> Map<ControlId, ActionView> {
    Map::new(
        |id: ControlId| exists|i: int| entry_is(e, i, id),
        |id: ControlId| e[choose|i: int| entry_is(e, i, id)].1@,
    )
}

proof fn lemma_entry(e: Seq<(ControlId, Action)>, i: int)
    requires
        distinct(e),
        0 <= i < e.len(),
    ensures
        as_map(e).dom().contains(e[i].0),
        as_map(e)[e[i].0] == e[i].1@,
{
    assert(entry_is(e, i, e[i].0));
    let k = choose|k: int| entry_is(e, k, e[i].0);
    assert(entry_is(e, k, e[i].0));
}

proof fn lemma_len(e: Seq<(ControlId, Action)>)
    requires
        distinct(e),
    ensures
        as_map(e).dom().finite(),
        as_map(e).len() == e.len(),
{
    let ids = e.map_values(|p: (ControlId, Action)| p.0);
    assert(ids.no_duplicates());
    ids.unique_seq_to_set();
    vstd::seq_lib::seq_to_set_is_finite(ids);
    assert(as_map(e).dom() =~= ids.to_set()) by {
        assert forall|id: ControlId| as_map(e).dom().contains(id) implies ids.contains(id) by {
            let i = choose|i: int| entry_is(e, i, id);
            assert(ids[i] == id);
        }
        assert forall|id: ControlId| ids.contains(id) implies as_map(e).dom().contains(id) by {
            let i = choose|i: int| 0 <= i < ids.len() && ids[i] == id;
            assert(entry_is(e, i, id));
        }
    }
}

impl View for Mappings {
    type V = Map<ControlId, ActionView>;

    closed spec fn view(&self) -> Map<ControlId, ActionView> {
        as_map(self.entries@)
    }
}

impl Mappings {
    #[verifier::type_invariant]
    spec fn well_formed(self) -> bool {
        distinct(self.entries@)
    }

    /// The table without any action.
    pub fn new() -> (r: Mappings)
        ensures
            r@ == Map::<ControlId, ActionView>::empty(),
    {
        let r = Mappings { entries: Vec::new() };
        assert(r@ =~= Map::<ControlId, ActionView>::empty());
        r
    }

    /// The number of controls that have an action.
    pub fn len(&self) -> (n: usize)
        ensures
            self@.dom().finite(),
            n == self@.len(),
    {
        proof {
            use_type_invariant(self);
            lemma_len(self.entries@);
        }
        self.entries.len()
    }

    /// The position of a control's entry.
    fn position(&self, id: ControlId) -> (r: Option<usize>)
        ensures
            match r {
                Some(i) => entry_is(self.entries@, i as int, id),
                None => !self@.dom().contains(id),
            },
    {
        let mut i: usize = 0;
        while i < self.entries.len()
            invariant
                i <= self.entries@.len(),
                forall|j: int| 0 <= j < i ==> !entry_is(self.entries@, j, id),
            decreases self.entries@.len() - i,
        {
            if self.entries[i].0 == id {
                return Some(i);
            }
            i += 1;
        }
        None
    }

    /// The action of a control.
    pub fn get(&self, id: &ControlId) -> (r: Option<&Action>)
        ensures
            match r {
                Some(a) => self@.dom().contains(*id) && self@[*id] == a@,
                None => !self@.dom().contains(*id),
            },
    {
        match self.position(*id) {
            Some(i) => {
                proof {
                    use_type_invariant(self);
                    lemma_entry(self.entries@, i as int);
                }
                Some(&self.entries[i].1)
            },
            None => None,
        }
    }

    /// Whether a control has an action.
    pub fn contains_key(&self, id: &ControlId) -> (r: bool)
        ensures
            r == self@.dom().contains(*id),
    {
        self.get(id).is_some()
    }

    /// Gives a control its action, in place of an earlier one.
    pub fn insert(&mut self, id: ControlId, action: Action)
        ensures
            final(self)@ == old(self)@.insert(id, action@),
    {
        proof {
            use_type_invariant(&*self);
        }
        let ghost before = self.entries@;
        let at = self.position(id);
        let mut entries: Vec<(ControlId, Action)> = Vec::new();
        std::mem::swap(&mut entries, &mut self.entries);
        match at {
            Some(i) => {
                entries.set(i, (id, action));
            },
            None => {
                assert forall|j: int| 0 <= j < before.len() implies before[j].0 != id by {
                    lemma_entry(before, j);
                }
                entries.push((id, action));
            },
        }
        let ghost after = entries@;
        assert(distinct(after));
        assert(as_map(after) =~= as_map(before).insert(id, action@)) by {
            let m = as_map(before).insert(id, action@);
            assert forall|x: ControlId| as_map(after).dom().contains(x) <==> m.dom().contains(
                x,
            ) by {
                if as_map(after).dom().contains(x) {
                    let k = choose|k: int| entry_is(after, k, x);
                    if x != id {
                        assert(entry_is(before, k, x));
                    }
                }
                if m.dom().contains(x) {
                    if x == id {
                        let k = match at {
                            Some(i) => i as int,
                            None => before.len() as int,
                        };
                        assert(entry_is(after, k, x));
                    } else {
                        let k = choose|k: int| entry_is(before, k, x);
                        assert(entry_is(after, k, x));
                    }
                }
            }
            assert forall|x: ControlId| m.dom().contains(x) implies as_map(after)[x] == m[x] by {
                let k = choose|k: int| entry_is(after, k, x);
                assert(entry_is(after, k, x));
                lemma_entry(after, k);
                if x != id {
                    assert(entry_is(before, k, x));
                    lemma_entry(before, k);
                }
            }
        }
        self.entries = entries;
    }
}

} // verus!
