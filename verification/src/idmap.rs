//! Values by daemon.
use vstd::prelude::*;

use crate::daemon::{DaemonId, IdView};
use crate::lists;

verus! {

/// A value for each of some daemons.
#[derive(Debug)]
pub struct IdMap<T> {
    entries: Vec<(DaemonId, T)>,
}

spec fn entry_ids<T>(entries: Seq<(DaemonId, T)>) -> Seq<IdView> {
    entries.map_values(|e: (DaemonId, T)| e.0@)
}

impl<T> View for IdMap<T> {
    type V = Map<IdView, T>;

    closed spec fn view(&self) -> Map<IdView, T> {
        let ids = entry_ids(self.entries@);
        Map::new(|id: IdView| ids.contains(id), |id: IdView| self.entries@[ids.index_of(id)].1)
    }
}

proof fn lemma_index_of(ids: Seq<IdView>, i: int)
    requires
        ids.no_duplicates(),
        0 <= i < ids.len(),
    ensures
        ids.contains(ids[i]),
        ids.index_of(ids[i]) == i,
{
    let k = ids.index_of(ids[i]);
    assert(0 <= k < ids.len() && ids[k] == ids[i]);
}

impl<T> IdMap<T> {
    #[verifier::type_invariant]
    spec fn distinct(self) -> bool {
        entry_ids(self.entries@).no_duplicates()
    }

    pub fn new() -> (r: Self)
        ensures
            r@ == Map::<IdView, T>::empty(),
    {
        let r = IdMap { entries: Vec::new() };
        assert(r@ =~= Map::<IdView, T>::empty());
        r
    }

    fn find(&self, id: &DaemonId) -> (r: Option<usize>)
        ensures
            match r {
                Some(i) => i < self.entries@.len() && self.entries@[i as int].0@ == id@,
                None => !entry_ids(self.entries@).contains(id@),
            },
    {
        let mut i: usize = 0;
        while i < self.entries.len()
            invariant
                i <= self.entries@.len(),
                forall|k: int| 0 <= k < i ==> (#[trigger] entry_ids(self.entries@)[k]) != id@,
            decreases self.entries@.len() - i,
        {
            if self.entries[i].0.same(id) {
                return Some(i);
            }
            i += 1;
        }
        None
    }

    /// The value of a daemon, where it has one.
    pub fn get(&self, id: &DaemonId) -> (r: Option<&T>)
        ensures
            match r {
                Some(value) => self@.dom().contains(id@) && *value == self@[id@],
                None => !self@.dom().contains(id@),
            },
    {
        proof {
            use_type_invariant(self);
        }
        match self.find(id) {
            Some(i) => {
                proof {
                    lemma_index_of(entry_ids(self.entries@), i as int);
                }
                Some(&self.entries[i].1)
            },
            None => None,
        }
    }

    /// Gives a daemon a value, and hands back the one that it had before.
    pub fn insert(&mut self, id: &DaemonId, value: T) -> (r: Option<T>)
        ensures
            final(self)@ == old(self)@.insert(id@, value),
            match r {
                Some(before) => old(self)@.dom().contains(id@) && before == old(self)@[id@],
                None => !old(self)@.dom().contains(id@),
            },
    {
        proof {
            use_type_invariant(&*self);
        }
        let found = self.find(id);
        let ghost before = self.entries@;
        let ghost ids = entry_ids(before);
        let ghost goal = self@.insert(id@, value);
        let mut entries: Vec<(DaemonId, T)> = Vec::new();
        std::mem::swap(&mut entries, &mut self.entries);
        let replaced = match found {
            Some(i) => {
                let mut slot = value;
                std::mem::swap(&mut slot, &mut entries[i].1);
                proof {
                    lemma_index_of(ids, i as int);
                    assert(entry_ids(entries@) =~= ids);
                }
                Some(slot)
            },
            None => {
                entries.push((id.clone(), value));
                proof {
                    assert(entry_ids(entries@) =~= ids.push(id@));
                    lists::lemma_push_distinct(ids, id@);
                }
                None
            },
        };
        *self = IdMap { entries };
        proof {
            let after = entry_ids(self.entries@);
            assert forall|k: IdView| self@.dom().contains(k) == goal.dom().contains(k) by {
                lists::lemma_push_contains(ids, id@, k);
            }
            assert forall|k: IdView| self@.dom().contains(k) implies self@[k] == goal[k] by {
                let i = after.index_of(k);
                assert(after[i] == k);
                lemma_index_of(after, i);
                if i < ids.len() {
                    assert(ids[i] == k);
                    lemma_index_of(ids, i);
                }
            }
            assert(self@ =~= goal);
        }
        replaced
    }
}

} // verus!
