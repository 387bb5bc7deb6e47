use vstd::prelude::*;
use std::collections::HashSet;
use vstd::std_specs::iter::IteratorSpec;

verus! {

broadcast use vstd::std_specs::hash::group_hash_axioms;

/// The widgets whose own layout properties changed since their layout caches were last
/// invalidated.
pub struct DirtyWidgets {
    dirty: HashSet<u64>,
}

impl DirtyWidgets {
    /// The widgets marked dirty.
    pub closed spec fn view(&self) -> Set<u64> {
        self.dirty@
    }

    pub fn new() -> (d: Self)
        ensures
            d.view() == Set::<u64>::empty(),
    {
        Self { dirty: HashSet::new() }
    }

    /// Marks widgets dirty.
    pub fn mark_dirty(&mut self, ids: &Vec<u64>)
        ensures
            final(self).view() == old(self).view() + ids@.to_set(),
    {
        let mut i: usize = 0;
        while i < ids.len()
            invariant
                i <= ids.len(),
                self.dirty@ == old(self).dirty@ + ids@.take(i as int).to_set(),
            decreases ids.len() - i,
        {
            self.dirty.insert(ids[i]);
            proof {
                assert(ids@.take(i + 1) == ids@.take(i as int).push(ids@[i as int]));
                ids@.take(i as int).lemma_push_to_set_commute(ids@[i as int]);
                assert(self.dirty@ =~= old(self).dirty@ + ids@.take(i + 1).to_set());
            }
            i += 1;
        }
        proof {
            assert(ids@.take(ids.len() as int) == ids@);
        }
    }

    /// Takes the dirty widgets, each once, in no particular order, leaving none marked.
    pub fn take(&mut self) -> (ids: Vec<u64>)
        ensures
            ids@.to_set() == old(self).view(),
            ids@.no_duplicates(),
            final(self).view() == Set::<u64>::empty(),
    {
        let ghost ks = vstd::std_specs::hash::spec_hash_keys_iter(&self.dirty).remaining().unref();
        let mut ids: Vec<u64> = Vec::new();
        for id in it: self.dirty.iter()
            invariant
                ids.len() == it.index(),
                it.seq().unref() == ks,
                forall|i: int| 0 <= i < ids.len() ==> ids@[i] == ks[i],
        {
            ids.push(*id);
        }
        proof {
            assert(ids@ =~= ks);
        }
        self.dirty.clear();
        ids
    }
}

} // verus!
