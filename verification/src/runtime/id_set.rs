//! Sets of identifiers.

use vstd::prelude::*;

verus! {

pub struct IdSet {
    ids: Vec<u64>,
}

impl View for IdSet {
    type V = Set<u64>;

    closed spec fn view(&self) -> Set<u64> {
        Set::new(|id: u64| self.ids@.contains(id))
    }
}

impl IdSet {
    /// Whether each member is held once.
    pub closed spec fn wf(&self) -> bool {
        self.ids@.no_duplicates()
    }

    pub fn new() -> (set: Self)
        ensures
            set.wf(),
            set@ == Set::<u64>::empty(),
    {
        let set = IdSet { ids: Vec::new() };
        assert(set@ =~= Set::<u64>::empty());
        set
    }

    fn find(&self, id: u64) -> (found: Option<usize>)
        ensures
            match found {
                Some(at) => at < self.ids@.len() && self.ids@[at as int] == id,
                None => !self@.contains(id),
            },
    {
        let mut i: usize = 0;
        while i < self.ids.len()
            invariant
                i <= self.ids@.len(),
                forall|j: int| 0 <= j < i ==> self.ids@[j] != id,
            decreases self.ids@.len() - i,
        {
            if self.ids[i] == id {
                return Some(i);
            }
            i = i + 1;
        }
        None
    }

    pub fn contains(&self, id: u64) -> (held: bool)
        ensures
            held == self@.contains(id),
    {
        match self.find(id) {
            Some(at) => {
                assert(self.ids@[at as int] == id);
                true
            },
            None => false,
        }
    }

    /// Adds an identifier, and says whether it is new.
    pub fn insert(&mut self, id: u64) -> (added: bool)
        requires
            old(self).wf(),
        ensures
            final(self).wf(),
            final(self)@ == old(self)@.insert(id),
            added == !old(self)@.contains(id),
    {
        if self.contains(id) {
            assert(self@ =~= old(self)@.insert(id));
            return false;
        }
        self.ids.push(id);
        proof {
            let before = old(self).ids@;
            assert(self.ids@[before.len() as int] == id);
            assert forall|other: u64| self@.contains(other) == old(self)@.insert(id).contains(
                other,
            ) by {
                if before.contains(other) {
                    let j = choose|j: int| 0 <= j < before.len() && before[j] == other;
                    assert(self.ids@[j] == other);
                }
            }
            assert(self@ =~= old(self)@.insert(id));
        }
        true
    }

    /// Removes an identifier, and says whether it was there.
    pub fn remove(&mut self, id: u64) -> (removed: bool)
        requires
            old(self).wf(),
        ensures
            final(self).wf(),
            final(self)@ == old(self)@.remove(id),
            removed == old(self)@.contains(id),
    {
        match self.find(id) {
            Some(at) => {
                let taken: u64 = self.ids.remove(at);
                proof {
                    let before = old(self).ids@;
                    let after = self.ids@;
                    assert(before[at as int] == id);
                    assert forall|other: u64| self@.contains(other) == old(self)@.remove(
                        id,
                    ).contains(other) by {
                        if before.contains(other) && other != id {
                            let j = choose|j: int| 0 <= j < before.len() && before[j] == other;
                            assert(after[if j < at { j } else { j - 1 }] == other);
                        }
                        if after.contains(other) {
                            let j = choose|j: int| 0 <= j < after.len() && after[j] == other;
                            assert(before[if j < at { j } else { j + 1 }] == other);
                        }
                    }
                    assert(self@ =~= old(self)@.remove(id));
                }
                taken == id
            },
            None => {
                assert(self@ =~= old(self)@.remove(id));
                false
            },
        }
    }

    pub fn clear(&mut self)
        ensures
            final(self).wf(),
            final(self)@ == Set::<u64>::empty(),
    {
        self.ids.clear();
        assert(self@ =~= Set::<u64>::empty());
    }
}

} // verus!
