use vstd::prelude::*;

use crate::types::{ControlId, NativeHandle};

verus! {

/// A finite map keyed by `ControlId`, stored as a list of entries with unique keys.
pub struct IdMap<V> {
    entries: Vec<(ControlId, V)>,
    model: Ghost<Map<ControlId, V>>,
}

impl<V> View for IdMap<V> {
    type V = Map<ControlId, V>;

    closed spec fn view(&self) -> Map<ControlId, V> {
        self.model@
    }
}

impl<V: Copy> IdMap<V> {
    /// The entries agree with the model: keys are unique, every entry is in the
    /// model with its value, and every key of the model has an entry.
    pub closed spec fn wf(&self) -> bool {
        &&& forall|i: int, j: int|
            0 <= i < j < self.entries@.len() ==> #[trigger] self.entries@[i].0
                != #[trigger] self.entries@[j].0
        &&& forall|i: int|
            0 <= i < self.entries@.len() ==> self.model@.contains_key(#[trigger] self.entries@[i].0)
                && self.model@[self.entries@[i].0] == self.entries@[i].1
        &&& forall|k: ControlId|
            #[trigger] self.model@.contains_key(k) ==> exists|i: int|
                0 <= i < self.entries@.len() && #[trigger] self.entries@[i].0 == k
    }

    pub fn new() -> (r: Self)
        ensures
            r.wf(),
            r@ == Map::<ControlId, V>::empty(),
    {
        IdMap { entries: Vec::new(), model: Ghost(Map::empty()) }
    }

    /// Position of `k` among the entries, if present.
    fn position(&self, k: ControlId) -> (r: Option<usize>)
        requires
            self.wf(),
        ensures
            match r {
                Some(i) => i < self.entries@.len() && self.entries@[i as int].0 == k,
                None => !self@.contains_key(k),
            },
    {
        let mut i: usize = 0;
        while i < self.entries.len()
            invariant
                self.wf(),
                i <= self.entries@.len(),
                forall|j: int| 0 <= j < i ==> self.entries@[j].0 != k,
            decreases self.entries@.len() - i,
        {
            if self.entries[i].0 == k {
                return Some(i);
            }
            i = i + 1;
        }
        None
    }

    pub fn len(&self) -> (r: usize)
        requires
            self.wf(),
        ensures
            r == self@.len(),
    {
        proof {
            self.lemma_len();
        }
        self.entries.len()
    }

    proof fn lemma_len(&self)
        requires
            self.wf(),
        ensures
            self@.len() == self.entries@.len(),
    {
        let keys = self.entries@.map_values(|e: (ControlId, V)| e.0);
        assert(keys.no_duplicates()) by {
            assert forall|i: int, j: int| 0 <= i < keys.len() && 0 <= j < keys.len() && i != j
                implies keys[i] != keys[j] by {
                if i < j {
                    assert(self.entries@[i].0 != self.entries@[j].0);
                } else {
                    assert(self.entries@[j].0 != self.entries@[i].0);
                }
            }
        }
        assert(keys.to_set() =~= self@.dom()) by {
            assert forall|k: ControlId| keys.to_set().contains(k) implies self@.dom().contains(k) by {
                let i = choose|i: int| 0 <= i < keys.len() && keys[i] == k;
                assert(self.entries@[i].0 == k);
            }
            assert forall|k: ControlId| self@.dom().contains(k) implies keys.to_set().contains(k) by {
                let i = choose|i: int| 0 <= i < self.entries@.len() && #[trigger] self.entries@[i].0 == k;
                assert(keys[i] == k);
            }
        }
        keys.unique_seq_to_set();
    }

    /// Every key, once.
    pub fn keys(&self) -> (r: Vec<ControlId>)
        requires
            self.wf(),
        ensures
            forall|k: ControlId| self@.contains_key(k) <==> r@.contains(k),
    {
        let mut out: Vec<ControlId> = Vec::new();
        let mut i: usize = 0;
        while i < self.entries.len()
            invariant
                self.wf(),
                i <= self.entries@.len(),
                out@.len() == i,
                forall|j: int| 0 <= j < i ==> out@[j] == #[trigger] self.entries@[j].0,
            decreases self.entries@.len() - i,
        {
            out.push(self.entries[i].0);
            i = i + 1;
        }
        assert forall|k: ControlId| self@.contains_key(k) <==> out@.contains(k) by {
            if self@.contains_key(k) {
                let j = choose|j: int| 0 <= j < self.entries@.len() && #[trigger] self.entries@[j].0 == k;
                assert(out@[j] == k);
            }
            if out@.contains(k) {
                let j = choose|j: int| 0 <= j < out@.len() && out@[j] == k;
                assert(self.entries@[j].0 == k);
            }
        }
        out
    }

    pub fn contains_key(&self, k: ControlId) -> (r: bool)
        requires
            self.wf(),
        ensures
            r == self@.contains_key(k),
    {
        match self.position(k) {
            Some(_) => true,
            None => false,
        }
    }

    pub fn get(&self, k: ControlId) -> (r: Option<V>)
        requires
            self.wf(),
        ensures
            r == (if self@.contains_key(k) { Some(self@[k]) } else { None::<V> }),
    {
        match self.position(k) {
            Some(i) => Some(self.entries[i].1),
            None => None,
        }
    }

    /// Adds `k -> v`, replacing any value that `k` had.
    pub fn insert(&mut self, k: ControlId, v: V)
        requires
            old(self).wf(),
        ensures
            final(self).wf(),
            final(self)@ == old(self)@.insert(k, v),
    {
        let ghost old_entries = self.entries@;
        match self.position(k) {
            Some(i) => {
                self.entries.set(i, (k, v));
                self.model = Ghost(self.model@.insert(k, v));
                assert forall|k2: ControlId| #[trigger] self.model@.contains_key(k2) implies exists|j: int|
                    0 <= j < self.entries@.len() && #[trigger] self.entries@[j].0 == k2 by {
                    if k2 != k {
                        let j = choose|j: int| 0 <= j < old_entries.len() && #[trigger] old_entries[j].0 == k2;
                        assert(self.entries@[j].0 == k2);
                    } else {
                        assert(self.entries@[i as int].0 == k2);
                    }
                }
            },
            None => {
                self.entries.push((k, v));
                self.model = Ghost(self.model@.insert(k, v));
                assert forall|k2: ControlId| #[trigger] self.model@.contains_key(k2) implies exists|j: int|
                    0 <= j < self.entries@.len() && #[trigger] self.entries@[j].0 == k2 by {
                    if k2 != k {
                        let j = choose|j: int| 0 <= j < old_entries.len() && #[trigger] old_entries[j].0 == k2;
                        assert(self.entries@[j].0 == k2);
                    } else {
                        assert(self.entries@[old_entries.len() as int].0 == k2);
                    }
                }
            },
        }
    }

    /// Removes `k` if present.
    pub fn remove(&mut self, k: ControlId)
        requires
            old(self).wf(),
        ensures
            final(self).wf(),
            final(self)@ == old(self)@.remove(k),
    {
        let ghost old_entries = self.entries@;
        match self.position(k) {
            Some(i) => {
                self.entries.remove(i);
                self.model = Ghost(self.model@.remove(k));
                assert forall|a: int, b: int|
                    0 <= a < b < self.entries@.len() implies #[trigger] self.entries@[a].0
                    != #[trigger] self.entries@[b].0 by {
                    let a0 = if a < i { a } else { a + 1 };
                    let b0 = if b < i { b } else { b + 1 };
                    assert(old_entries[a0].0 != old_entries[b0].0);
                }
                assert forall|j: int| 0 <= j < self.entries@.len() implies self.model@.contains_key(
                    #[trigger] self.entries@[j].0) && self.model@[self.entries@[j].0]
                    == self.entries@[j].1 by {
                    let j0 = if j < i { j } else { j + 1 };
                    assert(old_entries[j0].0 != old_entries[i as int].0);
                }
                assert forall|k2: ControlId| #[trigger] self.model@.contains_key(k2) implies exists|j: int|
                    0 <= j < self.entries@.len() && #[trigger] self.entries@[j].0 == k2 by {
                    let j0 = choose|j: int| 0 <= j < old_entries.len() && #[trigger] old_entries[j].0 == k2;
                    if j0 < i {
                        assert(self.entries@[j0].0 == k2);
                    } else {
                        assert(self.entries@[j0 - 1].0 == k2);
                    }
                }
            },
            None => {
                assert(self.model@.remove(k) =~= self.model@);
            },
        }
    }
}

impl IdMap<NativeHandle> {
    /// Reverse lookup: some key whose value is `h`, by a linear scan.
    pub fn find_key_by_value(&self, h: NativeHandle) -> (r: Option<ControlId>)
        requires
            self.wf(),
        ensures
            match r {
                Some(k) => self@.contains_key(k) && self@[k] == h,
                None => forall|k: ControlId| #[trigger] self@.contains_key(k) ==> self@[k] != h,
            },
    {
        let mut i: usize = 0;
        while i < self.entries.len()
            invariant
                self.wf(),
                i <= self.entries@.len(),
                forall|j: int| 0 <= j < i ==> self.entries@[j].1 != h,
            decreases self.entries@.len() - i,
        {
            if self.entries[i].1 == h {
                return Some(self.entries[i].0);
            }
            i = i + 1;
        }
        assert forall|k: ControlId| #[trigger] self@.contains_key(k) implies self@[k] != h by {
            let j = choose|j: int| 0 <= j < self.entries@.len() && #[trigger] self.entries@[j].0 == k;
        }
        None
    }
}

} // verus!
