//! A set of transaction ids.
use crate::seqs;
use crate::tx::Txid;
use vstd::prelude::*;

verus! {

/// A set of transaction ids.
#[derive(Debug)]
pub struct TxidSet {
    ids: Vec<Txid>,
}

impl View for TxidSet {
    type V = Set<Txid>;

    closed spec fn view(&self) -> Set<Txid> {
        self.ids@.to_set()
    }
}

impl TxidSet {
    /// The empty set.
    pub fn new() -> (set: TxidSet)
        ensures
            set@ == Set::<Txid>::empty(),
    {
        let set = TxidSet { ids: Vec::new() };
        assert(set@ =~= Set::<Txid>::empty());
        set
    }

    /// The set of the ids in a list.
    pub fn from_ids(ids: &Vec<Txid>) -> (set: TxidSet)
        ensures
            set@ == ids@.to_set(),
    {
        let mut set = TxidSet::new();
        assert(ids@.take(0).to_set() =~= Set::<Txid>::empty());
        for i in 0..ids.len()
            invariant
                set@ == ids@.take(i as int).to_set(),
        {
            let ghost before = ids@.take(i as int);
            set.insert(ids[i]);
            assert(ids@.take(i + 1) =~= before.push(ids@[i as int]));
            assert(before.push(ids@[i as int]).to_set() =~= before.to_set().insert(ids@[i as int]))
                by {
                seqs::lemma_push_to_set(before, ids@[i as int]);
            }
        }
        assert(ids@.take(ids@.len() as int) =~= ids@);
        set
    }

    /// Whether nothing is in the set.
    pub fn is_empty(&self) -> (r: bool)
        ensures
            r == (self@ == Set::<Txid>::empty()),
    {
        if self.ids.len() == 0 {
            assert(self@ =~= Set::<Txid>::empty());
            true
        } else {
            assert(self.ids@.contains(self.ids@[0]));
            assert(self@.contains(self.ids@[0]));
            false
        }
    }

    /// Whether `id` is in the set.
    pub fn contains(&self, id: &Txid) -> (r: bool)
        ensures
            r == self@.contains(*id),
    {
        for i in 0..self.ids.len()
            invariant
                forall|j: int| 0 <= j < i ==> self.ids@[j] != *id,
        {
            if self.ids[i].same(id) {
                assert(self.ids@.contains(*id));
                return true;
            }
        }
        false
    }

    /// Adds `id`; says whether it was missing.
    pub fn insert(&mut self, id: Txid) -> (added: bool)
        ensures
            final(self)@ == old(self)@.insert(id),
            added == !old(self)@.contains(id),
    {
        if self.contains(&id) {
            assert(self@.insert(id) =~= self@);
            false
        } else {
            let ghost before = self.ids@;
            self.ids.push(id);
            proof {
                seqs::lemma_push_to_set(before, id);
            }
            true
        }
    }

    /// Takes `id` out; says whether it was there.
    pub fn remove(&mut self, id: &Txid) -> (removed: bool)
        ensures
            final(self)@ == old(self)@.remove(*id),
            removed == old(self)@.contains(*id),
    {
        let removed = self.contains(id);
        let mut kept: Vec<Txid> = Vec::new();
        for i in 0..self.ids.len()
            invariant
                self.ids@ == old(self).ids@,
                kept@.to_set() == self.ids@.take(i as int).to_set().remove(*id),
        {
            let ghost before = self.ids@.take(i as int);
            let ghost kept_before = kept@;
            let one = self.ids[i];
            proof {
                assert(self.ids@.take(i + 1) =~= before.push(one));
                seqs::lemma_push_to_set(before, one);
                seqs::lemma_push_to_set(kept_before, one);
            }
            if !one.same(id) {
                kept.push(one);
            }
            assert(kept@.to_set() =~= self.ids@.take(i + 1).to_set().remove(*id));
        }
        assert(self.ids@.take(self.ids@.len() as int) =~= self.ids@);
        self.ids = kept;
        removed
    }
}

} // verus!
