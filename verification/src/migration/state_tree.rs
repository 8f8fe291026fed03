//! The state tree held as plain values: every actor's record under its
//! address, in a stable order.

use vstd::prelude::*;

use super::assoc::{
    distinct_keys, has_key, lemma_pairs_map_keys, lemma_pairs_map_push, lemma_pairs_map_update,
    lemma_pairs_map_value, pairs_map,
};
use crate::address::Address;
use crate::econ::TokenAmount;
use crate::ipld::Cid;

verus! {

/// What an actor's record says.
pub struct ActorStateView {
    pub code: Cid,
    pub head: Cid,
    pub balance: int,
    pub sequence: u64,
}

/// An actor's record in the state tree.
#[derive(Debug, PartialEq, Eq)]
pub struct ActorState {
    /// The identifier of the actor's code.
    pub code: Cid,
    /// The identifier of the actor's own state.
    pub head: Cid,
    /// The actor's balance.
    pub balance: TokenAmount,
    /// The actor's call sequence number.
    pub sequence: u64,
}

impl View for ActorState {
    type V = ActorStateView;

    open spec fn view(&self) -> ActorStateView {
        ActorStateView {
            code: self.code,
            head: self.head,
            balance: self.balance@,
            sequence: self.sequence,
        }
    }
}

impl Clone for ActorState {
    fn clone(&self) -> (r: Self)
        ensures
            r@ == self@,
    {
        ActorState {
            code: self.code,
            head: self.head,
            balance: self.balance.clone(),
            sequence: self.sequence,
        }
    }
}

/// What a state tree says: each actor's record under its address.
pub type TreeView = Map<Address, ActorStateView>;

/// The state tree: an ordered association from address to record, in which no
/// address occurs twice. Its order is the order in which addresses were first
/// written.
#[derive(Debug, PartialEq, Eq)]
pub struct StateTree {
    entries: Vec<(Address, ActorState)>,
}

/// The listing that entries amount to: each record by what it says.
spec fn listed(entries: Seq<(Address, ActorState)>) -> Seq<(Address, ActorStateView)> {
    Seq::new(entries.len(), |i: int| (entries[i].0, entries[i].1@))
}

impl View for StateTree {
    type V = TreeView;

    closed spec fn view(&self) -> TreeView {
        pairs_map(self.listing())
    }
}

impl StateTree {
    /// The records with their addresses, in the tree's order.
    pub closed spec fn listing(&self) -> Seq<(Address, ActorStateView)> {
        listed(self.entries@)
    }

    /// No address occurs twice.
    #[verifier::type_invariant]
    pub closed spec fn well_formed(&self) -> bool {
        distinct_keys(self.listing())
    }

    /// What the tree says is what its listing amounts to, and no address
    /// occurs twice in the listing.
    pub proof fn lemma_listing(&self)
        requires
            self.well_formed(),
        ensures
            self@ == pairs_map(self.listing()),
            distinct_keys(self.listing()),
    {
    }

    /// The empty tree.
    pub fn new() -> (r: Self)
        ensures
            r.well_formed(),
            r.listing() == Seq::<(Address, ActorStateView)>::empty(),
            r@ == Map::<Address, ActorStateView>::empty(),
    {
        let r = StateTree { entries: Vec::new() };
        assert(r.listing() =~= Seq::<(Address, ActorStateView)>::empty());
        r
    }

    /// The number of actors in the tree.
    pub fn len(&self) -> (r: usize)
        ensures
            r == self.listing().len(),
    {
        self.entries.len()
    }

    /// The actor at a place in the tree's order, or `None` beyond its end.
    pub fn entry(&self, index: usize) -> (r: Option<(&Address, &ActorState)>)
        ensures
            match r {
                Some((address, state)) => index < self.listing().len() && self.listing()[index as int]
                    == (*address, state@),
                None => index >= self.listing().len(),
            },
    {
        if index < self.entries.len() {
            let pair = &self.entries[index];
            Some((&pair.0, &pair.1))
        } else {
            None
        }
    }

    /// The place of an address in the tree's order, if it is in the tree.
    fn position(&self, address: &Address) -> (r: Option<usize>)
        ensures
            match r {
                Some(i) => i < self.listing().len() && self.listing()[i as int].0 == *address,
                None => !has_key(self.listing(), *address),
            },
    {
        let mut i: usize = 0;
        while i < self.entries.len()
            invariant
                i <= self.entries.len(),
                forall|j: int| 0 <= j < i ==> self.listing()[j].0 != *address,
            decreases self.entries.len() - i,
        {
            if self.entries[i].0 == *address {
                return Some(i);
            }
            i = i + 1;
        }
        None
    }

    /// The record of the actor at an address, if there is one.
    pub fn get_actor(&self, address: &Address) -> (r: Option<&ActorState>)
        ensures
            match r {
                Some(state) => self@.contains_key(*address) && self@[*address] == state@,
                None => !self@.contains_key(*address),
            },
    {
        proof {
            use_type_invariant(self);
            lemma_pairs_map_keys(self.listing(), *address);
        }
        match self.position(address) {
            Some(i) => {
                proof {
                    lemma_pairs_map_value(self.listing(), i as int);
                }
                Some(&self.entries[i].1)
            },
            None => None,
        }
    }

    /// Writes the record of the actor at an address: in the place of the
    /// record that the address had, or else at the end of the tree's order.
    pub fn set_actor(&mut self, address: Address, state: ActorState)
        ensures
            final(self).well_formed(),
            final(self)@ == old(self)@.insert(address, state@),
            final(self).listing() == if has_key(old(self).listing(), address) {
                let i = choose|i: int|
                    0 <= i < old(self).listing().len() && #[trigger] old(self).listing()[i].0
                        == address;
                old(self).listing().update(i, (address, state@))
            } else {
                old(self).listing().push((address, state@))
            },
    {
        proof {
            use_type_invariant(&*self);
        }
        let ghost before = self.listing();
        let found = self.position(&address);
        let mut taken = StateTree { entries: Vec::new() };
        proof {
            assert(taken.listing() =~= Seq::<(Address, ActorStateView)>::empty());
        }
        core::mem::swap(self, &mut taken);
        let mut entries = taken.entries;
        match found {
            Some(i) => {
                entries[i] = (address, state);
                proof {
                    let w = choose|w: int|
                        0 <= w < before.len() && #[trigger] before[w].0 == address;
                    assert(before[i as int].0 == address);
                    assert(w == i);
                    assert(listed(entries@) =~= before.update(i as int, (address, state@)));
                    lemma_pairs_map_update(before, i as int, state@);
                }
                *self = StateTree { entries };
            },
            None => {
                entries.push((address, state));
                proof {
                    let after = listed(entries@);
                    assert(after =~= before.push((address, state@)));
                    lemma_pairs_map_push(before, address, state@);
                    assert forall|a: int, b: int| 0 <= a < b < after.len() implies after[a].0
                        != after[b].0 by {
                        if b < before.len() {
                            assert(before[a].0 != before[b].0);
                        } else {
                            assert(before[a].0 != address);
                        }
                    }
                }
                *self = StateTree { entries };
            },
        }
    }
}

} // verus!
