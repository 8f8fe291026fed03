//! Post-migrators that upgrades share.

use vstd::prelude::*;

use super::state_migration::{adjusts, may_adjust, post_migrator_pinned};
use super::state_tree::{ActorState, ActorStateView, StateTree, TreeView};
use super::{MigrationError, PostMigrator};
use crate::address::Address;
use crate::econ::TokenAmount;
use crate::ipld::Cid;

verus! {

/// Creates an actor that the upgrade introduces: at the given address, with
/// the given code and state, no balance and a sequence number of zero. An
/// actor that the tree has at that address is replaced.
#[derive(Clone, Copy, Debug)]
pub struct ActorCreator {
    pub address: Address,
    pub code: Cid,
    pub head: Cid,
}

impl ActorCreator {
    /// The record of the actor that is created.
    pub open spec fn record(&self) -> ActorStateView {
        ActorStateView { code: self.code, head: self.head, balance: 0, sequence: 0 }
    }
}

impl<BS> PostMigrator<BS> for ActorCreator {
    open spec fn promised(
        &self,
        store: &BS,
        before: TreeView,
        returned: Result<(), MigrationError>,
        after: TreeView,
    ) -> bool {
        returned is Ok && after == before.insert(self.address, self.record())
    }

    fn post_migrate_state(&self, _store: &BS, actors_out: &mut StateTree) -> (r: Result<
        (),
        MigrationError,
    >) {
        let state = ActorState {
            code: self.code,
            head: self.head,
            balance: TokenAmount::from_atto(0),
            sequence: 0,
        };
        actors_out.set_actor(self.address, state);
        Ok(())
    }
}

/// An actor creator pins what it does.
pub proof fn lemma_actor_creator_pinned<BS>(creator: ActorCreator, store: &BS)
    ensures
        post_migrator_pinned(creator, store),
{
    assert forall|
        before: TreeView,
        a: Result<(), MigrationError>,
        left_a: TreeView,
        b: Result<(), MigrationError>,
        left_b: TreeView,
    |
        #![trigger creator.promised(store, before, a, left_a), creator.promised(store, before, b, left_b)]
        creator.promised(store, before, a, left_a) && creator.promised(
            store,
            before,
            b,
            left_b,
        ) implies a == b && (a is Ok ==> left_a == left_b) by {
        assert(a is Ok && b is Ok);
        assert(left_a == left_b);
        assert(a->Ok_0 == b->Ok_0);
        assert(a == b);
    }
}

/// The trees of a trace of actor creators only grow: each has every address
/// of the tree that the creators were given, and the address of each actor
/// created before it.
pub proof fn lemma_creators_trace<BS>(
    creators: Seq<ActorCreator>,
    store: &BS,
    tree: TreeView,
    trace: Seq<TreeView>,
    out: Result<TreeView, MigrationError>,
    i: int,
)
    requires
        adjusts(creators, store, tree, trace, out),
        0 <= i < trace.len(),
    ensures
        tree.dom().subset_of(trace[i].dom()),
        forall|j: int| 0 <= j < i ==> trace[i].contains_key((#[trigger] creators[j]).address),
    decreases i,
{
    if i > 0 {
        lemma_creators_trace(creators, store, tree, trace, out, i - 1);
        assert(creators[i - 1].promised(store, trace[i - 1], Ok(()), trace[i - 1 + 1]));
    }
}

/// Creating actors removes none: where every post-migrator of an upgrade
/// creates an actor, the post-migrators succeed, and the tree that they leave
/// has every address that the tree had before and the address of each actor
/// created.
pub proof fn lemma_creators_remove_nothing<BS>(
    creators: Seq<ActorCreator>,
    store: &BS,
    tree: TreeView,
    out: Result<TreeView, MigrationError>,
)
    requires
        may_adjust(creators, store, tree, out),
    ensures
        out is Ok,
        tree.dom().subset_of(out->Ok_0.dom()),
        forall|i: int|
            0 <= i < creators.len() ==> out->Ok_0.contains_key((#[trigger] creators[i]).address),
{
    let trace = choose|trace: Seq<TreeView>| #[trigger] adjusts(creators, store, tree, trace, out);
    if trace.len() < creators.len() + 1 {
        let failed = creators[trace.len() - 1];
        let after = choose|after: TreeView| #[trigger]
            failed.promised(store, trace.last(), Err(out->Err_0), after);
        assert(false);
    }
    lemma_creators_trace(creators, store, tree, trace, out, trace.len() - 1);
}

} // verus!
