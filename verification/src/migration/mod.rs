//! The actor-migration engine: what a network upgrade does to the state tree.
//!
//! A run resolves every actor's code identifier to a migration unit, lets each
//! unit transform its actor, writes the results into a new tree keyed by
//! address, and then lets the upgrade's post-migrators adjust that tree in
//! their declared order. The engine reads no clock and no random number: what
//! a run yields is settled by the old tree, the registry, and what the units
//! and post-migrators return.

pub mod assoc;
pub mod manifest;
pub mod migration_job;
pub mod migrators;
pub mod post_migrators;
pub mod state_migration;
pub mod state_tree;
pub mod upgrade;
pub mod verification;

use vstd::prelude::*;
use vstd::std_specs::cmp::PartialEqSpecImpl;

use crate::address::Address;
use crate::econ::TokenAmount;
use crate::ipld::Cid;

pub use manifest::{Manifest, Registry, RegistryEntry, UnitChoice};
pub use migration_job::{MigrationJob, MigrationJobOutput};
pub use migrators::{nil_migrator, Migrator, NilMigrator};
pub use post_migrators::ActorCreator;
pub use state_migration::StateMigration;
pub use state_tree::{ActorState, ActorStateView, StateTree, TreeView};
pub use upgrade::Upgrade;
pub use verification::{verify, verify_tree, ExpectedConstants};

verus! {

/// A chain height.
pub type ChainEpoch = i64;

/// Why a migration did not complete. Each is fatal to the whole run.
#[derive(Clone, Copy, Debug, Eq)]
pub enum MigrationError {
    /// The store failed, or a block that should be in it is not.
    StoreError,
    /// An actor's code identifier has no entry where one is needed.
    UnknownActorCode(Cid),
    /// An actor's own state could not be decoded.
    MalformedActorState,
    /// The finished result does not meet what was expected of it.
    VerificationFailure,
}

impl PartialEq for MigrationError {
    fn eq(&self, other: &Self) -> (r: bool) {
        match (self, other) {
            (MigrationError::StoreError, MigrationError::StoreError) => true,
            (MigrationError::UnknownActorCode(a), MigrationError::UnknownActorCode(b)) => *a == *b,
            (MigrationError::MalformedActorState, MigrationError::MalformedActorState) => true,
            (MigrationError::VerificationFailure, MigrationError::VerificationFailure) => true,
            _ => false,
        }
    }
}

impl PartialEqSpecImpl for MigrationError {
    open spec fn obeys_eq_spec() -> bool {
        true
    }

    open spec fn eq_spec(&self, other: &Self) -> bool {
        *self == *other
    }
}

/// What a migration input says.
pub struct ActorMigrationInputView {
    pub address: Address,
    pub balance: int,
    pub head: Cid,
    pub prior_epoch: ChainEpoch,
}

/// What a migration unit is given for one actor.
#[derive(Debug)]
pub struct ActorMigrationInput {
    /// Actor's address
    pub address: Address,
    /// Actor's balance
    pub balance: TokenAmount,
    /// Actor's state head CID
    pub head: Cid,
    /// Epoch of last state transition prior to migration
    pub prior_epoch: ChainEpoch,
}

impl View for ActorMigrationInput {
    type V = ActorMigrationInputView;

    open spec fn view(&self) -> ActorMigrationInputView {
        ActorMigrationInputView {
            address: self.address,
            balance: self.balance@,
            head: self.head,
            prior_epoch: self.prior_epoch,
        }
    }
}

/// Output of actor migration job.
#[derive(Clone, Copy, Debug, Eq)]
pub struct ActorMigrationOutput {
    /// New CID for the actor
    pub new_code_cid: Cid,
    /// New state head CID
    pub new_head: Cid,
}

impl PartialEq for ActorMigrationOutput {
    fn eq(&self, other: &Self) -> (r: bool) {
        self.new_code_cid == other.new_code_cid && self.new_head == other.new_head
    }
}

impl PartialEqSpecImpl for ActorMigrationOutput {
    open spec fn obeys_eq_spec() -> bool {
        true
    }

    open spec fn eq_spec(&self, other: &Self) -> bool {
        *self == *other
    }
}

/// A migration unit: the transformation of one actor's state.
///
/// A unit may read the actor's prior state from the store and write new
/// blocks to it, so what it returns is not for this crate to say. A unit that
/// can say something of what it returns says so in `promised`; the engine
/// states of a run what follows from the promises of its units.
pub trait ActorMigration<BS> {
    /// What the unit promises of what it returns for `input` against `store`.
    /// Unless a unit says otherwise, it promises nothing.
    open spec fn promised(
        &self,
        store: &BS,
        input: ActorMigrationInputView,
        returned: Result<ActorMigrationOutput, MigrationError>,
    ) -> bool {
        true
    }

    /// Transforms one actor. Any failure is fatal to the run.
    fn migrate_state(&self, store: &BS, input: ActorMigrationInput) -> (r: Result<
        ActorMigrationOutput,
        MigrationError,
    >)
        ensures
            self.promised(store, input@, r),
    ;
}

/// An adjustment of the whole tree, made after every actor was migrated.
///
/// As with a unit, what it does is for the post-migrator to say, in
/// `promised`.
pub trait PostMigrator<BS> {
    /// What the post-migrator promises of what it returns and of the tree
    /// that it leaves, for the tree `before` against `store`. Unless a
    /// post-migrator says otherwise, it promises nothing.
    open spec fn promised(
        &self,
        store: &BS,
        before: TreeView,
        returned: Result<(), MigrationError>,
        after: TreeView,
    ) -> bool {
        true
    }

    /// Adjusts the new tree. On failure the run is abandoned.
    fn post_migrate_state(&self, store: &BS, actors_out: &mut StateTree) -> (r: Result<
        (),
        MigrationError,
    >)
        ensures
            self.promised(store, old(actors_out)@, r, final(actors_out)@),
    ;
}

} // verus!
