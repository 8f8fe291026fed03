//! The migration units that every upgrade shares.

use vstd::prelude::*;

use super::{ActorMigration, ActorMigrationInput, ActorMigrationInputView, ActorMigrationOutput};
use super::MigrationError;
use crate::ipld::Cid;

verus! {

/// Migrator which preserves the head CID and provides a fixed result code CID.
/// This is used to migrate actors which do not require any state migration.
#[derive(Clone, Copy, Debug)]
pub struct NilMigrator(pub Cid);

impl NilMigrator {
    /// What the identity unit returns for an actor with the given head: the
    /// unit's code identifier, and the head as it is.
    pub open spec fn output(&self, head: Cid) -> ActorMigrationOutput {
        ActorMigrationOutput { new_code_cid: self.0, new_head: head }
    }
}

impl<BS> ActorMigration<BS> for NilMigrator {
    open spec fn promised(
        &self,
        store: &BS,
        input: ActorMigrationInputView,
        returned: Result<ActorMigrationOutput, MigrationError>,
    ) -> bool {
        returned == Ok::<ActorMigrationOutput, MigrationError>(self.output(input.head))
    }

    fn migrate_state(&self, _store: &BS, input: ActorMigrationInput) -> (r: Result<
        ActorMigrationOutput,
        MigrationError,
    >) {
        Ok(ActorMigrationOutput { new_code_cid: self.0, new_head: input.head })
    }
}

/// The migration units of an upgrade, as a closed set: the identity unit, or
/// one of the upgrade's own units, of type `U`.
#[derive(Clone, Copy, Debug)]
pub enum Migrator<U> {
    /// The identity unit.
    Nil(NilMigrator),
    /// A unit that rewrites the actor's state.
    Custom(U),
}

impl<BS, U: ActorMigration<BS>> ActorMigration<BS> for Migrator<U> {
    open spec fn promised(
        &self,
        store: &BS,
        input: ActorMigrationInputView,
        returned: Result<ActorMigrationOutput, MigrationError>,
    ) -> bool {
        match self {
            Migrator::Nil(nil) => nil.promised(store, input, returned),
            Migrator::Custom(unit) => unit.promised(store, input, returned),
        }
    }

    fn migrate_state(&self, store: &BS, input: ActorMigrationInput) -> (r: Result<
        ActorMigrationOutput,
        MigrationError,
    >) {
        match self {
            Migrator::Nil(nil) => nil.migrate_state(store, input),
            Migrator::Custom(unit) => unit.migrate_state(store, input),
        }
    }
}

/// Creates a new migrator which preserves the head CID and provides a fixed
/// result code CID.
pub fn nil_migrator<U>(cid: Cid) -> (r: Migrator<U>)
    ensures
        r == Migrator::<U>::Nil(NilMigrator(cid)),
{
    Migrator::Nil(NilMigrator(cid))
}

} // verus!
