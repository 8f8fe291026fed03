//! An upgrade, declared as a value.

use vstd::prelude::*;

use super::manifest::{built, named, Manifest, Registry, RegistryEntry, UnitChoice};
use super::state_migration::{may_run, StateMigration};
use super::state_tree::{ActorStateView, StateTree};
use super::verification::ExpectedConstants;
use super::{ActorMigration, ChainEpoch, MigrationError, PostMigrator};
use crate::address::Address;
use crate::ipld::Cid;

verus! {

/// What one upgrade declares: the manifests of the versions before and after
/// it, the unit of each actor kind, its post-migrators in their order, and
/// what is expected of its result.
#[derive(Debug)]
pub struct Upgrade<U, P> {
    pub old_manifest: Manifest,
    pub new_manifest: Manifest,
    pub units: Vec<(String, UnitChoice<U>)>,
    pub post_migrators: Vec<P>,
    pub expected: ExpectedConstants,
}

/// Whether an upgrade may end with `out`: with the failure of the registry's
/// construction, or else as a run with that registry may end.
pub open spec fn may_upgrade<
    BS,
    U: ActorMigration<BS>,
    P: PostMigrator<BS>,
    F: FnOnce(&StateTree) -> Result<Cid, MigrationError>,
>(
    old_manifest: Seq<(Seq<char>, Cid)>,
    new_manifest: Seq<(Seq<char>, Cid)>,
    units: Seq<(Seq<char>, UnitChoice<U>)>,
    post_migrators: Seq<P>,
    store: &BS,
    prior_epoch: ChainEpoch,
    listing: Seq<(Address, ActorStateView)>,
    flush: F,
    state_root: Option<Cid>,
    actor_codes: Seq<(Address, Cid)>,
    out: Result<Cid, MigrationError>,
) -> bool {
    match built(old_manifest, new_manifest, units) {
        Err(e) => out == Err::<Cid, MigrationError>(e),
        Ok(registry) => may_run(
            registry,
            post_migrators,
            store,
            prior_epoch,
            listing,
            flush,
            state_root,
            actor_codes,
            out,
        ),
    }
}

impl<U: Copy, P> Upgrade<U, P> {
    /// Builds the registry of the upgrade and, with it, the migration. Where
    /// the registry cannot be built, there is no migration to run.
    pub fn migration(self) -> (r: Result<(StateMigration<U, P>, ExpectedConstants), MigrationError>)
        ensures
            match r {
                Ok((migration, expected)) => {
                    &&& built(self.old_manifest@, self.new_manifest@, named(self.units@)) == Ok::<
                        Seq<(Cid, RegistryEntry<U>)>,
                        MigrationError,
                    >(migration.registry@)
                    &&& migration.post_migrators == self.post_migrators
                    &&& expected == self.expected
                },
                Err(e) => built(self.old_manifest@, self.new_manifest@, named(self.units@)) == Err::<
                    Seq<(Cid, RegistryEntry<U>)>,
                    MigrationError,
                >(e),
            },
    {
        let Upgrade { old_manifest, new_manifest, units, post_migrators, expected } = self;
        match Registry::build(&old_manifest, &new_manifest, &units) {
            Ok(registry) => Ok((StateMigration::new(registry, post_migrators), expected)),
            Err(e) => Err(e),
        }
    }

    /// Runs the upgrade on a state tree: builds the registry, migrates the
    /// tree, has the new tree flushed to the store by `flush`, and verifies
    /// the result before it returns the new root.
    pub fn run_migration<BS, F>(
        self,
        store: &BS,
        prior_epoch: ChainEpoch,
        actors_in: &StateTree,
        flush: F,
    ) -> (r: Result<Cid, MigrationError>) where
        U: ActorMigration<BS>,
        P: PostMigrator<BS>,
        F: FnOnce(&StateTree) -> Result<Cid, MigrationError>,

        requires
            forall|tree: &StateTree| call_requires(flush, (tree,)),
        ensures
            may_upgrade(
                self.old_manifest@,
                self.new_manifest@,
                named(self.units@),
                self.post_migrators@,
                store,
                prior_epoch,
                actors_in.listing(),
                flush,
                self.expected.state_root,
                self.expected.actor_codes@,
                r,
            ),
    {
        match self.migration() {
            Ok((migration, expected)) => migration.run(
                store,
                prior_epoch,
                actors_in,
                &expected,
                flush,
            ),
            Err(e) => Err(e),
        }
    }
}

} // verus!
