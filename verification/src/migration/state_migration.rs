//! The orchestrator: from the old tree to the new one.
//!
//! What a run yields depends on what its units and post-migrators return, and
//! that is theirs to say. The contracts here state, of every outcome that the
//! promises of the units and post-migrators allow, what the run makes of it.

use vstd::prelude::*;

use super::assoc::{
    distinct_keys, first_value, has_key, lemma_first_value_member, lemma_pairs_map_keys,
    lemma_pairs_map_order, lemma_pairs_map_push, lemma_pairs_map_value, lemma_try_each_err,
    lemma_try_each_fails, lemma_try_each_ok, lemma_try_each_step, pairs_map, try_each,
};
use super::manifest::{Registry, RegistryEntry};
use super::migration_job::{
    job_input, job_may_succeed, job_may_yield, job_staged, MigrationJob, MigrationJobOutput,
    MigrationJobView,
};
use super::migrators::{Migrator, NilMigrator};
use super::state_tree::{ActorStateView, StateTree, TreeView};
use super::verification::{root_meets, tree_meets, verify, verify_tree, ExpectedConstants};
use super::{ActorMigration, ActorMigrationInputView, ActorMigrationOutput, ChainEpoch};
use super::{MigrationError, PostMigrator};
use crate::address::Address;
use crate::ipld::Cid;

verus! {

/// The job of one actor: its record with the unit that the registry holds for
/// its code identifier. An identifier that the registry lacks is fatal.
pub open spec fn job_for<U>(
    registry: Seq<(Cid, RegistryEntry<U>)>,
    actor: (Address, ActorStateView),
) -> Result<MigrationJobView<U>, MigrationError> {
    match first_value(registry, actor.1.code) {
        Some(entry) => Ok(
            MigrationJobView { address: actor.0, actor_state: actor.1, actor_migrator: entry.unit },
        ),
        None => Err(MigrationError::UnknownActorCode(actor.1.code)),
    }
}

/// The jobs of a tree, in the tree's order, or the first code identifier in
/// that order that the registry lacks.
pub open spec fn planned<U>(
    registry: Seq<(Cid, RegistryEntry<U>)>,
    listing: Seq<(Address, ActorStateView)>,
) -> Result<Seq<MigrationJobView<U>>, MigrationError> {
    try_each(listing, |actor: (Address, ActorStateView)| job_for(registry, actor))
}

/// Whether running the jobs in their order may yield `out`: the records that
/// the jobs may yield, each at its job's place, or a failure that a job may
/// yield after all the jobs before it succeeded.
pub open spec fn may_stage<BS, U: ActorMigration<BS>>(
    jobs: Seq<MigrationJobView<U>>,
    store: &BS,
    prior_epoch: ChainEpoch,
    out: Result<Seq<(Address, ActorStateView)>, MigrationError>,
) -> bool {
    match out {
        Ok(outputs) => {
            &&& outputs.len() == jobs.len()
            &&& forall|i: int|
                0 <= i < jobs.len() ==> job_may_yield(
                    #[trigger] jobs[i],
                    store,
                    prior_epoch,
                    Ok(outputs[i]),
                )
        },
        Err(e) => exists|i: int|
            {
                &&& 0 <= i < jobs.len()
                &&& job_may_yield(#[trigger] jobs[i], store, prior_epoch, Err(e))
                &&& forall|j: int|
                    0 <= j < i ==> job_may_succeed(#[trigger] jobs[j], store, prior_epoch)
            },
    }
}

/// The tree that staged records amount to, or the failure in their place.
pub open spec fn merge_of(staged: Result<Seq<(Address, ActorStateView)>, MigrationError>) -> Result<
    TreeView,
    MigrationError,
> {
    match staged {
        Ok(outputs) => Ok(pairs_map(outputs)),
        Err(e) => Err(e),
    }
}

/// Whether migrating every actor may yield `out`, before any post-migrator
/// runs: the failure of the planning, or else what the staged records amount
/// to, each written under its address.
pub open spec fn may_merge<BS, U: ActorMigration<BS>>(
    registry: Seq<(Cid, RegistryEntry<U>)>,
    store: &BS,
    prior_epoch: ChainEpoch,
    listing: Seq<(Address, ActorStateView)>,
    out: Result<TreeView, MigrationError>,
) -> bool {
    match planned(registry, listing) {
        Err(e) => out == Err::<TreeView, MigrationError>(e),
        Ok(jobs) => exists|staged: Result<Seq<(Address, ActorStateView)>, MigrationError>|
            #[trigger] may_stage(jobs, store, prior_epoch, staged) && out == merge_of(staged),
    }
}

/// Whether `trace` records a run of the post-migrators, in their declared
/// order, that makes `out` of a tree. The trace holds the tree that each
/// post-migrator that ran was given: the tree itself first, and after each
/// post-migrator that succeeded the tree that it left. Either every
/// post-migrator succeeded and `out` is the last tree, or the next one failed
/// and `out` is its failure.
pub open spec fn adjusts<BS, P: PostMigrator<BS>>(
    post_migrators: Seq<P>,
    store: &BS,
    tree: TreeView,
    trace: Seq<TreeView>,
    out: Result<TreeView, MigrationError>,
) -> bool {
    &&& 1 <= trace.len() <= post_migrators.len() + 1
    &&& trace[0] == tree
    &&& forall|i: int|
        0 <= i < trace.len() - 1 ==> post_migrators[i].promised(
            store,
            #[trigger] trace[i],
            Ok(()),
            trace[i + 1],
        )
    &&& if trace.len() == post_migrators.len() + 1 {
        out == Ok::<TreeView, MigrationError>(trace.last())
    } else {
        out is Err && fails_on(post_migrators[trace.len() - 1], store, trace.last(), out->Err_0)
    }
}

/// Whether a post-migrator may fail with `e` on the tree `before`.
pub open spec fn fails_on<BS, P: PostMigrator<BS>>(
    post_migrator: P,
    store: &BS,
    before: TreeView,
    e: MigrationError,
) -> bool {
    exists|after: TreeView| #[trigger] post_migrator.promised(store, before, Err(e), after)
}

/// Whether the post-migrators, run in their declared order, may make `out` of
/// a tree: what the last leaves of what those before it left, or the failure
/// of the first that fails.
pub open spec fn may_adjust<BS, P: PostMigrator<BS>>(
    post_migrators: Seq<P>,
    store: &BS,
    tree: TreeView,
    out: Result<TreeView, MigrationError>,
) -> bool {
    exists|trace: Seq<TreeView>| #[trigger] adjusts(post_migrators, store, tree, trace, out)
}

/// Whether a migration may yield `out`: the new tree, or the failure that
/// ended the run.
pub open spec fn may_migrate<BS, U: ActorMigration<BS>, P: PostMigrator<BS>>(
    registry: Seq<(Cid, RegistryEntry<U>)>,
    post_migrators: Seq<P>,
    store: &BS,
    prior_epoch: ChainEpoch,
    listing: Seq<(Address, ActorStateView)>,
    out: Result<TreeView, MigrationError>,
) -> bool {
    exists|merged: Result<TreeView, MigrationError>| #[trigger]
        may_merge(registry, store, prior_epoch, listing, merged) && match merged {
            Err(e) => out == Err::<TreeView, MigrationError>(e),
            Ok(tree) => may_adjust(post_migrators, store, tree, out),
        }
}

/// How a run ends once the new tree was flushed: with the failure of the
/// flush, with a verification failure, or with the new root.
pub open spec fn concluded(
    tree: TreeView,
    flushed: Result<Cid, MigrationError>,
    state_root: Option<Cid>,
    actor_codes: Seq<(Address, Cid)>,
) -> Result<Cid, MigrationError> {
    match flushed {
        Err(e) => Err(e),
        Ok(new_root) => if tree_meets(tree, actor_codes) && root_meets(new_root, state_root) {
            Ok(new_root)
        } else {
            Err(MigrationError::VerificationFailure)
        },
    }
}

/// Whether a run may end with `out` once it has the new tree: whether `flush`
/// may return, for a tree that says what the new tree says, something with
/// which the run ends so.
pub open spec fn may_conclude<F: FnOnce(&StateTree) -> Result<Cid, MigrationError>>(
    flush: F,
    tree: TreeView,
    state_root: Option<Cid>,
    actor_codes: Seq<(Address, Cid)>,
    out: Result<Cid, MigrationError>,
) -> bool {
    exists|actors_out: StateTree, flushed: Result<Cid, MigrationError>|
        {
            &&& actors_out@ == tree
            &&& #[trigger] call_ensures(flush, (&actors_out,), flushed)
            &&& out == concluded(tree, flushed, state_root, actor_codes)
        }
}

/// Whether a run may end with `out`: with the failure of the migration, or
/// else as it may end once it has the new tree.
pub open spec fn may_run<
    BS,
    U: ActorMigration<BS>,
    P: PostMigrator<BS>,
    F: FnOnce(&StateTree) -> Result<Cid, MigrationError>,
>(
    registry: Seq<(Cid, RegistryEntry<U>)>,
    post_migrators: Seq<P>,
    store: &BS,
    prior_epoch: ChainEpoch,
    listing: Seq<(Address, ActorStateView)>,
    flush: F,
    state_root: Option<Cid>,
    actor_codes: Seq<(Address, Cid)>,
    out: Result<Cid, MigrationError>,
) -> bool {
    exists|migrated: Result<TreeView, MigrationError>| #[trigger]
        may_migrate(registry, post_migrators, store, prior_epoch, listing, migrated)
            && match migrated {
            Err(e) => out == Err::<Cid, MigrationError>(e),
            Ok(tree) => may_conclude(flush, tree, state_root, actor_codes, out),
        }
}

/// What jobs say.
pub open spec fn job_views<'a, U>(jobs: Seq<MigrationJob<'a, U>>) -> Seq<MigrationJobView<U>> {
    Seq::new(jobs.len(), |i: int| jobs[i]@)
}

/// What job outputs say.
pub open spec fn output_views(outputs: Seq<MigrationJobOutput>) -> Seq<(Address, ActorStateView)> {
    Seq::new(outputs.len(), |i: int| outputs[i]@)
}

/// What running the jobs yielded, by what it says.
pub open spec fn staged_yield(r: Result<Vec<MigrationJobOutput>, MigrationError>) -> Result<
    Seq<(Address, ActorStateView)>,
    MigrationError,
> {
    match r {
        Ok(outputs) => Ok(output_views(outputs@)),
        Err(e) => Err(e),
    }
}

/// What a migration yielded, by what it says.
pub open spec fn tree_yield(r: Result<StateTree, MigrationError>) -> Result<TreeView, MigrationError> {
    match r {
        Ok(tree) => Ok(tree@),
        Err(e) => Err(e),
    }
}

/// A state migration: the registry of an upgrade and its post-migrators, in
/// their declared order.
#[derive(Debug)]
pub struct StateMigration<U, P> {
    pub registry: Registry<U>,
    pub post_migrators: Vec<P>,
}

impl<U, P> StateMigration<U, P> {
    /// The migration with the given registry and post-migrators.
    pub fn new(registry: Registry<U>, post_migrators: Vec<P>) -> (r: Self)
        ensures
            r.registry == registry,
            r.post_migrators == post_migrators,
    {
        StateMigration { registry, post_migrators }
    }

    /// Gives every actor of the tree its job, in the tree's order. No unit
    /// runs here. A code identifier that the registry lacks ends the run.
    pub fn plan_jobs<'a>(&'a self, actors_in: &StateTree) -> (r: Result<
        Vec<MigrationJob<'a, U>>,
        MigrationError,
    >)
        ensures
            match r {
                Ok(jobs) => planned(self.registry@, actors_in.listing()) == Ok::<
                    Seq<MigrationJobView<U>>,
                    MigrationError,
                >(job_views(jobs@)),
                Err(e) => planned(self.registry@, actors_in.listing()) == Err::<
                    Seq<MigrationJobView<U>>,
                    MigrationError,
                >(e),
            },
    {
        let ghost listing = actors_in.listing();
        let ghost step = |actor: (Address, ActorStateView)| job_for(self.registry@, actor);
        let mut jobs: Vec<MigrationJob<'a, U>> = Vec::new();
        let count = actors_in.len();
        let mut i: usize = 0;
        proof {
            assert(listing.take(0) =~= Seq::empty());
            assert(job_views(jobs@) =~= Seq::empty());
        }
        while i < count
            invariant
                i <= count == listing.len(),
                listing == actors_in.listing(),
                step == |actor: (Address, ActorStateView)| job_for(self.registry@, actor),
                try_each(listing.take(i as int), step) == Ok::<
                    Seq<MigrationJobView<U>>,
                    MigrationError,
                >(job_views(jobs@)),
            decreases count - i,
        {
            proof {
                lemma_try_each_step(listing, step, i as int);
            }
            match actors_in.entry(i) {
                Some((address, state)) => {
                    match self.registry.get(&state.code) {
                        Some(entry) => {
                            let ghost before = job_views(jobs@);
                            let job = MigrationJob {
                                address: *address,
                                actor_state: state.clone(),
                                actor_migrator: &entry.unit,
                            };
                            jobs.push(job);
                            proof {
                                assert(job_views(jobs@) =~= before.push(job@));
                            }
                        },
                        None => {
                            proof {
                                lemma_try_each_fails(listing, step, i as int + 1);
                            }
                            return Err(MigrationError::UnknownActorCode(state.code));
                        },
                    }
                },
                None => {
                    // Not reached: every place below the tree's length has an actor.
                    assert(false);
                },
            }
            i = i + 1;
        }
        proof {
            assert(listing.take(i as int) =~= listing);
        }
        Ok(jobs)
    }

    /// Runs the jobs in their order. The first failure ends the run.
    pub fn run_jobs<'a, BS>(
        jobs: &Vec<MigrationJob<'a, U>>,
        store: &BS,
        prior_epoch: ChainEpoch,
    ) -> (r: Result<Vec<MigrationJobOutput>, MigrationError>) where U: ActorMigration<BS>
        ensures
            may_stage(job_views(jobs@), store, prior_epoch, staged_yield(r)),
    {
        let ghost all = job_views(jobs@);
        let mut outputs: Vec<MigrationJobOutput> = Vec::new();
        let mut i: usize = 0;
        while i < jobs.len()
            invariant
                i <= jobs.len() == all.len(),
                all == job_views(jobs@),
                outputs.len() == i,
                forall|j: int|
                    0 <= j < i ==> job_may_yield(
                        #[trigger] all[j],
                        store,
                        prior_epoch,
                        Ok(output_views(outputs@)[j]),
                    ),
            decreases jobs.len() - i,
        {
            let ghost before = output_views(outputs@);
            match jobs[i].run(store, prior_epoch) {
                Ok(output) => {
                    let ghost said = output@;
                    outputs.push(output);
                    proof {
                        assert(output_views(outputs@) =~= before.push(said));
                        assert(all[i as int] == jobs[i as int]@);
                    }
                },
                Err(e) => {
                    proof {
                        assert(all[i as int] == jobs[i as int]@);
                        assert(job_may_yield(all[i as int], store, prior_epoch, Err(e)));
                        assert forall|j: int| 0 <= j < i implies job_may_succeed(
                            #[trigger] all[j],
                            store,
                            prior_epoch,
                        ) by {
                            assert(job_may_yield(all[j], store, prior_epoch, Ok(before[j])));
                        }
                    }
                    return Err(e);
                },
            }
            i = i + 1;
        }
        Ok(outputs)
    }

    /// Writes the staged records into a new tree, each under its address, in
    /// the order given.
    pub fn merge(outputs: &Vec<MigrationJobOutput>) -> (tree: StateTree)
        ensures
            tree.well_formed(),
            tree@ == pairs_map(output_views(outputs@)),
    {
        let ghost all = output_views(outputs@);
        let mut tree = StateTree::new();
        let mut i: usize = 0;
        proof {
            assert(all.take(0) =~= Seq::empty());
        }
        while i < outputs.len()
            invariant
                i <= outputs.len() == all.len(),
                all == output_views(outputs@),
                tree.well_formed(),
                tree@ == pairs_map(all.take(i as int)),
            decreases outputs.len() - i,
        {
            proof {
                assert(all.take(i as int + 1) =~= all.take(i as int).push(all[i as int]));
                lemma_pairs_map_push(all.take(i as int), all[i as int].0, all[i as int].1);
            }
            tree.set_actor(outputs[i].address, outputs[i].actor_state.clone());
            i = i + 1;
        }
        proof {
            assert(all.take(i as int) =~= all);
        }
        tree
    }

    /// Runs the post-migrators on the tree, strictly in their declared order.
    /// The first failure ends the run, and nothing is then said of the tree.
    pub fn run_post_migrators<BS>(&self, store: &BS, actors_out: &mut StateTree) -> (r: Result<
        (),
        MigrationError,
    >) where P: PostMigrator<BS>
        ensures
            may_adjust(
                self.post_migrators@,
                store,
                old(actors_out)@,
                match r {
                    Ok(_) => Ok::<TreeView, MigrationError>(final(actors_out)@),
                    Err(e) => Err::<TreeView, MigrationError>(e),
                },
            ),
    {
        let ghost all = self.post_migrators@;
        let ghost start = actors_out@;
        let ghost mut trace = seq![start];
        let mut i: usize = 0;
        while i < self.post_migrators.len()
            invariant
                i <= self.post_migrators.len() == all.len(),
                all == self.post_migrators@,
                start == old(actors_out)@,
                trace.len() == i + 1,
                trace[0] == start,
                trace.last() == actors_out@,
                forall|j: int|
                    0 <= j < i ==> all[j].promised(store, #[trigger] trace[j], Ok(()), trace[j + 1]),
            decreases self.post_migrators.len() - i,
        {
            let ghost before = actors_out@;
            let returned = self.post_migrators[i].post_migrate_state(store, actors_out);
            match returned {
                Ok(_) => {
                    proof {
                        let longer = trace.push(actors_out@);
                        assert(returned->Ok_0 == ());
                        assert(returned == Ok::<(), MigrationError>(()));
                        assert(all[i as int].promised(store, before, Ok(()), actors_out@));
                        assert forall|j: int| 0 <= j < i + 1 implies all[j].promised(
                            store,
                            #[trigger] longer[j],
                            Ok(()),
                            longer[j + 1],
                        ) by {
                            if j < i {
                                assert(all[j].promised(store, trace[j], Ok(()), trace[j + 1]));
                            }
                        }
                        trace = longer;
                    }
                },
                Err(e) => {
                    proof {
                        assert(all[i as int].promised(store, before, Err(e), actors_out@));
                        assert(fails_on(all[i as int], store, before, e));
                        assert(adjusts(all, store, start, trace, Err(e)));
                    }
                    return Err(e);
                },
            }
            i = i + 1;
        }
        proof {
            assert(adjusts(all, store, start, trace, Ok(actors_out@)));
        }
        Ok(())
    }

    /// Migrates a state tree: plans a job for every actor, runs the jobs,
    /// merges what they yield into a new tree, and runs the post-migrators on
    /// it. Any failure ends the run without a tree.
    pub fn migrate_state_tree<BS>(
        &self,
        store: &BS,
        prior_epoch: ChainEpoch,
        actors_in: &StateTree,
    ) -> (r: Result<StateTree, MigrationError>) where U: ActorMigration<BS>, P: PostMigrator<BS>
        ensures
            r matches Ok(tree) ==> tree.well_formed(),
            may_migrate(
                self.registry@,
                self.post_migrators@,
                store,
                prior_epoch,
                actors_in.listing(),
                tree_yield(r),
            ),
    {
        let ghost registry = self.registry@;
        let ghost listing = actors_in.listing();
        let jobs = match self.plan_jobs(actors_in) {
            Ok(jobs) => jobs,
            Err(e) => {
                proof {
                    assert(may_merge(registry, store, prior_epoch, listing, Err(e)));
                }
                return Err(e);
            },
        };
        let ran = Self::run_jobs(&jobs, store, prior_epoch);
        proof {
            let said = staged_yield(ran);
            let planned_jobs = planned(registry, listing)->Ok_0;
            assert(planned_jobs == job_views(jobs@));
            assert(may_stage(planned_jobs, store, prior_epoch, said));
            assert(may_merge(registry, store, prior_epoch, listing, merge_of(said)));
        }
        let outputs = match ran {
            Ok(outputs) => outputs,
            Err(e) => {
                return Err(e);
            },
        };
        let mut actors_out = Self::merge(&outputs);
        match self.run_post_migrators(store, &mut actors_out) {
            Ok(()) => {
                proof {
                    use_type_invariant(&actors_out);
                }
                Ok(actors_out)
            },
            Err(e) => Err(e),
        }
    }

    /// Ends a run, given what flushing the new tree to the store returned:
    /// the failure of the flush, or else the new root if the tree and the
    /// root meet what is expected of them.
    pub fn conclude(
        actors_out: &StateTree,
        flushed: Result<Cid, MigrationError>,
        expected: &ExpectedConstants,
    ) -> (r: Result<Cid, MigrationError>)
        ensures
            r == concluded(actors_out@, flushed, expected.state_root, expected.actor_codes@),
    {
        match flushed {
            Err(e) => Err(e),
            Ok(new_root) => {
                match verify_tree(actors_out, expected) {
                    Ok(()) => {},
                    Err(e) => {
                        return Err(e);
                    },
                }
                match verify(&new_root, expected) {
                    Ok(()) => Ok(new_root),
                    Err(e) => Err(e),
                }
            },
        }
    }

    /// Runs the migration: migrates the tree, has the new tree flushed to the
    /// store by `flush`, and verifies the result before it returns the new
    /// root. Where the migration fails nothing is flushed, and no failure
    /// leaves a root behind.
    pub fn run<BS, F>(
        &self,
        store: &BS,
        prior_epoch: ChainEpoch,
        actors_in: &StateTree,
        expected: &ExpectedConstants,
        flush: F,
    ) -> (r: Result<Cid, MigrationError>) where
        U: ActorMigration<BS>,
        P: PostMigrator<BS>,
        F: FnOnce(&StateTree) -> Result<Cid, MigrationError>,

        requires
            forall|tree: &StateTree| call_requires(flush, (tree,)),
        ensures
            may_run(
                self.registry@,
                self.post_migrators@,
                store,
                prior_epoch,
                actors_in.listing(),
                flush,
                expected.state_root,
                expected.actor_codes@,
                r,
            ),
    {
        let migrated = self.migrate_state_tree(store, prior_epoch, actors_in);
        proof {
            assert(may_migrate(
                self.registry@,
                self.post_migrators@,
                store,
                prior_epoch,
                actors_in.listing(),
                tree_yield(migrated),
            ));
        }
        let actors_out = match migrated {
            Ok(tree) => tree,
            Err(e) => {
                return Err(e);
            },
        };
        let flushed = flush(&actors_out);
        proof {
            assert(call_ensures(flush, (&actors_out,), flushed));
        }
        Self::conclude(&actors_out, flushed, expected)
    }
}

/// Where the planning succeeds, each job stands for the actor at the same
/// place of the tree, with the unit that the registry holds for the actor's
/// code identifier.
pub proof fn lemma_planned_jobs<U>(
    registry: Seq<(Cid, RegistryEntry<U>)>,
    listing: Seq<(Address, ActorStateView)>,
)
    requires
        planned(registry, listing) is Ok,
    ensures
        planned(registry, listing)->Ok_0.len() == listing.len(),
        forall|i: int|
            0 <= i < listing.len() ==> job_for(registry, #[trigger] listing[i]) == Ok::<
                MigrationJobView<U>,
                MigrationError,
            >(planned(registry, listing)->Ok_0[i]),
{
    let plan = |actor: (Address, ActorStateView)| job_for(registry, actor);
    let jobs = planned(registry, listing)->Ok_0;
    lemma_try_each_ok(listing, plan);
    assert forall|i: int| 0 <= i < listing.len() implies job_for(registry, #[trigger] listing[i])
        == Ok::<MigrationJobView<U>, MigrationError>(jobs[i]) by {
        assert(plan(listing[i]) == Ok::<MigrationJobView<U>, MigrationError>(jobs[i]));
    }
}

/// Whatever a unit returns, the record that its job stages stands under the
/// actor's address and keeps the actor's balance and sequence number.
pub proof fn lemma_staged_records<BS, U: ActorMigration<BS>>(
    jobs: Seq<MigrationJobView<U>>,
    store: &BS,
    prior_epoch: ChainEpoch,
    outputs: Seq<(Address, ActorStateView)>,
)
    requires
        may_stage(jobs, store, prior_epoch, Ok(outputs)),
    ensures
        outputs.len() == jobs.len(),
        forall|i: int|
            0 <= i < jobs.len() ==> {
                &&& (#[trigger] outputs[i]).0 == jobs[i].address
                &&& outputs[i].1.balance == jobs[i].actor_state.balance
                &&& outputs[i].1.sequence == jobs[i].actor_state.sequence
            },
{
    assert forall|i: int| 0 <= i < jobs.len() implies {
        &&& (#[trigger] outputs[i]).0 == jobs[i].address
        &&& outputs[i].1.balance == jobs[i].actor_state.balance
        &&& outputs[i].1.sequence == jobs[i].actor_state.sequence
    } by {
        assert(job_may_yield(jobs[i], store, prior_epoch, Ok(outputs[i])));
    }
}

/// Totality. Where every actor was migrated, the new tree has, before any
/// post-migrator runs, an entry for exactly the addresses of the old tree.
pub proof fn lemma_migration_total<BS, U: ActorMigration<BS>>(
    registry: Seq<(Cid, RegistryEntry<U>)>,
    store: &BS,
    prior_epoch: ChainEpoch,
    listing: Seq<(Address, ActorStateView)>,
    new_tree: TreeView,
)
    requires
        may_merge(registry, store, prior_epoch, listing, Ok(new_tree)),
    ensures
        new_tree.dom() == pairs_map(listing).dom(),
{
    let jobs = planned(registry, listing)->Ok_0;
    let staged = choose|staged: Result<Seq<(Address, ActorStateView)>, MigrationError>|
        #[trigger] may_stage(jobs, store, prior_epoch, staged) && Ok::<TreeView, MigrationError>(
            new_tree,
        ) == merge_of(staged);
    let outputs = staged->Ok_0;
    lemma_planned_jobs(registry, listing);
    lemma_staged_records(jobs, store, prior_epoch, outputs);
    let old_tree = pairs_map(listing);
    assert forall|address: Address| new_tree.contains_key(address) <==> old_tree.contains_key(
        address,
    ) by {
        lemma_pairs_map_keys(outputs, address);
        lemma_pairs_map_keys(listing, address);
        if has_key(outputs, address) {
            let i = choose|i: int| 0 <= i < outputs.len() && #[trigger] outputs[i].0 == address;
            assert(job_for(registry, listing[i]) == Ok::<MigrationJobView<U>, MigrationError>(
                jobs[i],
            ));
            assert(listing[i].0 == address);
        }
        if has_key(listing, address) {
            let i = choose|i: int| 0 <= i < listing.len() && #[trigger] listing[i].0 == address;
            assert(job_for(registry, listing[i]) == Ok::<MigrationJobView<U>, MigrationError>(
                jobs[i],
            ));
            assert(outputs[i].0 == address);
        }
    }
    assert(new_tree.dom() =~= old_tree.dom());
}

/// Totality of a whole migration. Where no post-migrator is declared, a
/// migration that succeeds yields a tree with an entry for exactly the
/// addresses of the old tree.
pub proof fn lemma_migration_total_without_post_migrators<
    BS,
    U: ActorMigration<BS>,
    P: PostMigrator<BS>,
>(
    registry: Seq<(Cid, RegistryEntry<U>)>,
    store: &BS,
    prior_epoch: ChainEpoch,
    listing: Seq<(Address, ActorStateView)>,
    new_tree: TreeView,
)
    requires
        may_migrate(registry, Seq::<P>::empty(), store, prior_epoch, listing, Ok(new_tree)),
    ensures
        new_tree.dom() == pairs_map(listing).dom(),
{
    let merged = choose|merged: Result<TreeView, MigrationError>| #[trigger]
        may_merge(registry, store, prior_epoch, listing, merged) && match merged {
            Err(e) => Ok::<TreeView, MigrationError>(new_tree) == Err::<TreeView, MigrationError>(
                e,
            ),
            Ok(tree) => may_adjust(Seq::<P>::empty(), store, tree, Ok(new_tree)),
        };
    let tree = merged->Ok_0;
    let trace = choose|trace: Seq<TreeView>| #[trigger]
        adjusts(Seq::<P>::empty(), store, tree, trace, Ok(new_tree));
    assert(trace.len() == 1);
    lemma_migration_total(registry, store, prior_epoch, listing, new_tree);
}

/// The staged records of a tree in which no address occurs twice have no
/// address twice either.
pub proof fn lemma_staged_distinct<BS, U: ActorMigration<BS>>(
    registry: Seq<(Cid, RegistryEntry<U>)>,
    store: &BS,
    prior_epoch: ChainEpoch,
    listing: Seq<(Address, ActorStateView)>,
    outputs: Seq<(Address, ActorStateView)>,
)
    requires
        distinct_keys(listing),
        planned(registry, listing) is Ok,
        may_stage(planned(registry, listing)->Ok_0, store, prior_epoch, Ok(outputs)),
    ensures
        distinct_keys(outputs),
{
    let jobs = planned(registry, listing)->Ok_0;
    lemma_planned_jobs(registry, listing);
    lemma_staged_records(jobs, store, prior_epoch, outputs);
    assert forall|i: int, j: int| 0 <= i < j < outputs.len() implies outputs[i].0
        != outputs[j].0 by {
        assert(job_for(registry, listing[i]) == Ok::<MigrationJobView<U>, MigrationError>(jobs[i]));
        assert(job_for(registry, listing[j]) == Ok::<MigrationJobView<U>, MigrationError>(jobs[j]));
        assert(outputs[i].0 == listing[i].0);
        assert(outputs[j].0 == listing[j].0);
    }
}

/// Identity-unit fidelity. Where the registry holds the identity unit with
/// the target code `target` for an actor's code identifier, the actor's new
/// record has the old head and the code `target`, and its balance and sequence
/// number are unchanged.
pub proof fn lemma_identity_unit_fidelity<BS, U: ActorMigration<BS>>(
    registry: Seq<(Cid, RegistryEntry<U>)>,
    store: &BS,
    prior_epoch: ChainEpoch,
    listing: Seq<(Address, ActorStateView)>,
    new_tree: TreeView,
    i: int,
    target: Cid,
)
    requires
        distinct_keys(listing),
        0 <= i < listing.len(),
        first_value(registry, listing[i].1.code) matches Some(entry) && entry.unit
            == Migrator::<U>::Nil(NilMigrator(target)),
        may_merge(registry, store, prior_epoch, listing, Ok(new_tree)),
    ensures
        new_tree.contains_key(listing[i].0),
        new_tree[listing[i].0].head == listing[i].1.head,
        new_tree[listing[i].0].code == target,
        new_tree[listing[i].0].balance == listing[i].1.balance,
        new_tree[listing[i].0].sequence == listing[i].1.sequence,
{
    let jobs = planned(registry, listing)->Ok_0;
    let staged = choose|staged: Result<Seq<(Address, ActorStateView)>, MigrationError>|
        #[trigger] may_stage(jobs, store, prior_epoch, staged) && Ok::<TreeView, MigrationError>(
            new_tree,
        ) == merge_of(staged);
    let outputs = staged->Ok_0;
    lemma_planned_jobs(registry, listing);
    lemma_staged_records(jobs, store, prior_epoch, outputs);
    lemma_staged_distinct(registry, store, prior_epoch, listing, outputs);
    lemma_pairs_map_value(outputs, i);
    assert(job_for(registry, listing[i]) == Ok::<MigrationJobView<U>, MigrationError>(jobs[i]));
    assert(job_may_yield(jobs[i], store, prior_epoch, Ok(outputs[i])));
}

/// Merge-order independence. Staged records that hold no address twice amount
/// to the same tree in whatever order they are merged.
pub proof fn lemma_merge_order_independent(
    first: Seq<(Address, ActorStateView)>,
    second: Seq<(Address, ActorStateView)>,
)
    requires
        distinct_keys(first),
        distinct_keys(second),
        first.to_multiset() == second.to_multiset(),
    ensures
        pairs_map(first) == pairs_map(second),
{
    lemma_pairs_map_order(first, second);
}

/// Where the tree holds an actor whose code identifier the registry lacks,
/// the planning fails with `UnknownActorCode`: it names the code identifier
/// of the first such actor in the tree's order.
pub proof fn lemma_planned_unknown<U>(
    registry: Seq<(Cid, RegistryEntry<U>)>,
    listing: Seq<(Address, ActorStateView)>,
    i: int,
)
    requires
        0 <= i < listing.len(),
        first_value(registry, listing[i].1.code) is None,
    ensures
        planned(registry, listing) matches Err(MigrationError::UnknownActorCode(code))
            && first_value(registry, code) is None && exists|j: int|
            0 <= j <= i && (#[trigger] listing[j]).1.code == code,
    decreases i,
{
    let plan = |actor: (Address, ActorStateView)| job_for(registry, actor);
    if exists|j: int| 0 <= j < i && first_value(registry, (#[trigger] listing[j]).1.code) is None {
        let j = choose|j: int|
            0 <= j < i && first_value(registry, (#[trigger] listing[j]).1.code) is None;
        lemma_planned_unknown(registry, listing, j);
        let code = planned(registry, listing)->Err_0->UnknownActorCode_0;
        let k = choose|k: int| 0 <= k <= j && (#[trigger] listing[k]).1.code == code;
        assert(0 <= k <= i && listing[k].1.code == code);
    } else {
        assert forall|j: int| 0 <= j < i implies plan(#[trigger] listing[j]) is Ok by {
            assert(first_value(registry, listing[j].1.code) is Some);
        }
        assert(plan(listing[i]) is Err);
        lemma_try_each_err(listing, plan, i);
        assert(listing[i].1.code == listing[i].1.code);
    }
}

/// Fatal on unknown code. Where the old tree holds an actor whose code
/// identifier the registry lacks, a migration can only fail, and only with
/// `UnknownActorCode`, whatever its units and post-migrators do: it names the
/// code identifier of an actor of the tree that the registry lacks.
pub proof fn lemma_unknown_code_fatal<BS, U: ActorMigration<BS>, P: PostMigrator<BS>>(
    registry: Seq<(Cid, RegistryEntry<U>)>,
    post_migrators: Seq<P>,
    store: &BS,
    prior_epoch: ChainEpoch,
    listing: Seq<(Address, ActorStateView)>,
    i: int,
    out: Result<TreeView, MigrationError>,
)
    requires
        0 <= i < listing.len(),
        first_value(registry, listing[i].1.code) is None,
        may_migrate(registry, post_migrators, store, prior_epoch, listing, out),
    ensures
        out matches Err(MigrationError::UnknownActorCode(code)) && first_value(registry, code)
            is None && exists|j: int| 0 <= j <= i && (#[trigger] listing[j]).1.code == code,
{
    lemma_planned_unknown(registry, listing, i);
}

/// A unit pins what it returns against a store: by what it promises, it can
/// return one thing only for an input.
pub open spec fn unit_pinned<BS, U: ActorMigration<BS>>(unit: U, store: &BS) -> bool {
    forall|
        input: ActorMigrationInputView,
        a: Result<ActorMigrationOutput, MigrationError>,
        b: Result<ActorMigrationOutput, MigrationError>,
    |
        #![trigger unit.promised(store, input, a), unit.promised(store, input, b)]
        unit.promised(store, input, a) && unit.promised(store, input, b) ==> a == b
}

/// A post-migrator pins what it does against a store: by what it promises,
/// it can return one thing only for a tree, and leave one tree only where it
/// succeeds.
pub open spec fn post_migrator_pinned<BS, P: PostMigrator<BS>>(post_migrator: P, store: &BS) -> bool {
    forall|
        before: TreeView,
        a: Result<(), MigrationError>,
        left_a: TreeView,
        b: Result<(), MigrationError>,
        left_b: TreeView,
    |
        #![trigger post_migrator.promised(store, before, a, left_a), post_migrator.promised(store, before, b, left_b)]
        post_migrator.promised(store, before, a, left_a) && post_migrator.promised(
            store,
            before,
            b,
            left_b,
        ) ==> a == b && (a is Ok ==> left_a == left_b)
}

/// The identity unit pins what it returns.
pub proof fn lemma_identity_unit_pinned<BS, U: ActorMigration<BS>>(nil: NilMigrator, store: &BS)
    ensures
        unit_pinned(Migrator::<U>::Nil(nil), store),
{
}

/// A job whose unit pins what it returns may yield one thing only.
pub proof fn lemma_job_pinned<BS, U: ActorMigration<BS>>(
    job: MigrationJobView<U>,
    store: &BS,
    prior_epoch: ChainEpoch,
    a: Result<(Address, ActorStateView), MigrationError>,
    b: Result<(Address, ActorStateView), MigrationError>,
)
    requires
        unit_pinned(job.actor_migrator, store),
        job_may_yield(job, store, prior_epoch, a),
        job_may_yield(job, store, prior_epoch, b),
    ensures
        a == b,
{
    let input = job_input(job, prior_epoch);
    let returned_a = choose|returned: Result<ActorMigrationOutput, MigrationError>|
        #[trigger] job.actor_migrator.promised(store, input, returned) && a == job_staged(
            job,
            returned,
        );
    let returned_b = choose|returned: Result<ActorMigrationOutput, MigrationError>|
        #[trigger] job.actor_migrator.promised(store, input, returned) && b == job_staged(
            job,
            returned,
        );
    assert(returned_a == returned_b);
}

/// Jobs whose units pin what they return may be staged to one thing only.
pub proof fn lemma_stage_pinned<BS, U: ActorMigration<BS>>(
    jobs: Seq<MigrationJobView<U>>,
    store: &BS,
    prior_epoch: ChainEpoch,
    a: Result<Seq<(Address, ActorStateView)>, MigrationError>,
    b: Result<Seq<(Address, ActorStateView)>, MigrationError>,
)
    requires
        forall|k: int| 0 <= k < jobs.len() ==> unit_pinned((#[trigger] jobs[k]).actor_migrator, store),
        may_stage(jobs, store, prior_epoch, a),
        may_stage(jobs, store, prior_epoch, b),
    ensures
        a == b,
{
    match (a, b) {
        (Ok(x), Ok(y)) => {
            assert forall|i: int| 0 <= i < jobs.len() implies x[i] == y[i] by {
                assert(unit_pinned(jobs[i].actor_migrator, store));
                lemma_job_pinned(jobs[i], store, prior_epoch, Ok(x[i]), Ok(y[i]));
            }
            assert(x =~= y);
        },
        (Ok(x), Err(e)) => {
            lemma_stage_failed(jobs, store, prior_epoch, x, e);
        },
        (Err(e), Ok(y)) => {
            lemma_stage_failed(jobs, store, prior_epoch, y, e);
        },
        (Err(e), Err(f)) => {
            let i = lemma_first_failure(jobs, store, prior_epoch, e);
            let j = lemma_first_failure(jobs, store, prior_epoch, f);
            if i < j {
                lemma_succeeds_not_fails(jobs[i], store, prior_epoch, e);
            } else if j < i {
                lemma_succeeds_not_fails(jobs[j], store, prior_epoch, f);
            } else {
                assert(unit_pinned(jobs[i].actor_migrator, store));
                lemma_job_pinned(jobs[i], store, prior_epoch, Err(e), Err(f));
            }
        },
    }
}

/// The place of the job that failed, where the jobs may be staged to a
/// failure: the job may yield the failure, and every job before it may
/// succeed.
pub proof fn lemma_first_failure<BS, U: ActorMigration<BS>>(
    jobs: Seq<MigrationJobView<U>>,
    store: &BS,
    prior_epoch: ChainEpoch,
    e: MigrationError,
) -> (i: int)
    requires
        may_stage(jobs, store, prior_epoch, Err(e)),
    ensures
        0 <= i < jobs.len(),
        job_may_yield(jobs[i], store, prior_epoch, Err(e)),
        forall|j: int| 0 <= j < i ==> job_may_succeed(#[trigger] jobs[j], store, prior_epoch),
{
    choose|i: int|
        {
            &&& 0 <= i < jobs.len()
            &&& job_may_yield(#[trigger] jobs[i], store, prior_epoch, Err(e))
            &&& forall|j: int|
                0 <= j < i ==> job_may_succeed(#[trigger] jobs[j], store, prior_epoch)
        }
}

/// A job whose unit pins what it returns cannot both succeed and fail.
pub proof fn lemma_succeeds_not_fails<BS, U: ActorMigration<BS>>(
    job: MigrationJobView<U>,
    store: &BS,
    prior_epoch: ChainEpoch,
    e: MigrationError,
)
    requires
        unit_pinned(job.actor_migrator, store),
        job_may_succeed(job, store, prior_epoch),
    ensures
        !job_may_yield(job, store, prior_epoch, Err(e)),
{
    if job_may_yield(job, store, prior_epoch, Err(e)) {
        let output = choose|output: (Address, ActorStateView)| #[trigger]
            job_may_yield(job, store, prior_epoch, Ok(output));
        lemma_job_pinned(job, store, prior_epoch, Ok(output), Err(e));
    }
}

/// Jobs whose units pin what they return cannot be staged both to records
/// and to a failure.
pub proof fn lemma_stage_failed<BS, U: ActorMigration<BS>>(
    jobs: Seq<MigrationJobView<U>>,
    store: &BS,
    prior_epoch: ChainEpoch,
    outputs: Seq<(Address, ActorStateView)>,
    e: MigrationError,
)
    requires
        forall|k: int| 0 <= k < jobs.len() ==> unit_pinned((#[trigger] jobs[k]).actor_migrator, store),
        may_stage(jobs, store, prior_epoch, Ok(outputs)),
    ensures
        !may_stage(jobs, store, prior_epoch, Err(e)),
{
    if may_stage(jobs, store, prior_epoch, Err(e)) {
        let i = lemma_first_failure(jobs, store, prior_epoch, e);
        assert(unit_pinned(jobs[i].actor_migrator, store));
        assert(job_may_yield(jobs[i], store, prior_epoch, Ok(outputs[i])));
        lemma_job_pinned(jobs[i], store, prior_epoch, Ok(outputs[i]), Err(e));
    }
}

/// Two traces of post-migrators that pin what they do hold the same trees,
/// as far as both go.
pub proof fn lemma_traces_agree<BS, P: PostMigrator<BS>>(
    post_migrators: Seq<P>,
    store: &BS,
    tree: TreeView,
    a: Seq<TreeView>,
    out_a: Result<TreeView, MigrationError>,
    b: Seq<TreeView>,
    out_b: Result<TreeView, MigrationError>,
    i: int,
)
    requires
        forall|k: int|
            0 <= k < post_migrators.len() ==> post_migrator_pinned(
                #[trigger] post_migrators[k],
                store,
            ),
        adjusts(post_migrators, store, tree, a, out_a),
        adjusts(post_migrators, store, tree, b, out_b),
        0 <= i < a.len(),
        i < b.len(),
    ensures
        a[i] == b[i],
    decreases i,
{
    if i > 0 {
        lemma_traces_agree(post_migrators, store, tree, a, out_a, b, out_b, i - 1);
        assert(post_migrator_pinned(post_migrators[i - 1], store));
        assert(post_migrators[i - 1].promised(store, a[i - 1], Ok(()), a[i - 1 + 1]));
        assert(post_migrators[i - 1].promised(store, b[i - 1], Ok(()), b[i - 1 + 1]));
    }
}

/// Post-migrators that pin what they do may make one thing only of a tree.
pub proof fn lemma_adjust_pinned<BS, P: PostMigrator<BS>>(
    post_migrators: Seq<P>,
    store: &BS,
    tree: TreeView,
    a: Result<TreeView, MigrationError>,
    b: Result<TreeView, MigrationError>,
)
    requires
        forall|k: int|
            0 <= k < post_migrators.len() ==> post_migrator_pinned(
                #[trigger] post_migrators[k],
                store,
            ),
        may_adjust(post_migrators, store, tree, a),
        may_adjust(post_migrators, store, tree, b),
    ensures
        a == b,
{
    let trace_a = choose|trace: Seq<TreeView>| #[trigger]
        adjusts(post_migrators, store, tree, trace, a);
    let trace_b = choose|trace: Seq<TreeView>| #[trigger]
        adjusts(post_migrators, store, tree, trace, b);
    let (shorter, longer, out) = if trace_a.len() <= trace_b.len() {
        (trace_a, trace_b, a)
    } else {
        (trace_b, trace_a, b)
    };
    let last = shorter.len() - 1;
    lemma_traces_agree(post_migrators, store, tree, trace_a, a, trace_b, b, last);
    if shorter.len() < longer.len() {
        // The shorter trace ends where a post-migrator failed that, by the
        // longer one, succeeded.
        assert(post_migrator_pinned(post_migrators[last], store));
        let after = choose|after: TreeView| #[trigger]
            post_migrators[last].promised(store, shorter[last], Err(out->Err_0), after);
        assert(post_migrators[last].promised(store, longer[last], Ok(()), longer[last + 1]));
        assert(false);
    } else if trace_a.len() < post_migrators.len() + 1 {
        assert(post_migrator_pinned(post_migrators[last], store));
        let after_a = choose|after: TreeView| #[trigger]
            post_migrators[last].promised(store, trace_a[last], Err(a->Err_0), after);
        let after_b = choose|after: TreeView| #[trigger]
            post_migrators[last].promised(store, trace_b[last], Err(b->Err_0), after);
        assert(Err::<(), MigrationError>(a->Err_0) == Err::<(), MigrationError>(b->Err_0));
    }
}

/// The units of planned jobs are units of the registry: where every unit of
/// the registry pins what it returns, so does the unit of every job.
pub proof fn lemma_planned_units_pinned<BS, U: ActorMigration<BS>>(
    registry: Seq<(Cid, RegistryEntry<U>)>,
    store: &BS,
    listing: Seq<(Address, ActorStateView)>,
)
    requires
        forall|k: int|
            0 <= k < registry.len() ==> unit_pinned((#[trigger] registry[k]).1.unit, store),
        planned(registry, listing) is Ok,
    ensures
        forall|k: int|
            0 <= k < listing.len() ==> unit_pinned(
                (#[trigger] planned(registry, listing)->Ok_0[k]).actor_migrator,
                store,
            ),
{
    let jobs = planned(registry, listing)->Ok_0;
    lemma_planned_jobs(registry, listing);
    assert forall|k: int| 0 <= k < listing.len() implies unit_pinned(
        (#[trigger] jobs[k]).actor_migrator,
        store,
    ) by {
        assert(job_for(registry, listing[k]) == Ok::<MigrationJobView<U>, MigrationError>(jobs[k]));
        let code = listing[k].1.code;
        lemma_first_value_member(registry, code);
        let at = choose|at: int|
            0 <= at < registry.len() && #[trigger] registry[at] == (
                code,
                first_value(registry, code)->Some_0,
            );
        assert(unit_pinned(registry[at].1.unit, store));
    }
}

/// Determinism. Where every unit of the registry and every post-migrator pins
/// what it does against the store, a migration of a tree against that store
/// can yield one thing only: the same new tree, or the same failure, however
/// often it is run.
pub proof fn lemma_migration_deterministic<BS, U: ActorMigration<BS>, P: PostMigrator<BS>>(
    registry: Seq<(Cid, RegistryEntry<U>)>,
    post_migrators: Seq<P>,
    store: &BS,
    prior_epoch: ChainEpoch,
    listing: Seq<(Address, ActorStateView)>,
    first: Result<TreeView, MigrationError>,
    second: Result<TreeView, MigrationError>,
)
    requires
        forall|k: int|
            0 <= k < registry.len() ==> unit_pinned((#[trigger] registry[k]).1.unit, store),
        forall|k: int|
            0 <= k < post_migrators.len() ==> post_migrator_pinned(
                #[trigger] post_migrators[k],
                store,
            ),
        may_migrate(registry, post_migrators, store, prior_epoch, listing, first),
        may_migrate(registry, post_migrators, store, prior_epoch, listing, second),
    ensures
        first == second,
{
    let merged_a = choose|merged: Result<TreeView, MigrationError>| #[trigger]
        may_merge(registry, store, prior_epoch, listing, merged) && match merged {
            Err(e) => first == Err::<TreeView, MigrationError>(e),
            Ok(tree) => may_adjust(post_migrators, store, tree, first),
        };
    let merged_b = choose|merged: Result<TreeView, MigrationError>| #[trigger]
        may_merge(registry, store, prior_epoch, listing, merged) && match merged {
            Err(e) => second == Err::<TreeView, MigrationError>(e),
            Ok(tree) => may_adjust(post_migrators, store, tree, second),
        };
    if let Ok(jobs) = planned(registry, listing) {
        let staged_a = choose|staged: Result<Seq<(Address, ActorStateView)>, MigrationError>|
            #[trigger] may_stage(jobs, store, prior_epoch, staged) && merged_a == merge_of(staged);
        let staged_b = choose|staged: Result<Seq<(Address, ActorStateView)>, MigrationError>|
            #[trigger] may_stage(jobs, store, prior_epoch, staged) && merged_b == merge_of(staged);
        lemma_planned_jobs(registry, listing);
        lemma_planned_units_pinned(registry, store, listing);
        lemma_stage_pinned(jobs, store, prior_epoch, staged_a, staged_b);
    }
    if let Ok(tree) = merged_a {
        lemma_adjust_pinned(post_migrators, store, tree, first, second);
    }
}

} // verus!
