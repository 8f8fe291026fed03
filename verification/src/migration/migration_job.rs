//! One actor's pending transformation.

use vstd::prelude::*;

use super::migrators::Migrator;
use super::state_tree::{ActorState, ActorStateView};
use super::{
    ActorMigration, ActorMigrationInput, ActorMigrationInputView, ActorMigrationOutput, ChainEpoch,
    MigrationError,
};
use crate::address::Address;

verus! {

/// What a job says.
pub struct MigrationJobView<U> {
    pub address: Address,
    pub actor_state: ActorStateView,
    pub actor_migrator: Migrator<U>,
}

/// One actor's pending transformation: its address, its current record, and
/// the unit assigned to it.
#[derive(Debug)]
pub struct MigrationJob<'a, U> {
    pub address: Address,
    pub actor_state: ActorState,
    pub actor_migrator: &'a Migrator<U>,
}

impl<'a, U> View for MigrationJob<'a, U> {
    type V = MigrationJobView<U>;

    open spec fn view(&self) -> MigrationJobView<U> {
        MigrationJobView {
            address: self.address,
            actor_state: self.actor_state@,
            actor_migrator: *self.actor_migrator,
        }
    }
}

/// What a job yields: the actor's new record, to be written under its
/// address.
#[derive(Debug, PartialEq, Eq)]
pub struct MigrationJobOutput {
    pub address: Address,
    pub actor_state: ActorState,
}

impl View for MigrationJobOutput {
    type V = (Address, ActorStateView);

    open spec fn view(&self) -> (Address, ActorStateView) {
        (self.address, self.actor_state@)
    }
}

/// What the unit of a job is given.
pub open spec fn job_input<U>(job: MigrationJobView<U>, prior_epoch: ChainEpoch) -> ActorMigrationInputView {
    ActorMigrationInputView {
        address: job.address,
        balance: job.actor_state.balance,
        head: job.actor_state.head,
        prior_epoch,
    }
}

/// What a job makes of what its unit returned: the unit's failure, or the
/// actor's address with its new record.
pub open spec fn job_staged<U>(
    job: MigrationJobView<U>,
    returned: Result<ActorMigrationOutput, MigrationError>,
) -> Result<(Address, ActorStateView), MigrationError> {
    match returned {
        Ok(output) => Ok(
            (
                job.address,
                ActorStateView {
                    code: output.new_code_cid,
                    head: output.new_head,
                    balance: job.actor_state.balance,
                    sequence: job.actor_state.sequence,
                },
            ),
        ),
        Err(e) => Err(e),
    }
}

/// Whether a job may yield `out` against a store: whether its unit may
/// return, by what it promises, something of which the job makes `out`.
pub open spec fn job_may_yield<BS, U: ActorMigration<BS>>(
    job: MigrationJobView<U>,
    store: &BS,
    prior_epoch: ChainEpoch,
    out: Result<(Address, ActorStateView), MigrationError>,
) -> bool {
    exists|returned: Result<ActorMigrationOutput, MigrationError>|
        #[trigger] job.actor_migrator.promised(store, job_input(job, prior_epoch), returned)
            && out == job_staged(job, returned)
}

/// Whether a job may succeed against a store.
pub open spec fn job_may_succeed<BS, U: ActorMigration<BS>>(
    job: MigrationJobView<U>,
    store: &BS,
    prior_epoch: ChainEpoch,
) -> bool {
    exists|output: (Address, ActorStateView)| #[trigger]
        job_may_yield(job, store, prior_epoch, Ok(output))
}

/// What a job yields, by what it says.
pub open spec fn job_yield(r: Result<MigrationJobOutput, MigrationError>) -> Result<
    (Address, ActorStateView),
    MigrationError,
> {
    match r {
        Ok(output) => Ok(output@),
        Err(e) => Err(e),
    }
}

impl<'a, U> MigrationJob<'a, U> {
    /// What the job's unit is given: the actor's address, balance and head,
    /// and the epoch before the migration.
    pub fn input(&self, prior_epoch: ChainEpoch) -> (r: ActorMigrationInput)
        ensures
            r@ == job_input(self@, prior_epoch),
    {
        ActorMigrationInput {
            address: self.address,
            balance: self.actor_state.balance.clone(),
            head: self.actor_state.head,
            prior_epoch,
        }
    }

    /// Stages what the job's unit returned: its failure as it is, or the
    /// actor's new record, with the code identifier and head that the unit
    /// returned and the balance and sequence number of the old record.
    pub fn stage(&self, returned: Result<ActorMigrationOutput, MigrationError>) -> (r: Result<
        MigrationJobOutput,
        MigrationError,
    >)
        ensures
            job_yield(r) == job_staged(self@, returned),
    {
        match returned {
            Ok(output) => Ok(
                MigrationJobOutput {
                    address: self.address,
                    actor_state: ActorState {
                        code: output.new_code_cid,
                        head: output.new_head,
                        balance: self.actor_state.balance.clone(),
                        sequence: self.actor_state.sequence,
                    },
                },
            ),
            Err(e) => Err(e),
        }
    }

    /// Runs the job's unit on the job's actor and stages what it returns.
    pub fn run<BS>(&self, store: &BS, prior_epoch: ChainEpoch) -> (r: Result<
        MigrationJobOutput,
        MigrationError,
    >) where U: ActorMigration<BS>
        ensures
            job_may_yield(self@, store, prior_epoch, job_yield(r)),
    {
        let returned = self.actor_migrator.migrate_state(store, self.input(prior_epoch));
        proof {
            assert(self@.actor_migrator.promised(store, job_input(self@, prior_epoch), returned));
        }
        self.stage(returned)
    }
}

} // verus!
