use state_migration::address::{Address, Payload};
use state_migration::econ::TokenAmount;
use state_migration::ipld::Cid;
use state_migration::migration::{
    nil_migrator, verify, verify_tree, ActorCreator, ActorMigration, ActorMigrationInput,
    ActorMigrationOutput, ActorState, ExpectedConstants, Manifest, MigrationError, MigrationJob,
    MigrationJobOutput, Migrator, NilMigrator, PostMigrator, Registry, StateMigration, StateTree,
    UnitChoice, Upgrade,
};

fn cid(tag: u8) -> Cid {
    Cid::new(1, 0x71, 0xb220, &[tag; 32]).unwrap()
}

fn actor(code: Cid, head: Cid, atto: u64, sequence: u64) -> ActorState {
    ActorState { code, head, balance: TokenAmount::from_atto(atto), sequence }
}

/// A unit of the tests: rewrites every head to a fixed one, or fails.
#[derive(Clone, Copy, Debug)]
enum TestUnit {
    Rewrite { code: Cid, head: Cid },
    Fail(MigrationError),
}

impl ActorMigration<()> for TestUnit {
    fn migrate_state(
        &self,
        _store: &(),
        _input: ActorMigrationInput,
    ) -> Result<ActorMigrationOutput, MigrationError> {
        match self {
            TestUnit::Rewrite { code, head } => {
                Ok(ActorMigrationOutput { new_code_cid: *code, new_head: *head })
            }
            TestUnit::Fail(e) => Err(*e),
        }
    }
}

/// A post-migrator of the tests: creates an actor, or fails.
#[derive(Clone, Copy, Debug)]
enum TestPost {
    Create(ActorCreator),
    Fail(MigrationError),
}

impl PostMigrator<()> for TestPost {
    fn post_migrate_state(
        &self,
        store: &(),
        actors_out: &mut StateTree,
    ) -> Result<(), MigrationError> {
        match self {
            TestPost::Create(creator) => creator.post_migrate_state(store, actors_out),
            TestPost::Fail(e) => Err(*e),
        }
    }
}

const A: Address = Payload::ID(100);
const B: Address = Payload::ID(101);
const C: Address = Payload::ID(102);

fn manifests() -> (Manifest, Manifest) {
    let old = Manifest::new(vec![
        ("account".to_string(), cid(1)),
        ("init".to_string(), cid(2)),
    ]);
    let new = Manifest::new(vec![
        ("init".to_string(), cid(12)),
        ("account".to_string(), cid(11)),
    ]);
    (old, new)
}

fn units(init: TestUnit) -> Vec<(String, UnitChoice<TestUnit>)> {
    vec![
        ("account".to_string(), UnitChoice::Identity),
        ("init".to_string(), UnitChoice::Custom(init)),
    ]
}

fn rewriting() -> TestUnit {
    TestUnit::Rewrite { code: cid(12), head: cid(42) }
}

fn migration(init: TestUnit, post: Vec<TestPost>) -> StateMigration<TestUnit, TestPost> {
    let (old, new) = manifests();
    let registry = Registry::build(&old, &new, &units(init)).unwrap();
    StateMigration::new(registry, post)
}

fn old_tree() -> StateTree {
    let mut tree = StateTree::new();
    tree.set_actor(A, actor(cid(1), cid(31), 5, 7));
    tree.set_actor(B, actor(cid(2), cid(32), 9, 0));
    tree
}

#[test]
fn end_to_end_example() {
    let new_tree = migration(rewriting(), Vec::new())
        .migrate_state_tree(&(), 10, &old_tree())
        .unwrap();
    assert_eq!(new_tree.len(), 2);
    assert_eq!(new_tree.get_actor(&A), Some(&actor(cid(11), cid(31), 5, 7)));
    assert_eq!(new_tree.get_actor(&B), Some(&actor(cid(12), cid(42), 9, 0)));
}

#[test]
fn migrating_twice_yields_the_same() {
    let migration = migration(rewriting(), Vec::new());
    let first = migration.migrate_state_tree(&(), 10, &old_tree());
    let second = migration.migrate_state_tree(&(), 10, &old_tree());
    assert!(first.is_ok());
    assert_eq!(first, second);
}

#[test]
fn every_address_has_an_entry_in_the_new_tree() {
    let mut tree = old_tree();
    for id in 200..220 {
        tree.set_actor(Payload::ID(id), actor(cid(1), cid(33), id, 1));
    }
    let new_tree = migration(rewriting(), Vec::new())
        .migrate_state_tree(&(), 10, &tree)
        .unwrap();
    assert_eq!(new_tree.len(), tree.len());
    for i in 0..tree.len() {
        let (address, _) = tree.entry(i).unwrap();
        assert!(new_tree.get_actor(address).is_some());
    }
}

#[test]
fn identity_unit_keeps_the_head_and_sets_the_target_code() {
    let new_tree = migration(rewriting(), Vec::new())
        .migrate_state_tree(&(), 10, &old_tree())
        .unwrap();
    let migrated = new_tree.get_actor(&A).unwrap();
    assert_eq!(migrated.head, cid(31));
    assert_eq!(migrated.code, cid(11));
    assert_eq!(migrated.balance, TokenAmount::from_atto(5));
    assert_eq!(migrated.sequence, 7);
}

#[test]
fn nil_migrator_alone() {
    let input = ActorMigrationInput {
        address: A,
        balance: TokenAmount::from_atto(1),
        head: cid(31),
        prior_epoch: 4,
    };
    let output = NilMigrator(cid(11)).migrate_state(&(), input);
    assert_eq!(output, Ok(ActorMigrationOutput { new_code_cid: cid(11), new_head: cid(31) }));
    let unit: Migrator<TestUnit> = nil_migrator(cid(11));
    assert!(matches!(unit, Migrator::Nil(NilMigrator(code)) if code == cid(11)));
}

#[test]
fn merging_in_another_order_yields_the_same_tree() {
    let outputs = vec![
        MigrationJobOutput { address: A, actor_state: actor(cid(11), cid(31), 5, 7) },
        MigrationJobOutput { address: B, actor_state: actor(cid(12), cid(42), 9, 0) },
        MigrationJobOutput { address: C, actor_state: actor(cid(11), cid(33), 1, 1) },
    ];
    let orders: [[usize; 3]; 6] =
        [[0, 1, 2], [0, 2, 1], [1, 0, 2], [1, 2, 0], [2, 0, 1], [2, 1, 0]];
    for order in orders {
        let permuted: Vec<MigrationJobOutput> = order
            .iter()
            .map(|&i| MigrationJobOutput {
                address: outputs[i].address,
                actor_state: outputs[i].actor_state.clone(),
            })
            .collect();
        let tree = StateMigration::<TestUnit, TestPost>::merge(&permuted);
        assert_eq!(tree.len(), 3);
        for output in &outputs {
            assert_eq!(tree.get_actor(&output.address), Some(&output.actor_state));
        }
    }
}

#[test]
fn unknown_code_is_fatal() {
    let mut tree = old_tree();
    tree.set_actor(C, actor(cid(99), cid(33), 1, 1));
    let result = migration(rewriting(), Vec::new()).migrate_state_tree(&(), 10, &tree);
    assert_eq!(result, Err(MigrationError::UnknownActorCode(cid(99))));
}

#[test]
fn unknown_code_is_fatal_whatever_the_units_do() {
    let mut tree = old_tree();
    tree.set_actor(C, actor(cid(99), cid(33), 1, 1));
    let failing = TestUnit::Fail(MigrationError::StoreError);
    let result = migration(failing, Vec::new()).migrate_state_tree(&(), 10, &tree);
    assert_eq!(result, Err(MigrationError::UnknownActorCode(cid(99))));
}

#[test]
fn unknown_code_yields_no_root() {
    let mut tree = old_tree();
    tree.set_actor(C, actor(cid(99), cid(33), 1, 1));
    let expected = ExpectedConstants { state_root: None, actor_codes: Vec::new() };
    let result = migration(rewriting(), Vec::new()).run(&(), 10, &tree, &expected, |_| {
        panic!("nothing is flushed")
    });
    assert_eq!(result, Err(MigrationError::UnknownActorCode(cid(99))));
}

#[test]
fn a_failing_unit_ends_the_run() {
    for error in [MigrationError::StoreError, MigrationError::MalformedActorState] {
        let result = migration(TestUnit::Fail(error), Vec::new())
            .migrate_state_tree(&(), 10, &old_tree());
        assert_eq!(result, Err(error));
    }
}

#[test]
fn jobs_are_planned_in_the_order_of_the_tree() {
    let migration = migration(rewriting(), Vec::new());
    let tree = old_tree();
    let jobs: Vec<MigrationJob<TestUnit>> = migration.plan_jobs(&tree).unwrap();
    assert_eq!(jobs.len(), 2);
    assert_eq!(jobs[0].address, A);
    assert_eq!(jobs[0].actor_state, actor(cid(1), cid(31), 5, 7));
    assert!(matches!(jobs[0].actor_migrator, Migrator::Nil(NilMigrator(code)) if *code == cid(11)));
    assert_eq!(jobs[1].address, B);
    assert!(matches!(jobs[1].actor_migrator, Migrator::Custom(_)));
    assert_eq!(
        jobs[1].run(&(), 10),
        Ok(MigrationJobOutput { address: B, actor_state: actor(cid(12), cid(42), 9, 0) })
    );
    let outputs = StateMigration::<TestUnit, TestPost>::run_jobs(&jobs, &(), 10).unwrap();
    assert_eq!(outputs.len(), 2);
    assert_eq!(outputs[0].address, A);
    assert_eq!(outputs[1].address, B);
}

#[test]
fn post_migrators_run_in_their_declared_order() {
    let first = ActorCreator { address: C, code: cid(50), head: cid(51) };
    let second = ActorCreator { address: C, code: cid(60), head: cid(61) };
    let new_tree = migration(rewriting(), vec![TestPost::Create(first), TestPost::Create(second)])
        .migrate_state_tree(&(), 10, &old_tree())
        .unwrap();
    assert_eq!(new_tree.len(), 3);
    assert_eq!(new_tree.get_actor(&C), Some(&actor(cid(60), cid(61), 0, 0)));
    let new_tree = migration(rewriting(), vec![TestPost::Create(second), TestPost::Create(first)])
        .migrate_state_tree(&(), 10, &old_tree())
        .unwrap();
    assert_eq!(new_tree.get_actor(&C), Some(&actor(cid(50), cid(51), 0, 0)));
    assert_eq!(new_tree.get_actor(&A), Some(&actor(cid(11), cid(31), 5, 7)));
}

#[test]
fn a_post_migrator_may_replace_a_migrated_actor() {
    let creator = ActorCreator { address: A, code: cid(50), head: cid(51) };
    let new_tree = migration(rewriting(), vec![TestPost::Create(creator)])
        .migrate_state_tree(&(), 10, &old_tree())
        .unwrap();
    assert_eq!(new_tree.len(), 2);
    assert_eq!(new_tree.get_actor(&A), Some(&actor(cid(50), cid(51), 0, 0)));
}

#[test]
fn a_failing_post_migrator_ends_the_run() {
    let creator = ActorCreator { address: C, code: cid(50), head: cid(51) };
    let post = vec![
        TestPost::Create(creator),
        TestPost::Fail(MigrationError::StoreError),
        TestPost::Fail(MigrationError::MalformedActorState),
    ];
    let result = migration(rewriting(), post).migrate_state_tree(&(), 10, &old_tree());
    assert_eq!(result, Err(MigrationError::StoreError));
}

#[test]
fn registry_pairs_the_manifests_by_name() {
    let (old, new) = manifests();
    let registry = Registry::build(&old, &new, &units(rewriting())).unwrap();
    assert_eq!(registry.len(), 2);
    let account = registry.get(&cid(1)).unwrap();
    assert_eq!(account.new_code, cid(11));
    assert!(matches!(account.unit, Migrator::Nil(NilMigrator(code)) if code == cid(11)));
    let init = registry.get(&cid(2)).unwrap();
    assert_eq!(init.new_code, cid(12));
    assert!(matches!(init.unit, Migrator::Custom(TestUnit::Rewrite { .. })));
    assert!(registry.get(&cid(11)).is_none());
    assert!(registry.get(&cid(3)).is_none());
}

#[test]
fn registry_needs_every_kind_in_the_new_manifest() {
    let (old, _) = manifests();
    let new = Manifest::new(vec![("account".to_string(), cid(11))]);
    let result = Registry::build(&old, &new, &units(rewriting()));
    assert_eq!(result.err(), Some(MigrationError::UnknownActorCode(cid(2))));
}

#[test]
fn registry_needs_a_unit_for_every_kind() {
    let (old, new) = manifests();
    let declared: Vec<(String, UnitChoice<TestUnit>)> =
        vec![("init".to_string(), UnitChoice::Identity)];
    let result = Registry::build(&old, &new, &declared);
    assert_eq!(result.err(), Some(MigrationError::UnknownActorCode(cid(1))));
}

#[test]
fn registry_of_an_empty_manifest_is_empty() {
    let (_, new) = manifests();
    let registry = Registry::build(&Manifest::new(Vec::new()), &new, &units(rewriting())).unwrap();
    assert_eq!(registry.len(), 0);
    assert!(registry.get(&cid(1)).is_none());
}

#[test]
fn manifest_lookup_by_name() {
    let (old, new) = manifests();
    assert_eq!(old.len(), 2);
    assert_eq!(old.code_by_name(&"account".to_string()), Some(cid(1)));
    assert_eq!(new.code_by_name(&"account".to_string()), Some(cid(11)));
    assert_eq!(new.code_by_name(&"system".to_string()), None);
    let twice = Manifest::new(vec![("a".to_string(), cid(1)), ("a".to_string(), cid(2))]);
    assert_eq!(twice.code_by_name(&"a".to_string()), Some(cid(1)));
}

#[test]
fn state_tree_keeps_its_order_and_replaces_in_place() {
    let mut tree = StateTree::new();
    assert_eq!(tree.len(), 0);
    assert!(tree.entry(0).is_none());
    assert!(tree.get_actor(&A).is_none());
    tree.set_actor(A, actor(cid(1), cid(31), 5, 7));
    tree.set_actor(B, actor(cid(2), cid(32), 9, 0));
    tree.set_actor(A, actor(cid(3), cid(33), 6, 8));
    assert_eq!(tree.len(), 2);
    assert_eq!(tree.entry(0), Some((&A, &actor(cid(3), cid(33), 6, 8))));
    assert_eq!(tree.entry(1), Some((&B, &actor(cid(2), cid(32), 9, 0))));
    assert!(tree.entry(2).is_none());
    assert_eq!(tree.get_actor(&B), Some(&actor(cid(2), cid(32), 9, 0)));
    assert!(tree.get_actor(&C).is_none());
}

#[test]
fn verify_holds_the_root_against_the_expected_one() {
    let open = ExpectedConstants { state_root: None, actor_codes: Vec::new() };
    assert_eq!(verify(&cid(70), &open), Ok(()));
    let fixed = ExpectedConstants { state_root: Some(cid(70)), actor_codes: Vec::new() };
    assert_eq!(verify(&cid(70), &fixed), Ok(()));
    assert_eq!(verify(&cid(71), &fixed), Err(MigrationError::VerificationFailure));
}

#[test]
fn verify_tree_holds_actors_against_their_expected_codes() {
    let tree = old_tree();
    let met = ExpectedConstants { state_root: None, actor_codes: vec![(A, cid(1)), (B, cid(2))] };
    assert_eq!(verify_tree(&tree, &met), Ok(()));
    let other_code = ExpectedConstants { state_root: None, actor_codes: vec![(A, cid(1)), (B, cid(3))] };
    assert_eq!(verify_tree(&tree, &other_code), Err(MigrationError::VerificationFailure));
    let missing = ExpectedConstants { state_root: None, actor_codes: vec![(C, cid(1))] };
    assert_eq!(verify_tree(&tree, &missing), Err(MigrationError::VerificationFailure));
    let none = ExpectedConstants { state_root: None, actor_codes: Vec::new() };
    assert_eq!(verify_tree(&StateTree::new(), &none), Ok(()));
}

#[test]
fn run_returns_the_root_that_the_flush_gave() {
    let expected = ExpectedConstants {
        state_root: Some(cid(70)),
        actor_codes: vec![(A, cid(11)), (B, cid(12))],
    };
    let result = migration(rewriting(), Vec::new()).run(&(), 10, &old_tree(), &expected, |tree| {
        assert_eq!(tree.len(), 2);
        Ok(cid(70))
    });
    assert_eq!(result, Ok(cid(70)));
}

#[test]
fn run_fails_where_the_flush_fails() {
    let expected = ExpectedConstants { state_root: Some(cid(70)), actor_codes: vec![(C, cid(1))] };
    let result = migration(rewriting(), Vec::new())
        .run(&(), 10, &old_tree(), &expected, |_| Err(MigrationError::StoreError));
    assert_eq!(result, Err(MigrationError::StoreError));
}

#[test]
fn run_fails_where_the_result_is_not_the_expected_one() {
    let migration = migration(rewriting(), Vec::new());
    let other_root = ExpectedConstants { state_root: Some(cid(71)), actor_codes: Vec::new() };
    let result = migration.run(&(), 10, &old_tree(), &other_root, |_| Ok(cid(70)));
    assert_eq!(result, Err(MigrationError::VerificationFailure));
    let other_code = ExpectedConstants { state_root: None, actor_codes: vec![(A, cid(1))] };
    let result = migration.run(&(), 10, &old_tree(), &other_code, |_| Ok(cid(70)));
    assert_eq!(result, Err(MigrationError::VerificationFailure));
}

#[test]
fn conclude_for_each_outcome_of_the_flush() {
    let tree = old_tree();
    let expected = ExpectedConstants { state_root: Some(cid(70)), actor_codes: vec![(A, cid(1))] };
    let conclude = StateMigration::<TestUnit, TestPost>::conclude;
    assert_eq!(conclude(&tree, Ok(cid(70)), &expected), Ok(cid(70)));
    assert_eq!(
        conclude(&tree, Ok(cid(71)), &expected),
        Err(MigrationError::VerificationFailure)
    );
    assert_eq!(
        conclude(&tree, Err(MigrationError::StoreError), &expected),
        Err(MigrationError::StoreError)
    );
    assert_eq!(
        conclude(&StateTree::new(), Ok(cid(70)), &expected),
        Err(MigrationError::VerificationFailure)
    );
}

#[test]
fn an_empty_tree_migrates_to_an_empty_tree() {
    let new_tree = migration(rewriting(), Vec::new())
        .migrate_state_tree(&(), 10, &StateTree::new())
        .unwrap();
    assert_eq!(new_tree.len(), 0);
}

#[test]
fn a_job_hands_its_unit_the_record_of_its_actor() {
    let migration = migration(rewriting(), Vec::new());
    let tree = old_tree();
    let jobs = migration.plan_jobs(&tree).unwrap();
    let input = jobs[0].input(10);
    assert_eq!(input.address, A);
    assert_eq!(input.balance, TokenAmount::from_atto(5));
    assert_eq!(input.head, cid(31));
    assert_eq!(input.prior_epoch, 10);
}

#[test]
fn a_job_stages_what_its_unit_returned() {
    let migration = migration(rewriting(), Vec::new());
    let tree = old_tree();
    let jobs = migration.plan_jobs(&tree).unwrap();
    let returned = ActorMigrationOutput { new_code_cid: cid(80), new_head: cid(81) };
    assert_eq!(
        jobs[0].stage(Ok(returned)),
        Ok(MigrationJobOutput { address: A, actor_state: actor(cid(80), cid(81), 5, 7) })
    );
    assert_eq!(
        jobs[1].stage(Err(MigrationError::MalformedActorState)),
        Err(MigrationError::MalformedActorState)
    );
}

fn upgrade(init: TestUnit, expected: ExpectedConstants) -> Upgrade<TestUnit, TestPost> {
    let (old_manifest, new_manifest) = manifests();
    Upgrade { old_manifest, new_manifest, units: units(init), post_migrators: Vec::new(), expected }
}

#[test]
fn an_upgrade_runs_from_the_old_tree_to_the_new_root() {
    let expected = ExpectedConstants { state_root: Some(cid(70)), actor_codes: vec![(B, cid(12))] };
    let result = upgrade(rewriting(), expected).run_migration(&(), 10, &old_tree(), |tree| {
        assert_eq!(tree.get_actor(&A), Some(&actor(cid(11), cid(31), 5, 7)));
        assert_eq!(tree.get_actor(&B), Some(&actor(cid(12), cid(42), 9, 0)));
        Ok(cid(70))
    });
    assert_eq!(result, Ok(cid(70)));
}

#[test]
fn an_upgrade_without_a_registry_does_not_start() {
    let expected = ExpectedConstants { state_root: None, actor_codes: Vec::new() };
    let mut declared = upgrade(rewriting(), expected);
    declared.units.pop();
    let result =
        declared.run_migration(&(), 10, &old_tree(), |_| panic!("nothing is flushed"));
    assert_eq!(result, Err(MigrationError::UnknownActorCode(cid(2))));
}

#[test]
fn an_upgrade_gives_its_migration() {
    let expected = ExpectedConstants { state_root: Some(cid(70)), actor_codes: Vec::new() };
    let (migration, expected) = upgrade(rewriting(), expected).migration().unwrap();
    assert_eq!(migration.registry.len(), 2);
    assert_eq!(migration.post_migrators.len(), 0);
    assert_eq!(expected.state_root, Some(cid(70)));
}
