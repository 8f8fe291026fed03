//! Manifests, and the registry that an upgrade builds from two of them.

use vstd::prelude::*;

use super::assoc::{
    first_value, lemma_first_value_found, lemma_first_value_skip, lemma_try_each_fails,
    lemma_try_each_ok, lemma_try_each_step, try_each,
};
use super::migrators::{nil_migrator, Migrator, NilMigrator};
use super::MigrationError;
use crate::ipld::Cid;

verus! {

/// What a list of named items says: each name by its characters.
pub open spec fn named<V>(entries: Seq<(String, V)>) -> Seq<(Seq<char>, V)> {
    Seq::new(entries.len(), |i: int| (entries[i].0@, entries[i].1))
}

/// The value under the first entry of `entries` with the given name.
fn find_named<'a, V>(entries: &'a Vec<(String, V)>, name: &String) -> (r: Option<&'a V>)
    ensures
        match r {
            Some(v) => first_value(named(entries@), name@) == Some(*v),
            None => first_value(named(entries@), name@) is None,
        },
{
    let ghost all = named(entries@);
    let mut i: usize = 0;
    while i < entries.len()
        invariant
            i <= entries.len(),
            all == named(entries@),
            forall|j: int| 0 <= j < i ==> all[j].0 != name@,
        decreases entries.len() - i,
    {
        if entries[i].0 == *name {
            proof {
                lemma_first_value_skip(all, name@, i as int);
                assert(all.skip(i as int)[0] == all[i as int]);
            }
            return Some(&entries[i].1);
        }
        i = i + 1;
    }
    proof {
        lemma_first_value_skip(all, name@, i as int);
        assert(all.skip(i as int).len() == 0);
    }
    None
}

/// The directory of one network version: each actor kind's name with the
/// identifier of its code, in the manifest's order.
#[derive(Clone, Debug)]
pub struct Manifest {
    entries: Vec<(String, Cid)>,
}

impl View for Manifest {
    type V = Seq<(Seq<char>, Cid)>;

    closed spec fn view(&self) -> Seq<(Seq<char>, Cid)> {
        named(self.entries@)
    }
}

impl Manifest {
    /// The manifest with the given entries.
    pub fn new(entries: Vec<(String, Cid)>) -> (r: Self)
        ensures
            r@ == named(entries@),
    {
        Manifest { entries }
    }

    /// The number of actor kinds in the manifest.
    pub fn len(&self) -> (r: usize)
        ensures
            r == self@.len(),
    {
        self.entries.len()
    }

    /// The identifier of the code of the actor kind with the given name: that
    /// of the first entry with the name.
    pub fn code_by_name(&self, name: &String) -> (r: Option<Cid>)
        ensures
            r == first_value(self@, name@),
    {
        match find_named(&self.entries, name) {
            Some(code) => Some(*code),
            None => None,
        }
    }
}

/// What an upgrade declares for an actor kind: the identity unit, or a unit of
/// its own.
#[derive(Clone, Copy, Debug)]
pub enum UnitChoice<U> {
    /// The actor's state keeps its layout: only its code identifier changes.
    Identity,
    /// The actor's state is rewritten by the given unit.
    Custom(U),
}

/// What the registry holds for one old code identifier.
#[derive(Clone, Copy, Debug)]
pub struct RegistryEntry<U> {
    /// The identifier of the actor kind's code after the upgrade.
    pub new_code: Cid,
    /// The unit that migrates actors of the kind.
    pub unit: Migrator<U>,
}

/// The registry entry for the actor kind `name`, if the new manifest has the
/// kind and the upgrade declares a unit for it.
pub open spec fn entry_for<U>(
    name: Seq<char>,
    new_manifest: Seq<(Seq<char>, Cid)>,
    units: Seq<(Seq<char>, UnitChoice<U>)>,
) -> Option<RegistryEntry<U>> {
    match (first_value(new_manifest, name), first_value(units, name)) {
        (Some(new_code), Some(choice)) => Some(
            RegistryEntry {
                new_code,
                unit: match choice {
                    UnitChoice::Identity => Migrator::Nil(NilMigrator(new_code)),
                    UnitChoice::Custom(unit) => Migrator::Custom(unit),
                },
            },
        ),
        _ => None,
    }
}

/// What `Registry::build` yields: an entry for each kind of the old manifest,
/// in its order, or the identifier of the first old code that has no entry in
/// the new manifest or no unit.
pub open spec fn built<U>(
    old_manifest: Seq<(Seq<char>, Cid)>,
    new_manifest: Seq<(Seq<char>, Cid)>,
    units: Seq<(Seq<char>, UnitChoice<U>)>,
) -> Result<Seq<(Cid, RegistryEntry<U>)>, MigrationError> {
    try_each(
        old_manifest,
        |kind: (Seq<char>, Cid)|
            match entry_for(kind.0, new_manifest, units) {
                Some(entry) => Ok((kind.1, entry)),
                None => Err(MigrationError::UnknownActorCode(kind.1)),
            },
    )
}

/// Where the construction succeeds, the registry has an entry for each kind of
/// the old manifest, at the kind's place and under its old code identifier.
/// The entry holds the code identifier that the new manifest has for the kind.
/// Where the upgrade declares the identity unit for the kind, the entry's unit
/// is the identity unit with that code identifier as its target.
pub proof fn lemma_built_entries<U>(
    old_manifest: Seq<(Seq<char>, Cid)>,
    new_manifest: Seq<(Seq<char>, Cid)>,
    units: Seq<(Seq<char>, UnitChoice<U>)>,
    i: int,
)
    requires
        built(old_manifest, new_manifest, units) is Ok,
        0 <= i < old_manifest.len(),
    ensures
        ({
            let registry = built(old_manifest, new_manifest, units)->Ok_0;
            let name = old_manifest[i].0;
            &&& registry.len() == old_manifest.len()
            &&& registry[i].0 == old_manifest[i].1
            &&& first_value(new_manifest, name) == Some(registry[i].1.new_code)
            &&& first_value(units, name) is Some
            &&& first_value(units, name) == Some(UnitChoice::<U>::Identity) ==> registry[i].1.unit
                == Migrator::<U>::Nil(NilMigrator(registry[i].1.new_code))
            &&& first_value(units, name) matches Some(UnitChoice::Custom(unit))
                ==> registry[i].1.unit == Migrator::Custom(unit)
        }),
{
    let step = |kind: (Seq<char>, Cid)|
        match entry_for(kind.0, new_manifest, units) {
            Some(entry) => Ok::<(Cid, RegistryEntry<U>), MigrationError>((kind.1, entry)),
            None => Err::<(Cid, RegistryEntry<U>), MigrationError>(
                MigrationError::UnknownActorCode(kind.1),
            ),
        };
    assert(built(old_manifest, new_manifest, units) == try_each(old_manifest, step));
    lemma_try_each_ok(old_manifest, step);
    let registry = built(old_manifest, new_manifest, units)->Ok_0;
    assert(step(old_manifest[i]) == Ok::<(Cid, RegistryEntry<U>), MigrationError>(registry[i]));
}

/// Where the construction succeeds, the registry resolves every code
/// identifier of the old manifest. Where the old manifest holds no code
/// identifier twice, it resolves each to the entry at the kind's place.
pub proof fn lemma_built_resolves<U>(
    old_manifest: Seq<(Seq<char>, Cid)>,
    new_manifest: Seq<(Seq<char>, Cid)>,
    units: Seq<(Seq<char>, UnitChoice<U>)>,
    i: int,
)
    requires
        built(old_manifest, new_manifest, units) is Ok,
        0 <= i < old_manifest.len(),
    ensures
        ({
            let registry = built(old_manifest, new_manifest, units)->Ok_0;
            &&& first_value(registry, old_manifest[i].1) is Some
            &&& (forall|a: int, b: int|
                0 <= a < b < old_manifest.len() ==> old_manifest[a].1 != old_manifest[b].1)
                ==> first_value(registry, old_manifest[i].1) == Some(registry[i].1)
        }),
{
    let registry = built(old_manifest, new_manifest, units)->Ok_0;
    lemma_built_entries(old_manifest, new_manifest, units, i);
    if forall|a: int, b: int|
        0 <= a < b < old_manifest.len() ==> old_manifest[a].1 != old_manifest[b].1 {
        assert forall|a: int, b: int| 0 <= a < b < registry.len() implies registry[a].0
            != registry[b].0 by {
            lemma_built_entries(old_manifest, new_manifest, units, a);
            lemma_built_entries(old_manifest, new_manifest, units, b);
        }
    }
    lemma_first_value_found(registry, i);
}

/// The registry of an upgrade: for each old code identifier the unit that
/// migrates its actors and the new code identifier. It is built once and read
/// thereafter.
#[derive(Debug)]
pub struct Registry<U> {
    entries: Vec<(Cid, RegistryEntry<U>)>,
}

impl<U> View for Registry<U> {
    type V = Seq<(Cid, RegistryEntry<U>)>;

    closed spec fn view(&self) -> Seq<(Cid, RegistryEntry<U>)> {
        self.entries@
    }
}

impl<U: Copy> Registry<U> {
    /// Pairs the entries of the two manifests by name and gives each old code
    /// identifier its unit. An old code identifier whose kind the new
    /// manifest lacks, or for which no unit is declared, ends the
    /// construction: the run must not start.
    pub fn build(
        old_manifest: &Manifest,
        new_manifest: &Manifest,
        units: &Vec<(String, UnitChoice<U>)>,
    ) -> (r: Result<Self, MigrationError>)
        ensures
            match r {
                Ok(registry) => built(old_manifest@, new_manifest@, named(units@)) == Ok::<
                    Seq<(Cid, RegistryEntry<U>)>,
                    MigrationError,
                >(registry@),
                Err(e) => built(old_manifest@, new_manifest@, named(units@)) == Err::<
                    Seq<(Cid, RegistryEntry<U>)>,
                    MigrationError,
                >(e),
            },
    {
        let ghost step = |kind: (Seq<char>, Cid)|
            match entry_for(kind.0, new_manifest@, named(units@)) {
                Some(entry) => Ok::<(Cid, RegistryEntry<U>), MigrationError>((kind.1, entry)),
                None => Err::<(Cid, RegistryEntry<U>), MigrationError>(
                    MigrationError::UnknownActorCode(kind.1),
                ),
            };
        let mut entries: Vec<(Cid, RegistryEntry<U>)> = Vec::new();
        let mut i: usize = 0;
        proof {
            assert(old_manifest@.take(0) =~= Seq::empty());
        }
        while i < old_manifest.entries.len()
            invariant
                i <= old_manifest.entries.len(),
                old_manifest@ == named(old_manifest.entries@),
                step == |kind: (Seq<char>, Cid)|
                    match entry_for(kind.0, new_manifest@, named(units@)) {
                        Some(entry) => Ok::<(Cid, RegistryEntry<U>), MigrationError>(
                            (kind.1, entry),
                        ),
                        None => Err::<(Cid, RegistryEntry<U>), MigrationError>(
                            MigrationError::UnknownActorCode(kind.1),
                        ),
                    },
                try_each(old_manifest@.take(i as int), step) == Ok::<
                    Seq<(Cid, RegistryEntry<U>)>,
                    MigrationError,
                >(entries@),
            decreases old_manifest.entries.len() - i,
        {
            let name = &old_manifest.entries[i].0;
            let old_code = old_manifest.entries[i].1;
            proof {
                lemma_try_each_step(old_manifest@, step, i as int);
                assert(old_manifest@[i as int] == (name@, old_code));
            }
            let new_code = match new_manifest.code_by_name(name) {
                Some(code) => code,
                None => {
                    proof {
                        lemma_try_each_fails(old_manifest@, step, i as int + 1);
                    }
                    return Err(MigrationError::UnknownActorCode(old_code));
                },
            };
            let unit: Migrator<U> = match find_named(units, name) {
                Some(UnitChoice::Identity) => nil_migrator(new_code),
                Some(UnitChoice::Custom(unit)) => Migrator::Custom(*unit),
                None => {
                    proof {
                        lemma_try_each_fails(old_manifest@, step, i as int + 1);
                    }
                    return Err(MigrationError::UnknownActorCode(old_code));
                },
            };
            entries.push((old_code, RegistryEntry { new_code, unit }));
            i = i + 1;
        }
        proof {
            assert(old_manifest@.take(i as int) =~= old_manifest@);
        }
        Ok(Registry { entries })
    }
}

impl<U> Registry<U> {
    /// The number of old code identifiers in the registry.
    pub fn len(&self) -> (r: usize)
        ensures
            r == self@.len(),
    {
        self.entries.len()
    }

    /// The entry for an old code identifier: that of the first one in the
    /// registry's order, or `None` where the registry has none.
    pub fn get(&self, code: &Cid) -> (r: Option<&RegistryEntry<U>>)
        ensures
            match r {
                Some(entry) => first_value(self@, *code) == Some(*entry),
                None => first_value(self@, *code) is None,
            },
    {
        let mut i: usize = 0;
        while i < self.entries.len()
            invariant
                i <= self.entries.len(),
                forall|j: int| 0 <= j < i ==> self@[j].0 != *code,
            decreases self.entries.len() - i,
        {
            if self.entries[i].0 == *code {
                proof {
                    lemma_first_value_skip(self@, *code, i as int);
                    assert(self@.skip(i as int)[0] == self@[i as int]);
                }
                return Some(&self.entries[i].1);
            }
            i = i + 1;
        }
        proof {
            lemma_first_value_skip(self@, *code, i as int);
            assert(self@.skip(i as int).len() == 0);
        }
        None
    }
}

} // verus!
