//! What a finished migration is held against.

use vstd::prelude::*;

use super::state_tree::{StateTree, TreeView};
use super::MigrationError;
use crate::address::Address;
use crate::ipld::Cid;

verus! {

/// The constants that an upgrade expects of its result: the root of the new
/// tree, where it is known beforehand, and the code identifiers that given
/// actors must have in the new tree.
#[derive(Clone, Debug)]
pub struct ExpectedConstants {
    pub state_root: Option<Cid>,
    pub actor_codes: Vec<(Address, Cid)>,
}

/// The new root is the expected one, where one is expected.
pub open spec fn root_meets(new_root: Cid, state_root: Option<Cid>) -> bool {
    state_root matches Some(root) ==> root == new_root
}

/// Every actor of which a code identifier is expected is in the tree, with
/// that code identifier.
pub open spec fn tree_meets(tree: TreeView, actor_codes: Seq<(Address, Cid)>) -> bool {
    forall|i: int|
        0 <= i < actor_codes.len() ==> tree.contains_key((#[trigger] actor_codes[i]).0)
            && tree[actor_codes[i].0].code == actor_codes[i].1
}

/// Checks the root of the new tree. A mismatch is a `VerificationFailure`: the
/// migration itself is wrong, not its input.
pub fn verify(new_root: &Cid, expected: &ExpectedConstants) -> (r: Result<(), MigrationError>)
    ensures
        r == if root_meets(*new_root, expected.state_root) {
            Ok::<(), MigrationError>(())
        } else {
            Err::<(), MigrationError>(MigrationError::VerificationFailure)
        },
{
    match &expected.state_root {
        Some(root) => {
            if *root == *new_root {
                Ok(())
            } else {
                Err(MigrationError::VerificationFailure)
            }
        },
        None => Ok(()),
    }
}

/// Checks the actors of the new tree of which a code identifier is expected.
/// Reads the tree and changes nothing.
pub fn verify_tree(tree: &StateTree, expected: &ExpectedConstants) -> (r: Result<(), MigrationError>)
    ensures
        r == if tree_meets(tree@, expected.actor_codes@) {
            Ok::<(), MigrationError>(())
        } else {
            Err::<(), MigrationError>(MigrationError::VerificationFailure)
        },
{
    let mut i: usize = 0;
    while i < expected.actor_codes.len()
        invariant
            i <= expected.actor_codes.len(),
            tree_meets(tree@, expected.actor_codes@.take(i as int)),
        decreases expected.actor_codes.len() - i,
    {
        let ghost codes = expected.actor_codes@;
        let met = match tree.get_actor(&expected.actor_codes[i].0) {
            Some(state) => state.code == expected.actor_codes[i].1,
            None => false,
        };
        if !met {
            proof {
                assert(!(tree@.contains_key(codes[i as int].0) && tree@[codes[i as int].0].code
                    == codes[i as int].1));
            }
            return Err(MigrationError::VerificationFailure);
        }
        proof {
            assert forall|j: int| 0 <= j < i + 1 implies tree@.contains_key(
                (#[trigger] codes.take(i as int + 1)[j]).0,
            ) && tree@[codes.take(i as int + 1)[j].0].code == codes.take(i as int + 1)[j].1 by {
                if j < i {
                    assert(codes.take(i as int)[j] == codes[j]);
                }
            }
        }
        i = i + 1;
    }
    proof {
        assert(expected.actor_codes@.take(i as int) =~= expected.actor_codes@);
    }
    Ok(())
}

} // verus!
