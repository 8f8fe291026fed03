//! What the command line decides before it runs a command.

use vstd::prelude::*;

verus! {

/// The name under which a node reports the calibration network.
pub open spec fn calibnet_name() -> Seq<char> {
    "calibnet"@
}

/// Whether a command runs against the calibration network rather than the
/// configured one: where no chain was chosen on the command line and the node
/// that was asked reports the calibration network by name.
pub fn uses_calibnet(chain_chosen: bool, reported_name: Option<&String>) -> (r: bool)
    ensures
        r == (!chain_chosen && reported_name is Some && reported_name->Some_0@
            == calibnet_name()),
{
    if chain_chosen {
        return false;
    }
    match reported_name {
        Some(name) => *name == "calibnet".to_owned(),
        None => false,
    }
}

} // verus!
