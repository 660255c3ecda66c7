//! The network monitor's decision: has the node moved to another network?
use vstd::prelude::*;

verus! {

/// Takes the network prefix seen now. The first prefix seen is only remembered;
/// a later prefix that differs from the remembered one is remembered and reported
/// (the node must then re-join); an equal one changes nothing.
pub fn network_changed(last_network: &mut String, current_network: &String) -> (res: bool)
    ensures
        old(last_network)@.len() == 0 ==> !res && final(last_network)@ == current_network@,
        old(last_network)@.len() != 0 && old(last_network)@ != current_network@ ==> res
            && final(last_network)@ == current_network@,
        old(last_network)@.len() != 0 && old(last_network)@ == current_network@ ==> !res
            && final(last_network)@ == old(last_network)@,
{
    if last_network.as_str().is_empty() {
        *last_network = current_network.clone();
        false
    } else if *last_network != *current_network {
        *last_network = current_network.clone();
        true
    } else {
        false
    }
}

} // verus!
