//! What a node does with the newest block: find a command for itself and decide where
//! it goes.
use vstd::prelude::*;
use crate::blockchain::{Block, DataModel};

verus! {

/// An entry is a pending command for this node: it names this node, its state
/// differs from its command, and it is not the state last acted on.
pub open spec fn is_pending(d: DataModel, my_ip: Seq<char>, init_state: Seq<char>) -> bool {
    &&& d.id == my_ip
    &&& d.state != d.command
    &&& init_state != d.state
}

/// Looks in the newest block for the first pending command for this node. Found:
/// `(true, its state, its command, node_type)`; the caller records `init_state` as the
/// node's state. Not found: `(false, init_state, "", "")`.
pub fn check(init_state: String, my_ip: &String, last_block: &Block, node_type: &String) -> (res: (
    bool,
    String,
    String,
    String,
))
    ensures
        res.0 <==> exists|j: int|
            0 <= j < last_block@.data.len() && is_pending(
                #[trigger] last_block@.data[j],
                my_ip@,
                init_state@,
            ),
        res.0 ==> exists|j: int|
            0 <= j < last_block@.data.len() && is_pending(
                #[trigger] last_block@.data[j],
                my_ip@,
                init_state@,
            ) && (forall|k: int|
                0 <= k < j ==> !is_pending(#[trigger] last_block@.data[k], my_ip@, init_state@))
                && res.1@ == last_block@.data[j].state && res.2@ == last_block@.data[j].command
                && res.3@ == node_type@,
        !res.0 ==> res.1@ == init_state@ && res.2@ == Seq::<char>::empty() && res.3@ == Seq::<
            char,
        >::empty(),
{
    let n = last_block.data.len();
    let mut i: usize = 0;
    while i < n
        invariant
            n == last_block@.data.len(),
            i <= n,
            forall|k: int|
                0 <= k < i ==> !is_pending(#[trigger] last_block@.data[k], my_ip@, init_state@),
        decreases n - i,
    {
        let data = &last_block.data[i];
        if data.id == *my_ip {
            if data.state != data.command {
                if init_state != data.state {
                    let cmd = data.command.clone();
                    let cur_state = data.state.clone();
                    let my_node_type = node_type.clone();
                    assert(is_pending(last_block@.data[i as int], my_ip@, init_state@));
                    return (true, cur_state, cmd, my_node_type);
                }
            }
        }
        i = i + 1;
    }
    (false, init_state, String::new(), String::new())
}

/// Where a command goes, by the kind of node.
#[derive(Debug, Clone, Copy, PartialEq, Eq, Structural)]
pub enum CommandTarget {
    Drone,
    Car,
    Neither,
}

/// A drone node sends its command to the drone server, a car node to the robot
/// server; other nodes send nothing.
pub fn command_target(node_type: &String) -> (res: CommandTarget)
    ensures
        node_type@ == "drone"@ ==> res is Drone,
        node_type@ == "car"@ ==> res is Car,
        node_type@ != "drone"@ && node_type@ != "car"@ ==> res is Neither,
{
    proof {
        reveal_strlit("drone");
        reveal_strlit("car");
        assert("drone"@.len() != "car"@.len());
    }
    if *node_type == String::from_str("drone") {
        CommandTarget::Drone
    } else if *node_type == String::from_str("car") {
        CommandTarget::Car
    } else {
        CommandTarget::Neither
    }
}

/// What the network monitor does on one tick.
#[derive(Debug, Clone, Copy, PartialEq, Eq, Structural)]
pub enum TickAction {
    /// The watched interface has no address: report it and wait for the next tick.
    NoInterfaceAddress,
    /// The address is the one seen before: nothing to do.
    Unchanged,
    /// The address changed: scan the network for the genesis node.
    Rescan,
}

/// The monitor's decision for the address the interface has now.
pub fn monitor_tick(previous_ip: &String, current_ip: &Option<String>) -> (res: TickAction)
    ensures
        current_ip is None ==> res == TickAction::NoInterfaceAddress,
        current_ip matches Some(ip) ==> (ip@ == previous_ip@ ==> res == TickAction::Unchanged) && (
        ip@ != previous_ip@ ==> res == TickAction::Rescan),
{
    match current_ip {
        None => TickAction::NoInterfaceAddress,
        Some(ip) => if *ip == *previous_ip {
            TickAction::Unchanged
        } else {
            TickAction::Rescan
        },
    }
}

/// What the monitor does once a rescan has finished.
#[derive(Debug, Clone, Copy, PartialEq, Eq, Structural)]
pub enum ScanAction {
    /// The scan failed: report it and keep the previous address.
    KeepPrevious,
    /// This node is the genesis node: record the new address now.
    BecomeGenesis,
    /// Another node is the genesis node: register with it, and record the new address
    /// only if it accepts.
    Register,
}

/// The monitor's decision after a rescan (`None` when the scan failed, else the
/// genesis node's address), with the address it remembers from then on: the new
/// address after a successful scan, the previous one after a failed scan.
pub fn monitor_scan_outcome(previous_ip: String, my_ip: String, genesis_ip: Option<String>) -> (res: (
    String,
    ScanAction,
))
    ensures
        genesis_ip is None ==> res.0@ == previous_ip@ && res.1 == ScanAction::KeepPrevious,
        genesis_ip matches Some(g) ==> res.0@ == my_ip@ && (g@ == my_ip@ ==> res.1
            == ScanAction::BecomeGenesis) && (g@ != my_ip@ ==> res.1 == ScanAction::Register),
{
    match genesis_ip {
        None => (previous_ip, ScanAction::KeepPrevious),
        Some(g) => if g == my_ip {
            (my_ip, ScanAction::BecomeGenesis)
        } else {
            (my_ip, ScanAction::Register)
        },
    }
}

/// Whether the node records its new address as its own: at once when it became the
/// genesis node, after registering only when the genesis node answered OK.
pub fn records_new_address(action: ScanAction, register_ok: bool) -> (res: bool)
    ensures
        res == (action == ScanAction::BecomeGenesis || (action == ScanAction::Register && register_ok)),
{
    match action {
        ScanAction::BecomeGenesis => true,
        ScanAction::Register => register_ok,
        ScanAction::KeepPrevious => false,
    }
}

} // verus!
