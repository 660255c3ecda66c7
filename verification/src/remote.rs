//! The order in which commands reach the drone.
use vstd::prelude::*;

verus! {

/// The commands sent for one requested command, each with the milliseconds to wait
/// after it: `takeoff` is tried as takeoff (wait 3 s), land (wait 20 s), then the
/// command itself; every command ends with a 100 ms pause.
pub open spec fn command_steps(cmd: Seq<char>) -> Seq<(Seq<char>, u64)> {
    if cmd == "takeoff"@ {
        seq![("takeoff"@, 3000u64), ("land"@, 20000u64), (cmd, 100u64)]
    } else {
        seq![(cmd, 100u64)]
    }
}

/// The commands to send for `cmd`, each with the pause after it in milliseconds.
pub fn cmd_start(cmd: &String) -> (res: Vec<(String, u64)>)
    ensures
        res@.map_values(|p: (String, u64)| (p.0@, p.1)) == command_steps(cmd@),
{
    let mut steps: Vec<(String, u64)> = Vec::new();
    if *cmd == String::from_str("takeoff") {
        steps.push((String::from_str("takeoff"), 3000));
        steps.push((String::from_str("land"), 20000));
    }
    steps.push((cmd.clone(), 100));
    assert(steps@.map_values(|p: (String, u64)| (p.0@, p.1)) =~= command_steps(cmd@));
    steps
}

} // verus!
