//! Addresses on the remote control server.
use vstd::prelude::*;
use crate::instance::config::REMOTE_SERVER;

verus! {

/// `REMOTE_SERVER` followed by `route` and the remote device's address, as in
/// `{REMOTE_SERVER}/drone/video/{ip}`.
pub fn remote_url(route: &str, remote_ip: &str) -> (res: String)
    ensures
        res@ == REMOTE_SERVER@ + route@ + remote_ip@,
{
    let mut s = String::from_str(REMOTE_SERVER);
    s.append(route);
    s.append(remote_ip);
    s
}

} // verus!
