//! Where the scanner looks for the genesis node, and how it reads the genesis file.
use vstd::prelude::*;
use crate::text::{decimal, trim, trim_str, u64_to_decimal};

verus! {

/// The first three octets of an IPv4 address, written `a.b.c`.
pub open spec fn subnet_of(octets: Seq<u8>) -> Seq<char> {
    decimal(octets[0] as nat) + "."@ + decimal(octets[1] as nat) + "."@ + decimal(octets[2] as nat)
}

/// The `/24` network of an IPv4 address, written `a.b.c`.
pub fn subnet_prefix(octets: [u8; 4]) -> (res: String)
    ensures
        res@ == subnet_of(octets@),
{
    let mut s = u64_to_decimal(octets[0] as u64);
    s.append(".");
    s.append(u64_to_decimal(octets[1] as u64).as_str());
    s.append(".");
    s.append(u64_to_decimal(octets[2] as u64).as_str());
    s
}

/// The address `prefix.i`.
pub open spec fn host_of(prefix: Seq<char>, i: nat) -> Seq<char> {
    prefix + "."@ + decimal(i)
}

/// The addresses `prefix.1` up to `prefix.last`, in order, without `me`.
pub open spec fn scan_list(prefix: Seq<char>, me: Seq<char>, last: nat) -> Seq<Seq<char>>
    decreases last,
{
    if last == 0 {
        Seq::empty()
    } else if host_of(prefix, last) != me {
        scan_list(prefix, me, (last - 1) as nat).push(host_of(prefix, last))
    } else {
        scan_list(prefix, me, (last - 1) as nat)
    }
}

/// The hosts that a scan asks, in order: `prefix.1` to `prefix.last`, skipping this
/// node's own address.
pub fn scan_targets(prefix: &str, my_ip: &str, last: u64) -> (res: Vec<String>)
    ensures
        res@.map_values(|s: String| s@) == scan_list(prefix@, my_ip@, last as nat),
{
    let me = String::from_str(my_ip);
    let mut res: Vec<String> = Vec::new();
    let mut i: u64 = 1;
    while i <= last
        invariant
            1 <= i,
            i <= last + 1,
            me@ == my_ip@,
            res@.map_values(|s: String| s@) == scan_list(prefix@, my_ip@, (i - 1) as nat),
        decreases last + 1 - i,
    {
        let ghost before = res@.map_values(|s: String| s@);
        let mut target = String::from_str(prefix);
        target.append(".");
        target.append(u64_to_decimal(i).as_str());
        assert(target@ == host_of(prefix@, i as nat));
        if target != me {
            res.push(target);
            assert(res@.map_values(|s: String| s@) =~= before.push(host_of(prefix@, i as nat)));
        }
        if i == u64::MAX {
            return res;
        }
        i = i + 1;
    }
    res
}

/// The genesis node's address as the genesis file holds it: the file's text, trimmed.
pub fn genesis_ip_from_config(contents: &str) -> (res: String)
    ensures
        res@ == trim(contents@),
{
    trim_str(contents)
}

} // verus!
