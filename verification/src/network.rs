//! Records and address arithmetic of the network layer.
use vstd::prelude::*;

verus! {

/// A signed command sent to a node.
#[derive(Clone, Debug)]
pub struct BlockData {
    pub ip: String,
    pub command: String,
    pub sign: Vec<u8>,
}

/// The text before the last `'.'` of `s` (empty when `s` has no `'.'`): the network
/// part of a dotted address.
pub open spec fn before_last_dot(s: Seq<char>) -> Seq<char>
    decreases s.len(),
{
    if s.len() == 0 {
        s
    } else if s.last() == '.' {
        s.drop_last()
    } else {
        before_last_dot(s.drop_last())
    }
}

/// The network part of an address: the text before its last `'.'`.
pub fn network_prefix(ip: &str) -> (res: String)
    ensures
        res@ == before_last_dot(ip@),
{
    let n = ip.unicode_len();
    let mut j: usize = n;
    assert(ip@.subrange(0, n as int) =~= ip@);
    while j > 0 && ip.get_char(j - 1) != '.'
        invariant
            j <= n,
            n == ip@.len(),
            before_last_dot(ip@) == before_last_dot(ip@.subrange(0, j as int)),
        decreases j,
    {
        proof {
            assert(ip@.subrange(0, j as int).drop_last() =~= ip@.subrange(0, j - 1));
        }
        j = j - 1;
    }
    proof {
        assert(ip@.subrange(0, n as int) =~= ip@);
        if j > 0 {
            assert(ip@.subrange(0, j as int).drop_last() =~= ip@.subrange(0, j - 1));
        }
    }
    if j == 0 {
        String::new()
    } else {
        String::from_str(ip.substring_char(0, j - 1))
    }
}

} // verus!
