//! The heartbeat's decision: which nodes are still alive, and whether the node list
//! must be replaced.
use vstd::prelude::*;

verus! {

/// The nodes known to be alive: this node, and every other listed node that answered.
pub open spec fn alive_set(nodes: Seq<Seq<char>>, me: Seq<char>, alive: Seq<bool>) -> Set<Seq<char>> {
    Set::new(
        |s: Seq<char>|
            s == me || exists|i: int| 0 <= i < nodes.len() && nodes[i] == s && s != me && alive[i],
    )
}

/// How many listed nodes are not this node (each listing counted).
pub open spec fn others_count(nodes: Seq<Seq<char>>, me: Seq<char>) -> nat
    decreases nodes.len(),
{
    if nodes.len() == 0 {
        0
    } else {
        others_count(nodes.drop_last(), me) + if nodes.last() != me {
            1nat
        } else {
            0nat
        }
    }
}

proof fn lemma_others_count_bound(nodes: Seq<Seq<char>>, me: Seq<char>)
    ensures
        others_count(nodes, me) <= nodes.len(),
    decreases nodes.len(),
{
    if nodes.len() > 0 {
        lemma_others_count_bound(nodes.drop_last(), me);
    }
}

/// Whether `v` holds a string equal to `s`.
pub fn contains_string(v: &Vec<String>, s: &String) -> (res: bool)
    ensures
        res == v@.map_values(|x: String| x@).contains(s@),
{
    let n = v.len();
    for i in 0..n
        invariant
            n == v@.len(),
            forall|k: int| 0 <= k < i ==> v@[k]@ != s@,
    {
        if v[i] == *s {
            assert(v@.map_values(|x: String| x@)[i as int] == s@);
            return true;
        }
    }
    proof {
        let vs = v@.map_values(|x: String| x@);
        if vs.contains(s@) {
            let k = choose|k: int| 0 <= k < n && #[trigger] vs[k] == s@;
            assert(v@[k]@ == s@);
        }
    }
    false
}

/// The heartbeat's outcome for one round. `alive[i]` tells whether `nodes[i]`
/// answered (entries for this node are not asked and not read). When fewer other
/// nodes are alive than are listed, returns the new node list: every alive node once,
/// this node first. Otherwise returns `None`.
pub fn heartbeat_update(nodes: &Vec<String>, my_ip: &String, alive: &Vec<bool>) -> (res: Option<
    Vec<String>,
>)
    requires
        alive@.len() == nodes@.len(),
    ensures
        ({
            let ns = nodes@.map_values(|x: String| x@);
            let set = alive_set(ns, my_ip@, alive@);
            &&& set.finite()
            &&& (res is None <==> set.len() == others_count(ns, my_ip@) + 1)
            &&& (res matches Some(v) ==> {
                &&& v@.map_values(|x: String| x@).no_duplicates()
                &&& v@.map_values(|x: String| x@).to_set() == set
                &&& v@.len() > 0 && v@[0]@ == my_ip@
            })
        }),
{
    let ghost ns = nodes@.map_values(|x: String| x@);
    let mut alive_nodes: Vec<String> = Vec::new();
    alive_nodes.push(my_ip.clone());
    let mut expected_alive_count: usize = 0;
    let n = nodes.len();
    proof {
        let v0 = alive_nodes@.map_values(|x: String| x@);
        assert forall|s: Seq<char>| v0.to_set().contains(s) == alive_set(ns.take(0), my_ip@, alive@.take(0)).contains(s) by {
            if s == my_ip@ {
                assert(v0[0] == s);
            }
        }
        assert(v0.to_set() =~= alive_set(ns.take(0), my_ip@, alive@.take(0)));
    }
    for i in 0..n
        invariant
            n == nodes@.len(),
            n == alive@.len(),
            ns == nodes@.map_values(|x: String| x@),
            expected_alive_count == others_count(ns.take(i as int), my_ip@),
            alive_nodes@.len() > 0,
            alive_nodes@[0]@ == my_ip@,
            alive_nodes@.map_values(|x: String| x@).no_duplicates(),
            alive_nodes@.map_values(|x: String| x@).to_set() == alive_set(
                ns.take(i as int),
                my_ip@,
                alive@.take(i as int),
            ),
    {
        proof {
            assert(ns.take(i + 1).drop_last() =~= ns.take(i as int));
            lemma_others_count_bound(ns.take(i as int), my_ip@);
        }
        let ghost before = alive_nodes@.map_values(|x: String| x@);
        let node = &nodes[i];
        if *node != *my_ip {
            expected_alive_count = expected_alive_count + 1;
            if alive[i] && !contains_string(&alive_nodes, node) {
                alive_nodes.push(node.clone());
                proof {
                    assert(alive_nodes@.map_values(|x: String| x@) =~= before.push(node@));
                }
            }
        }
        proof {
            let now = alive_nodes@.map_values(|x: String| x@);
            let t1 = ns.take(i + 1);
            let a1 = alive@.take(i + 1);
            let t0 = ns.take(i as int);
            let a0 = alive@.take(i as int);
            assert forall|s: Seq<char>| now.to_set().contains(s) == alive_set(t1, my_ip@, a1).contains(s) by {
                if alive_set(t0, my_ip@, a0).contains(s) && s != my_ip@ {
                    let k = choose|k: int| 0 <= k < t0.len() && t0[k] == s && s != my_ip@ && a0[k];
                    assert(t1[k] == s && a1[k]);
                }
                if alive_set(t1, my_ip@, a1).contains(s) && s != my_ip@ {
                    let k = choose|k: int| 0 <= k < t1.len() && t1[k] == s && s != my_ip@ && a1[k];
                    if k < i {
                        assert(t0[k] == s && a0[k]);
                        assert(alive_set(t0, my_ip@, a0).contains(s));
                        assert(before.contains(s));
                        assert(now.contains(s)) by {
                            let j = choose|j: int| 0 <= j < before.len() && before[j] == s;
                            assert(now[j] == s);
                        }
                    } else {
                        assert(k == i);
                        if !before.contains(s) {
                            assert(now[now.len() - 1] == s);
                        } else {
                            let j = choose|j: int| 0 <= j < before.len() && before[j] == s;
                            assert(now[j] == s);
                        }
                    }
                }
                if now.contains(s) && s != my_ip@ {
                    let j = choose|j: int| 0 <= j < now.len() && now[j] == s;
                    if j < before.len() {
                        assert(before[j] == s);
                        assert(before.to_set().contains(s));
                        let k = choose|k: int| 0 <= k < t0.len() && t0[k] == s && s != my_ip@ && a0[k];
                        assert(t1[k] == s && a1[k]);
                    } else {
                        assert(t1[i as int] == s && a1[i as int]);
                    }
                }
                if s == my_ip@ {
                    assert(now[0] == s);
                }
            }
            assert(now.to_set() =~= alive_set(t1, my_ip@, a1));
        }
    }
    proof {
        assert(ns.take(n as int) =~= ns);
        assert(alive@.take(n as int) =~= alive@);
        let v = alive_nodes@.map_values(|x: String| x@);
        v.unique_seq_to_set();
    }
    let actual_alive_count = alive_nodes.len() - 1;
    if actual_alive_count != expected_alive_count {
        Some(alive_nodes)
    } else {
        None
    }
}

} // verus!
