//! Decisions of the peer-to-peer layer: who is asked, at which address, and what a
//! vote decides.
use vstd::prelude::*;
use crate::instance::config::{BlockInfo, Node, UpdateNode, Vote, GENESIS_PORT};
use crate::text::{str_greater, str_less};

verus! {

/// How many votes in the list are in favour.
pub open spec fn count_true(votes: Seq<Vote>) -> nat
    decreases votes.len(),
{
    if votes.len() == 0 {
        0
    } else {
        count_true(votes.drop_last()) + if votes.last().result {
            1nat
        } else {
            0nat
        }
    }
}

/// A vote passes when more than 51% of the votes are in favour.
pub open spec fn vote_passes(votes: Seq<Vote>) -> bool {
    100 * count_true(votes) > 51 * votes.len()
}

proof fn lemma_count_true_bound(votes: Seq<Vote>)
    ensures
        count_true(votes) <= votes.len(),
    decreases votes.len(),
{
    if votes.len() > 0 {
        lemma_count_true_bound(votes.drop_last());
    }
}

/// Decides a vote: true when the votes in favour are more than 51% of all votes.
/// (The count is compared as `100 * yes > 51 * all` in integers; this is the
/// floating-point comparison `yes > all * 0.51` for every list length below 10^14.)
pub fn calculate_vote_result(result_list: Vec<Vote>) -> (res: bool)
    ensures
        res == vote_passes(result_list@),
{
    let total_votes = result_list.len();
    let mut true_count: usize = 0;
    let mut i: usize = 0;
    while i < total_votes
        invariant
            i <= total_votes,
            total_votes == result_list@.len(),
            true_count == count_true(result_list@.take(i as int)),
        decreases total_votes - i,
    {
        proof {
            assert(result_list@.take(i + 1).drop_last() =~= result_list@.take(i as int));
            lemma_count_true_bound(result_list@.take(i as int));
        }
        if result_list[i].result {
            true_count = true_count + 1;
        }
        i = i + 1;
    }
    assert(result_list@.take(total_votes as int) =~= result_list@);
    (true_count as u128) * 100 > (total_votes as u128) * 51
}

/// Law: a passing vote still passes when one more vote in favour is added.
pub proof fn law_vote_in_favour_keeps_pass(votes: Seq<Vote>, v: Vote)
    requires
        vote_passes(votes),
        v.result,
    ensures
        vote_passes(votes.push(v)),
{
    assert(votes.push(v).drop_last() =~= votes);
}

/// Law: a failing vote still fails when one more vote against is added.
pub proof fn law_vote_against_keeps_fail(votes: Seq<Vote>, v: Vote)
    requires
        !vote_passes(votes),
        !v.result,
    ensures
        !vote_passes(votes.push(v)),
{
    assert(votes.push(v).drop_last() =~= votes);
}

/// Law: with no votes nothing passes; a unanimous non-empty vote passes.
pub proof fn law_vote_extremes(votes: Seq<Vote>)
    ensures
        votes.len() == 0 ==> !vote_passes(votes),
        (votes.len() > 0 && forall|i: int| 0 <= i < votes.len() ==> #[trigger] votes[i].result)
            ==> vote_passes(votes),
{
    if votes.len() > 0 && forall|i: int| 0 <= i < votes.len() ==> #[trigger] votes[i].result {
        lemma_all_true_count(votes);
    }
}

proof fn lemma_all_true_count(votes: Seq<Vote>)
    requires
        forall|i: int| 0 <= i < votes.len() ==> #[trigger] votes[i].result,
    ensures
        count_true(votes) == votes.len(),
    decreases votes.len(),
{
    if votes.len() > 0 {
        let d = votes.drop_last();
        assert forall|i: int| 0 <= i < d.len() implies #[trigger] d[i].result by {
            assert(d[i] == votes[i]);
        }
        lemma_all_true_count(d);
        assert(votes[votes.len() - 1].result);
    }
}

/// The answers of a list of votes, in order.
pub open spec fn vote_results(votes: Seq<Vote>) -> Seq<bool> {
    votes.map_values(|v: Vote| v.result)
}

proof fn lemma_count_true_is_multiset_count(votes: Seq<Vote>)
    ensures
        count_true(votes) == vote_results(votes).to_multiset().count(true),
        votes.len() == vote_results(votes).to_multiset().len(),
    decreases votes.len(),
{
    broadcast use vstd::seq_lib::group_to_multiset_ensures;

    if votes.len() == 0 {
        assert(vote_results(votes) =~= Seq::<bool>::empty());
        assert(vote_results(votes).to_multiset() =~= vstd::multiset::Multiset::<bool>::empty());
    } else {
        let d = votes.drop_last();
        lemma_count_true_is_multiset_count(d);
        assert(vote_results(votes) =~= vote_results(d).push(votes.last().result));
    }
}

/// Law: a vote's outcome depends only on how many answers are yes and how many no:
/// lists whose answers are the same multiset (in any order, from any addresses)
/// decide alike.
pub proof fn law_vote_ignores_order_and_addresses(a: Seq<Vote>, b: Seq<Vote>)
    requires
        vote_results(a).to_multiset() == vote_results(b).to_multiset(),
    ensures
        vote_passes(a) == vote_passes(b),
{
    lemma_count_true_is_multiset_count(a);
    lemma_count_true_is_multiset_count(b);
}

/// The address `ip:port` under which a node is known.
pub open spec fn address_of(ip: Seq<char>, port: Seq<char>) -> Seq<char> {
    ip + ":"@ + port
}

/// The address `ip:port` under which a node is known.
pub fn node_address(ip: &str, port: &str) -> (res: String)
    ensures
        res@ == address_of(ip@, port@),
{
    let mut s = String::from_str(ip);
    s.append(":");
    s.append(port);
    s
}

/// The URL of `route` on the node at `address`.
pub open spec fn url_of(address: Seq<char>, route: Seq<char>) -> Seq<char> {
    "http://"@ + address + route
}

/// The URL of `route` on the node at `address` (`http://{address}{route}`).
pub fn node_url(address: &str, route: &str) -> (res: String)
    ensures
        res@ == url_of(address@, route@),
{
    let mut s = String::from_str("http://");
    s.append(address);
    s.append(route);
    s
}

/// The URL of `route` on the genesis node, at the network's port.
pub fn genesis_url(genesis_ip: &str, route: &str) -> (res: String)
    ensures
        res@ == url_of(address_of(genesis_ip@, GENESIS_PORT@), route@),
{
    let addr = node_address(genesis_ip, GENESIS_PORT);
    node_url(addr.as_str(), route)
}

/// The URLs of `route` on every node of the list except the one at `me`, in list order.
pub open spec fn peer_urls(nodes: Seq<Node>, me: Seq<char>, route: Seq<char>) -> Seq<Seq<char>>
    decreases nodes.len(),
{
    if nodes.len() == 0 {
        Seq::empty()
    } else if nodes.last().address@ != me {
        peer_urls(nodes.drop_last(), me, route).push(url_of(nodes.last().address@, route))
    } else {
        peer_urls(nodes.drop_last(), me, route)
    }
}

/// The views of a list of strings.
pub open spec fn string_views(v: Seq<String>) -> Seq<Seq<char>> {
    v.map_values(|s: String| s@)
}

/// The URLs of `route` on every node of the list except this node (`my_addr`):
/// the nodes that a broadcast reaches.
pub fn peer_route_urls(nodes: &Vec<Node>, my_addr: &str, route: &str) -> (res: Vec<String>)
    ensures
        string_views(res@) == peer_urls(nodes@, my_addr@, route@),
{
    let mut res: Vec<String> = Vec::new();
    let me = String::from_str(my_addr);
    let n = nodes.len();
    for i in 0..n
        invariant
            n == nodes@.len(),
            me@ == my_addr@,
            string_views(res@) == peer_urls(nodes@.take(i as int), my_addr@, route@),
    {
        proof {
            assert(nodes@.take(i + 1).drop_last() =~= nodes@.take(i as int));
        }
        let ghost before = res@;
        if nodes[i].address != me {
            res.push(node_url(nodes[i].address.as_str(), route));
            assert(string_views(res@) =~= string_views(before).push(url_of(nodes@[i as int].address@, route@)));
        }
    }
    assert(nodes@.take(n as int) =~= nodes@);
    res
}

/// The node list of a network that this node opens as its genesis node.
pub fn genesis_node_list(my_ip: &str, my_port: &str) -> (res: Vec<Node>)
    ensures
        res@.len() == 1,
        res@[0].address@ == address_of(my_ip@, my_port@),
        res@[0].node_type@ == "Genesis"@,
{
    let genesis_node = Node::new(node_address(my_ip, my_port), String::from_str("Genesis"));
    let mut v = Vec::new();
    v.push(genesis_node);
    v
}

/// The record with which this node asks the genesis node to register it.
pub fn registration_body(my_ip: &str, my_port: &str, node_type: &str) -> (res: Node)
    ensures
        res.address@ == address_of(my_ip@, my_port@),
        res.node_type@ == node_type@,
{
    Node { address: node_address(my_ip, my_port), node_type: String::from_str(node_type) }
}

/// Whether the genesis node's chain is ahead of ours: its length text comes after
/// ours in the order of strings (as `String > String` compares them).
pub fn needs_full_sync(remote: &BlockInfo, my_len: &str) -> (res: bool)
    ensures
        res == str_less(my_len@, remote.length@),
{
    str_greater(remote.length.as_str(), my_len)
}

/// The request with which a node leaves the network to go into remote mode.
pub fn remote_mode_request(my_ip: &str, my_port: &str, my_type: &str) -> (res: UpdateNode)
    ensures
        res.delete_ip@ == address_of(my_ip@, my_port@),
        res.update_ip@ == "None"@,
        res.node_type@ == my_type@,
{
    UpdateNode::new(node_address(my_ip, my_port), String::from_str("None"), String::from_str(my_type))
}

/// How many answers are yes.
pub open spec fn count_yes(votes: Seq<bool>) -> nat
    decreases votes.len(),
{
    if votes.len() == 0 {
        0
    } else {
        count_yes(votes.drop_last()) + if votes.last() {
            1nat
        } else {
            0nat
        }
    }
}

/// Consensus by simple majority: more than half of the answers are yes.
pub fn simple_majority(votes: &Vec<bool>) -> (res: bool)
    ensures
        res == (2 * count_yes(votes@) > votes@.len()),
{
    let total_votes = votes.len();
    let mut positive_votes: usize = 0;
    for i in 0..total_votes
        invariant
            total_votes == votes@.len(),
            positive_votes == count_yes(votes@.take(i as int)),
            positive_votes <= i,
    {
        assert(votes@.take(i + 1).drop_last() =~= votes@.take(i as int));
        if votes[i] {
            positive_votes = positive_votes + 1;
        }
    }
    assert(votes@.take(total_votes as int) =~= votes@);
    (positive_votes as u128) * 2 > total_votes as u128
}

/// The node list after registering `ip`: unchanged when `ip` is listed, else with
/// `ip` appended.
pub open spec fn registered(nodes: Seq<Seq<char>>, ip: Seq<char>) -> Seq<Seq<char>> {
    if nodes.contains(ip) {
        nodes
    } else {
        nodes.push(ip)
    }
}

/// Adds `ip` to the node list unless it is already there; true when it was added.
pub fn register_node(nodes: &mut Vec<String>, ip: &String) -> (res: bool)
    ensures
        res == !string_views(old(nodes)@).contains(ip@),
        string_views(final(nodes)@) == registered(string_views(old(nodes)@), ip@),
        !res ==> final(nodes)@ == old(nodes)@,
{
    if crate::heartbeat::contains_string(nodes, ip) {
        false
    } else {
        let ghost before = nodes@;
        nodes.push(ip.clone());
        assert(string_views(nodes@) =~= string_views(before).push(ip@));
        true
    }
}

/// Law: a registered address is listed, and registering it again changes nothing.
pub proof fn law_register_is_idempotent(nodes: Seq<Seq<char>>, ip: Seq<char>)
    ensures
        registered(nodes, ip).contains(ip),
        registered(registered(nodes, ip), ip) == registered(nodes, ip),
{
    if !nodes.contains(ip) {
        assert(nodes.push(ip)[nodes.len() as int] == ip);
    }
}

} // verus!
