use dronechain::heartbeat::heartbeat_update;
use dronechain::instance::config::{BlockInfo, Location, Node, RemoteServerReq, Result, UpdateNode, Vote};
use dronechain::monitor::network_changed;
use dronechain::p2p::{
    calculate_vote_result, genesis_node_list, genesis_url, needs_full_sync, node_address, node_url,
    peer_route_urls, register_node, registration_body, remote_mode_request, simple_majority,
};

fn votes(yes: usize, no: usize) -> Vec<Vote> {
    let mut v = Vec::new();
    for i in 0..yes {
        v.push(Vote::new(format!("y{}", i), true));
    }
    for i in 0..no {
        v.push(Vote::new(format!("n{}", i), false));
    }
    v
}

#[test]
fn vote_result_needs_more_than_51_percent() {
    assert!(!calculate_vote_result(votes(0, 0)));
    assert!(calculate_vote_result(votes(1, 0)));
    assert!(!calculate_vote_result(votes(0, 1)));
    assert!(!calculate_vote_result(votes(1, 1)));
    assert!(calculate_vote_result(votes(2, 1)));
    assert!(!calculate_vote_result(votes(51, 49)));
    assert!(calculate_vote_result(votes(52, 48)));
}

#[test]
fn vote_result_agrees_with_the_float_rule() {
    for total in 0..60usize {
        for yes in 0..=total {
            let float_rule = yes as f64 > (total as f64) * 0.51;
            assert_eq!(calculate_vote_result(votes(yes, total - yes)), float_rule, "{} of {}", yes, total);
        }
    }
}

#[test]
fn simple_majority_is_more_than_half() {
    assert!(!simple_majority(&vec![]));
    assert!(simple_majority(&vec![true]));
    assert!(!simple_majority(&vec![true, false]));
    assert!(simple_majority(&vec![true, false, true]));
}

#[test]
fn records_keep_their_fields() {
    let v = Vote::new("a".to_string(), true);
    assert_eq!(v.addr, "a");
    assert!(v.result);
    assert!(!Result::new(false).result);
    let u = UpdateNode::new("d".to_string(), "u".to_string(), "t".to_string());
    assert_eq!((u.delete_ip.as_str(), u.update_ip.as_str(), u.node_type.as_str()), ("d", "u", "t"));
    let b = BlockInfo::new("3".to_string(), "x".to_string());
    assert_eq!((b.length.as_str(), b.addr.as_str()), ("3", "x"));
    let r = RemoteServerReq::new("i".to_string(), "c".to_string(), String::new());
    assert_eq!((r.ip.as_str(), r.cmd.as_str(), r.description.as_str()), ("i", "c", ""));
    let n = Node::new("1.2.3.4:9999".to_string(), "car".to_string());
    assert_eq!((n.address.as_str(), n.node_type.as_str()), ("1.2.3.4:9999", "car"));
    let l = Location::new("1".to_string(), "2".to_string(), "3".to_string());
    assert_eq!((l.x.as_str(), l.y.as_str(), l.z.as_str()), ("1", "2", "3"));
}

#[test]
fn addresses_and_urls() {
    assert_eq!(node_address("10.0.0.1", "9999"), "10.0.0.1:9999");
    assert_eq!(node_url("10.0.0.1:9999", "/consensus"), "http://10.0.0.1:9999/consensus");
    assert_eq!(genesis_url("10.0.0.2", "/is-valid"), "http://10.0.0.2:9999/is-valid");
}

#[test]
fn broadcast_skips_this_node() {
    let nodes = vec![
        Node::new("a:1".to_string(), "x".to_string()),
        Node::new("me:9999".to_string(), "x".to_string()),
        Node::new("b:2".to_string(), "x".to_string()),
    ];
    let urls = peer_route_urls(&nodes, "me:9999", "/broadcast-block");
    assert_eq!(urls, vec!["http://a:1/broadcast-block", "http://b:2/broadcast-block"]);
    assert!(peer_route_urls(&vec![], "me", "/x").is_empty());
}

#[test]
fn genesis_list_and_registration() {
    let l = genesis_node_list("10.0.0.5", "9999");
    assert_eq!(l.len(), 1);
    assert_eq!(l[0].address, "10.0.0.5:9999");
    assert_eq!(l[0].node_type, "Genesis");
    let body = registration_body("10.0.0.6", "9999", "drone");
    assert_eq!(body.address, "10.0.0.6:9999");
    assert_eq!(body.node_type, "drone");
    let req = remote_mode_request("10.0.0.6", "9999", "car");
    assert_eq!(req.delete_ip, "10.0.0.6:9999");
    assert_eq!(req.update_ip, "None");
    assert_eq!(req.node_type, "car");
}

#[test]
fn sync_compares_lengths_as_text() {
    let info = |s: &str| BlockInfo::new(s.to_string(), String::new());
    assert!(needs_full_sync(&info("3"), "2"));
    assert!(!needs_full_sync(&info("2"), "2"));
    assert!(!needs_full_sync(&info("10"), "9"));
    assert!(needs_full_sync(&info("1"), ""));
}

#[test]
fn register_node_adds_once() {
    let mut nodes = vec!["a".to_string()];
    assert!(register_node(&mut nodes, &"b".to_string()));
    assert!(!register_node(&mut nodes, &"b".to_string()));
    assert!(!register_node(&mut nodes, &"a".to_string()));
    assert_eq!(nodes, vec!["a", "b"]);
}

#[test]
fn heartbeat_detects_dead_nodes() {
    let nodes: Vec<String> = vec!["me".into(), "a".into(), "b".into()];
    assert!(heartbeat_update(&nodes, &"me".to_string(), &vec![false, true, true]).is_none());
    let r = heartbeat_update(&nodes, &"me".to_string(), &vec![false, true, false]).unwrap();
    assert_eq!(r, vec!["me".to_string(), "a".to_string()]);
    let dup: Vec<String> = vec!["a".into(), "a".into()];
    let r = heartbeat_update(&dup, &"me".to_string(), &vec![true, true]).unwrap();
    assert_eq!(r, vec!["me".to_string(), "a".to_string()]);
    assert!(heartbeat_update(&vec![], &"me".to_string(), &vec![]).is_none());
}

#[test]
fn network_change_is_reported_after_the_first() {
    let mut last = String::new();
    assert!(!network_changed(&mut last, &"192.168.1".to_string()));
    assert_eq!(last, "192.168.1");
    assert!(!network_changed(&mut last, &"192.168.1".to_string()));
    assert!(network_changed(&mut last, &"10.0.0".to_string()));
    assert_eq!(last, "10.0.0");
}

#[test]
fn vote_ignores_order_and_addresses() {
    let a = votes(3, 2);
    let mut b: Vec<Vote> = a.iter().rev().map(|v| Vote::new(format!("other-{}", v.addr), v.result)).collect();
    assert_eq!(calculate_vote_result(a), calculate_vote_result(b.clone()));
    b.push(Vote::new("x".to_string(), true));
    assert!(calculate_vote_result(b));
}
