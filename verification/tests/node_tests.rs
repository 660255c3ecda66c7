use dronechain::drone::{command_retry_step, RetryStep};
use dronechain::monitoring::{monitor_scan_outcome, monitor_tick, records_new_address, ScanAction, TickAction};
use dronechain::auth::{get_my_node_type, private_key_path, public_key_path, split_file_name};
use dronechain::blockchain::{Block, Data};
use dronechain::drone::video_buffer_step;
use dronechain::instance::setup::{genesis_node_setup, local_node_setup, parse_config_line, setup_mode, NodeSettings};
use dronechain::monitoring::{check, command_target, CommandTarget};
use dronechain::network::network_prefix;
use dronechain::network_scanner::{genesis_ip_from_config, scan_targets, subnet_prefix};
use dronechain::remote::cmd_start;
use dronechain::remote_server::remote_url;

fn names(v: &[&str]) -> Vec<String> {
    v.iter().map(|s| s.to_string()).collect()
}

#[test]
fn node_type_by_key_files() {
    assert_eq!(get_my_node_type(&names(&["usb.pem"])), "usb");
    assert_eq!(get_my_node_type(&names(&["drone.pem", "notes.txt"])), "drone");
    assert_eq!(get_my_node_type(&names(&["usb_private_key.pem"])), "user");
    assert_eq!(get_my_node_type(&names(&["controller.pem", "other.pem"])), "unknown");
    assert_eq!(get_my_node_type(&names(&["a.txt", ".pem", "pem"])), "");
    assert_eq!(get_my_node_type(&names(&[])), "");
}

#[test]
fn file_names_split_like_path() {
    for n in ["a.pem", ".pem", "a.b.pem", "a.", "..", "noext", ".hidden.pem"] {
        let p = std::path::Path::new(n);
        let expect = p.extension().map(|e| (p.file_stem().unwrap().to_str().unwrap().to_string(), e.to_str().unwrap().to_string()));
        assert_eq!(split_file_name(n), expect, "{}", n);
    }
}

#[test]
fn key_paths() {
    assert_eq!(public_key_path(" usb \n"), "./src/instance/key/usb.pem");
    assert_eq!(private_key_path("usb"), "./src/instance/usb_private_key.pem");
}

#[test]
fn genesis_setup_sets_both_fields() {
    let mut s = NodeSettings { node_type: "usb".to_string(), remote_ip: String::new() };
    genesis_node_setup(&mut s);
    assert_eq!(s.node_type, "Genesis");
    assert_eq!(s.remote_ip, "Genesis");
}

#[test]
fn settings_lines() {
    assert_eq!(parse_config_line(" node_type : drone "), Some(("node_type".to_string(), "drone".to_string())));
    assert_eq!(parse_config_line("a:b:c"), None);
    assert_eq!(parse_config_line("nothing"), None);
    assert_eq!(parse_config_line(":"), Some((String::new(), String::new())));
    let mut s = NodeSettings { node_type: "x".to_string(), remote_ip: "y".to_string() };
    let lines = names(&["node_type: drone", "bad line", "remote_ip : 10.0.0.7", "other: 1", "remote_ip: 1:2"]);
    local_node_setup(&mut s, &lines);
    assert_eq!(s.node_type, "drone");
    assert_eq!(s.remote_ip, "10.0.0.7");
}

#[test]
fn setup_mode_in_and_out_of_containers() {
    let r = setup_mode("node1".into(), "Unknown".into(), "1.1.1.1".into(), "9999".into());
    assert_eq!(r, ("node1".to_string(), "9999".to_string()));
    let r = setup_mode("node1".into(), "8080".into(), "1.1.1.1".into(), "9999".into());
    assert_eq!(r, ("node1".to_string(), "8080".to_string()));
    let r = setup_mode("Unknown".into(), "8080".into(), "1.1.1.1".into(), "7".into());
    assert_eq!(r, ("1.1.1.1".to_string(), "7".to_string()));
}

#[test]
fn check_finds_the_first_pending_command() {
    let d = |id: &str, c: &str, s: &str| Data::new(id.to_string(), c.to_string(), s.to_string());
    let block = Block::new_at(1, 0, vec![d("me", "up", "up"), d("you", "go", "STAY"), d("me", "land", "FLY"), d("me", "x", "Y")], String::new());
    let r = check("Unknown".to_string(), &"me".to_string(), &block, &"drone".to_string());
    assert_eq!(r, (true, "FLY".to_string(), "land".to_string(), "drone".to_string()));
    let r = check("FLY".to_string(), &"me".to_string(), &block, &"drone".to_string());
    assert_eq!(r, (true, "Y".to_string(), "x".to_string(), "drone".to_string()));
    let r = check("Q".to_string(), &"nobody".to_string(), &block, &"car".to_string());
    assert_eq!(r, (false, "Q".to_string(), String::new(), String::new()));
}

#[test]
fn commands_go_by_node_kind() {
    assert_eq!(command_target(&"drone".to_string()), CommandTarget::Drone);
    assert_eq!(command_target(&"car".to_string()), CommandTarget::Car);
    assert_eq!(command_target(&"usb".to_string()), CommandTarget::Neither);
}

#[test]
fn network_prefixes() {
    assert_eq!(network_prefix("192.168.1.5"), "192.168.1");
    assert_eq!(network_prefix("abc"), "");
    assert_eq!(network_prefix("a."), "a");
    assert_eq!(subnet_prefix([192, 168, 50, 7]), "192.168.50");
}

#[test]
fn scan_targets_skip_this_node() {
    let t = scan_targets("10.0.0", "10.0.0.2", 4);
    assert_eq!(t, names(&["10.0.0.1", "10.0.0.3", "10.0.0.4"]));
    assert_eq!(scan_targets("10.0.0", "x", 254).len(), 254);
    assert!(scan_targets("10.0.0", "x", 0).is_empty());
}

#[test]
fn genesis_config_is_trimmed() {
    assert_eq!(genesis_ip_from_config("  192.168.50.113\n"), "192.168.50.113");
}

#[test]
fn video_packets_gather_into_units() {
    let b = video_buffer_step(None, &[5, 6]);
    assert_eq!(b, Some(vec![5, 6]));
    let b = video_buffer_step(b, &[7]);
    assert_eq!(b, Some(vec![5, 6, 7]));
    let b = video_buffer_step(b, &[0, 0, 0, 1, 9]);
    assert_eq!(b, Some(vec![0, 0, 0, 1, 9]));
    let b = video_buffer_step(b, &[0, 0, 1]);
    assert_eq!(b, Some(vec![0, 0, 0, 1, 9, 0, 0, 1]));
}

#[test]
fn takeoff_is_followed_by_land() {
    let p = cmd_start(&"takeoff".to_string());
    assert_eq!(p, vec![("takeoff".to_string(), 3000), ("land".to_string(), 20000), ("takeoff".to_string(), 100)]);
    let p = cmd_start(&"streamon".to_string());
    assert_eq!(p, vec![("streamon".to_string(), 100)]);
}

#[test]
fn remote_server_urls() {
    assert_eq!(remote_url("/drone/video/", "10.0.0.3"), "http://192.168.50.254:17148/drone/video/10.0.0.3");
}

#[test]
fn network_monitor_steps() {
    let prev = "10.0.0.1".to_string();
    assert_eq!(monitor_tick(&prev, &None), TickAction::NoInterfaceAddress);
    assert_eq!(monitor_tick(&prev, &Some("10.0.0.1".to_string())), TickAction::Unchanged);
    assert_eq!(monitor_tick(&prev, &Some("10.0.0.2".to_string())), TickAction::Rescan);
    assert_eq!(monitor_scan_outcome(prev.clone(), "10.0.0.2".into(), None), (prev.clone(), ScanAction::KeepPrevious));
    assert_eq!(monitor_scan_outcome(prev.clone(), "10.0.0.2".into(), Some("10.0.0.2".into())), ("10.0.0.2".to_string(), ScanAction::BecomeGenesis));
    assert_eq!(monitor_scan_outcome(prev.clone(), "10.0.0.2".into(), Some("10.0.0.9".into())), ("10.0.0.2".to_string(), ScanAction::Register));
    assert!(records_new_address(ScanAction::BecomeGenesis, false));
    assert!(records_new_address(ScanAction::Register, true));
    assert!(!records_new_address(ScanAction::Register, false));
    assert!(!records_new_address(ScanAction::KeepPrevious, true));
}

#[test]
fn command_retries() {
    assert_eq!(command_retry_step(0, true), RetryStep::Succeeded);
    assert_eq!(command_retry_step(0, false), RetryStep::WaitThenRetry);
    assert_eq!(command_retry_step(1, false), RetryStep::WaitThenRetry);
    assert_eq!(command_retry_step(2, false), RetryStep::WaitThenGiveUp);
    assert_eq!(command_retry_step(2, true), RetryStep::Succeeded);
}
