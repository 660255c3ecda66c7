//! Constants of the network and the records that nodes exchange.
use vstd::prelude::*;

verus! {

/// Number of leading zeros that a mined block hash must have.
pub const DIFFICULTY: usize = 1;
/// The message that a node signs to show who it is.
pub const CHECKING_MSG: &'static str = "check_my_auth";
/// Directory that holds the public keys.
pub const KEY_PATH: &'static str = "src/instance/key";
/// Address of the genesis node in the deployment.
pub const GENESIS_NODE: &'static str = "192.168.50.113";
/// Port on which every node serves.
pub const GENESIS_PORT: &'static str = "9999";
/// Milliseconds between two network checks.
pub const NETWORK_MONITORING_TIME: u64 = 10000;
/// Milliseconds between two command checks.
pub const CMD_MONITORING_TIME: u64 = 2000;
/// Drone command port.
pub const CMD_PORT: u16 = 8889;
/// Drone state port.
pub const STATE_PORT: u16 = 8890;
/// Drone video port.
pub const VIDEO_PORT: u16 = 11111;
/// The command that puts a drone into command mode.
pub const INIT_CMD: &'static str = "command";
/// The command that starts a drone's video stream.
pub const STREAM_CMD: &'static str = "streamon";
/// Where the chain is stored.
pub const BLOCKCHAINPATH: &'static str = "src/instance/data";
/// The remote control server.
pub const REMOTE_SERVER: &'static str = "http://192.168.50.254:17148";
/// The file with this node's remote settings.
pub const REMOTE_CONFIG_FILE_PATH: &'static str = "./remote_config";
/// The file that names the genesis node.
pub const GENESIS_CONFIG_PATH: &'static str = "./src/instance/genesis_config.txt";
/// The key type that a node uses when it checks a vote.
pub const KEY_TYPE: &'static str = "usb";

/// A signed command as a node submits it.
#[derive(Clone, Debug)]
pub struct BlockData {
    pub id: String,
    pub command: String,
    pub sign: Vec<u8>,
    pub node_type: String,
    pub state: String,
}

/// One node's answer in a vote.
#[derive(Clone, Debug)]
pub struct Vote {
    pub addr: String,
    pub result: bool,
}

impl Vote {
    pub fn new(addr: String, result: bool) -> (res: Self)
        ensures
            res.addr == addr,
            res.result == result,
    {
        Vote { addr, result }
    }
}

/// The answer a node sends to a consensus request.
#[derive(Clone, Debug)]
pub struct Result {
    pub result: bool,
}

impl Result {
    pub fn new(result: bool) -> (res: Self)
        ensures
            res.result == result,
    {
        Result { result }
    }
}

/// A request to replace one node's address by another.
#[derive(Clone, Debug)]
pub struct UpdateNode {
    pub delete_ip: String,
    pub update_ip: String,
    pub node_type: String,
}

impl UpdateNode {
    pub fn new(delete_ip: String, update_ip: String, node_type: String) -> (res: Self)
        ensures
            res.delete_ip == delete_ip,
            res.update_ip == update_ip,
            res.node_type == node_type,
    {
        UpdateNode { delete_ip, update_ip, node_type }
    }
}

/// A node's chain length and address.
#[derive(Clone, Debug)]
pub struct BlockInfo {
    pub length: String,
    pub addr: String,
}

impl BlockInfo {
    pub fn new(length: String, addr: String) -> (res: Self)
        ensures
            res.length == length,
            res.addr == addr,
    {
        BlockInfo { length, addr }
    }
}

/// A command for the remote control server.
#[derive(Clone, Debug)]
pub struct RemoteServerReq {
    pub ip: String,
    pub cmd: String,
    pub description: String,
}

impl RemoteServerReq {
    pub fn new(ip: String, cmd: String, description: String) -> (res: Self)
        ensures
            res.ip == ip,
            res.cmd == cmd,
            res.description == description,
    {
        RemoteServerReq { ip, cmd, description }
    }
}

/// A member of the network: its address (`ip:port`) and its kind.
#[derive(Clone, Debug)]
pub struct Node {
    pub address: String,
    pub node_type: String,
}

impl Node {
    pub fn new(address: String, node_type: String) -> (res: Self)
        ensures
            res.address == address,
            res.node_type == node_type,
    {
        Node { address, node_type }
    }
}

/// A position reported by a device.
#[derive(Clone, Debug)]
pub struct Location {
    pub x: String,
    pub y: String,
    pub z: String,
}

impl Location {
    pub fn new(x: String, y: String, z: String) -> (res: Self)
        ensures
            res.x == x,
            res.y == y,
            res.z == z,
    {
        Location { x, y, z }
    }
}

} // verus!
