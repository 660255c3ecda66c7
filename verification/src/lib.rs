//! Verified core of a small blockchain that coordinates drones and cars.
pub mod text;
pub mod digest;
pub mod blockchain;
pub mod instance;
pub mod p2p;
pub mod monitoring;
pub mod heartbeat;
pub mod monitor;
pub mod network;
pub mod network_scanner;
pub mod auth;
pub mod drone;
pub mod remote;
pub mod remote_server;
