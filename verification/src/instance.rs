//! Node settings: the message types that nodes exchange and the node's own setup.
pub mod config;
pub mod setup;
