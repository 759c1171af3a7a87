//! Messages between peers: requests, responses and gossip.

pub mod client;
pub mod error;
pub mod gossip;
pub mod handler;
pub mod network;
pub mod pb;
pub mod varint;
