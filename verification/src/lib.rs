//! The platform chain's state machine, its wire formats and the gossip
//! protocols that feed it.

pub mod block;
pub mod codec;
pub mod collections;
pub mod crypto;
pub mod error;
pub mod factory;
pub mod fx;
pub mod genesis;
pub mod ids;
pub mod jsonrpc;
pub mod laws;
pub mod network;
pub mod order;
pub mod p2p;
pub mod reward;
pub mod service;
pub mod signer;
pub mod stakeable;
pub mod state;
pub mod status;
pub mod text;
pub mod txs;
pub mod utxo;
pub mod vm;
pub mod wire;
