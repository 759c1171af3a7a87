//! Verifying, accepting and rejecting blocks.

pub mod acceptor;
pub mod history;
pub mod manager;
pub mod options;
pub mod verify;

pub use manager::{BlockAcceptanceNotifier, BlockManager, BlockState, NoopNotifier};
