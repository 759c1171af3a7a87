//! Transactions.

pub mod components;
pub mod delegation;
pub mod l1;
pub mod mempool;
pub mod subnets;
pub mod transfers;
pub mod tx;
pub mod type_ids;
pub mod unsigned;
pub mod validator;
