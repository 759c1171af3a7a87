//! The chain's state: what it holds, how it changes, and how it is stored.

pub mod chain;
pub mod diff;
pub mod diff_iterators;
pub mod disk_staker_diff_iterator;
pub mod l1_set;
pub mod l1_validator;
pub mod merge;
pub mod metadata_codec;
pub mod metadata_validator;
pub mod prefixes;
pub mod staker;
pub mod stakers;
pub mod state;
pub mod storage;
pub mod undo_agreement;
pub mod validator_sets;
