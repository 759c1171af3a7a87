//! The service that reads the chain.

pub mod encoding;
pub mod pricing;
pub mod rpc;
pub mod service;
pub mod state;
pub mod types;

pub use pricing::{FeeConstants, Pricing};
pub use rpc::{method_at, registry, Method, RpcService};
pub use service::Service;
pub use state::ServiceState;
