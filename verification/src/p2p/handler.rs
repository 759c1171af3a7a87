//! The ids of handlers, and how they refuse requests.
use vstd::prelude::*;

verus! {

/// The handler of gossiped transactions.
pub const TX_GOSSIP_HANDLER_ID: u64 = 0;

/// The handler of gossiped transactions between chains.
pub const ATOMIC_TX_GOSSIP_HANDLER_ID: u64 = 1;

/// How a request is refused.
#[derive(Clone, Debug, PartialEq, Eq)]
pub struct AppError {
    /// The code.
    pub code: i32,
    /// The message.
    pub message: String,
}

impl AppError {
    /// Whether the refusal has the code and the message given.
    pub open spec fn says(&self, code: int, message: Seq<char>) -> bool {
        self.code == code && self.message@ == message
    }
}

/// Something went wrong.
pub fn err_unexpected() -> (r: AppError)
    ensures
        r.says(-1, "unexpected error"@),
{
    AppError { code: -1, message: "unexpected error".to_owned() }
}

/// There is no handler for the request.
pub fn err_unregistered_handler() -> (r: AppError)
    ensures
        r.says(-2, "unregistered handler"@),
{
    AppError { code: -2, message: "unregistered handler".to_owned() }
}

/// Only validators may make the request.
pub fn err_not_validator() -> (r: AppError)
    ensures
        r.says(-3, "not a validator"@),
{
    AppError { code: -3, message: "not a validator".to_owned() }
}

/// The peer makes too many requests.
pub fn err_throttled() -> (r: AppError)
    ensures
        r.says(-4, "throttled"@),
{
    AppError { code: -4, message: "throttled".to_owned() }
}

} // verus!
