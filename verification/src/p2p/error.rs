//! Why a message between peers failed.
use vstd::prelude::*;

use crate::error::joined;
use crate::text::{decimal, decimal_text};

verus! {

/// Why a message between peers failed.
#[derive(Debug, PartialEq, Eq)]
pub enum Error {
    /// It cannot be read.
    Decode(String),
    /// It cannot be sent.
    Send(String),
    /// A set of known items failed.
    KnownSet(String),
    /// The handler id is taken.
    DuplicateHandler(u64),
    /// The request id is still in use.
    RequestPending(u32),
}

/// The result of what may fail.
pub type Result<T> = core::result::Result<T, Error>;

impl Error {
    /// The text that describes the failure.
    pub open spec fn text(&self) -> Seq<char> {
        match self {
            Error::Decode(e) => "decode: "@ + e@,
            Error::Send(e) => "send: "@ + e@,
            Error::KnownSet(e) => "set: "@ + e@,
            Error::DuplicateHandler(id) => "failed to register handler id "@ + decimal_text(
                *id as nat,
            ) + ": existing app protocol"@,
            Error::RequestPending(id) => "failed to issue request with request id "@
                + decimal_text(*id as nat) + ": request pending"@,
        }
    }

    /// The text that describes the failure.
    pub fn message(&self) -> (r: String)
        ensures
            r@ == self.text(),
    {
        match self {
            Error::Decode(e) => joined("decode: ", e.as_str()),
            Error::Send(e) => joined("send: ", e.as_str()),
            Error::KnownSet(e) => joined("set: ", e.as_str()),
            Error::DuplicateHandler(id) => {
                let n = decimal(*id);
                let a = joined("failed to register handler id ", n.as_str());
                joined(a.as_str(), ": existing app protocol")
            },
            Error::RequestPending(id) => {
                let n = decimal(*id as u64);
                let a = joined("failed to issue request with request id ", n.as_str());
                joined(a.as_str(), ": request pending")
            },
        }
    }
}

} // verus!
