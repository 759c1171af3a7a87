//! What became of transactions and chains.
use vstd::prelude::*;

use crate::text::str_eq;

verus! {

/// What became of a transaction.
#[derive(Clone, Copy, Debug, Default, PartialEq, Eq, Hash)]
pub enum Status {
    /// It is not known.
    #[default]
    Unknown,
    /// It was proposed and committed.
    Committed,
    /// It was proposed and aborted.
    Aborted,
    /// It is about to be decided.
    Processing,
    /// It was dropped, since it was not acceptable.
    Dropped,
}

impl Status {
    /// The number that stands for the status.
    pub open spec fn number(self) -> u32 {
        match self {
            Status::Unknown => 0,
            Status::Committed => 4,
            Status::Aborted => 5,
            Status::Processing => 6,
            Status::Dropped => 8,
        }
    }

    /// The name of the status.
    pub open spec fn name(self) -> Seq<char> {
        match self {
            Status::Unknown => "Unknown"@,
            Status::Committed => "Committed"@,
            Status::Aborted => "Aborted"@,
            Status::Processing => "Processing"@,
            Status::Dropped => "Dropped"@,
        }
    }

    /// The number that stands for the status.
    pub fn code(self) -> (r: u32)
        ensures
            r == self.number(),
    {
        match self {
            Status::Unknown => 0,
            Status::Committed => 4,
            Status::Aborted => 5,
            Status::Processing => 6,
            Status::Dropped => 8,
        }
    }

    /// The name of the status.
    pub fn as_str(self) -> (r: &'static str)
        ensures
            r@ == self.name(),
    {
        match self {
            Status::Unknown => "Unknown",
            Status::Committed => "Committed",
            Status::Aborted => "Aborted",
            Status::Processing => "Processing",
            Status::Dropped => "Dropped",
        }
    }

    /// The status with the name `s`, if there is one.
    pub fn from_name(s: &str) -> (r: Option<Status>)
        ensures
            r matches Some(st) ==> st.name() == s@,
            r is None ==> forall|st: Status| #![trigger st.name()] st.name() != s@,
    {
        if str_eq(s, "Unknown") {
            Some(Status::Unknown)
        } else if str_eq(s, "Committed") {
            Some(Status::Committed)
        } else if str_eq(s, "Aborted") {
            Some(Status::Aborted)
        } else if str_eq(s, "Processing") {
            Some(Status::Processing)
        } else if str_eq(s, "Dropped") {
            Some(Status::Dropped)
        } else {
            None
        }
    }
}

/// A status has a name and a number of its own.
pub proof fn statuses_are_told_apart(a: Status, b: Status)
    ensures
        a.name() == b.name() <==> a == b,
        a.number() == b.number() <==> a == b,
{
    reveal_strlit("Unknown");
    reveal_strlit("Committed");
    reveal_strlit("Aborted");
    reveal_strlit("Processing");
    reveal_strlit("Dropped");
    assert("Unknown"@[0] == 'U');
    assert("Committed"@[0] == 'C');
    assert("Aborted"@[0] == 'A');
    assert("Processing"@[0] == 'P');
    assert("Dropped"@[0] == 'D');
}

/// What became of a chain.
#[derive(Clone, Copy, Debug, Default, PartialEq, Eq, Hash)]
pub enum BlockchainStatus {
    /// It is not known.
    #[default]
    UnknownChain,
    /// It is about to be created.
    Preferred,
    /// It was created, and this node validates it.
    Validating,
    /// It was created, and this node follows it.
    Syncing,
}

impl BlockchainStatus {
    /// The name of the status.
    pub open spec fn name(self) -> Seq<char> {
        match self {
            BlockchainStatus::UnknownChain => "Unknown"@,
            BlockchainStatus::Preferred => "Preferred"@,
            BlockchainStatus::Validating => "Validating"@,
            BlockchainStatus::Syncing => "Syncing"@,
        }
    }

    /// The name of the status.
    pub fn as_str(self) -> (r: &'static str)
        ensures
            r@ == self.name(),
    {
        match self {
            BlockchainStatus::UnknownChain => "Unknown",
            BlockchainStatus::Preferred => "Preferred",
            BlockchainStatus::Validating => "Validating",
            BlockchainStatus::Syncing => "Syncing",
        }
    }

    /// The status with the name `s`, if there is one.
    pub fn from_name(s: &str) -> (r: Option<BlockchainStatus>)
        ensures
            r matches Some(st) ==> st.name() == s@,
            r is None ==> forall|st: BlockchainStatus| #[trigger] st.name() != s@,
    {
        if str_eq(s, "Unknown") {
            Some(BlockchainStatus::UnknownChain)
        } else if str_eq(s, "Preferred") {
            Some(BlockchainStatus::Preferred)
        } else if str_eq(s, "Validating") {
            Some(BlockchainStatus::Validating)
        } else if str_eq(s, "Syncing") {
            Some(BlockchainStatus::Syncing)
        } else {
            None
        }
    }
}

} // verus!
