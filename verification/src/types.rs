use vstd::prelude::*;

verus! {

/// Compliance status of an account. An account with no recorded entry is
/// `Allowable`.
#[derive(Clone, Copy, Debug, PartialEq, Eq, Structural)]
pub enum BlackListStatus {
    /// The account may act.
    Allowable,
    /// All acts of the account are rejected.
    Banned,
}

/// The contract's circuit breaker. While `Paused`, balance-affecting and
/// informational entry points are rejected; only status inspection and
/// administrative recovery remain available.
#[derive(Clone, Copy, Debug, PartialEq, Eq, Structural)]
pub enum ContractStatus {
    Working,
    Paused,
}

impl ContractStatus {
    /// A short text form of the status.
    pub fn text(&self) -> (r: String)
        ensures
            *self is Working ==> r@ == "working"@,
            *self is Paused ==> r@ == "paused"@,
    {
        match self {
            ContractStatus::Working => "working".to_owned(),
            ContractStatus::Paused => "paused".to_owned(),
        }
    }
}

/// Why a call was rejected. Every error is fatal to the call that raised
/// it: the state is left exactly as it was.
#[derive(Clone, Copy, Debug, PartialEq, Eq, Structural)]
pub enum Error {
    /// The caller is not the principal the operation demands
    /// (owner, owner-or-guardian, proposed owner, or the contract itself).
    Authorization,
    /// The operation is invalid in the current state: the contract is
    /// paused (or not paused), a guardian entry already exists or is
    /// missing, no ownership proposal is pending, an account is already
    /// registered, or a transfer names the sender as receiver or moves
    /// nothing.
    State,
    /// The compliance gate refused: a banned sender tried to transfer, or
    /// a confiscation targeted an account that is not banned or holds
    /// nothing.
    Compliance,
    /// A checked addition or subtraction on a balance or on the total
    /// supply would overflow or underflow.
    Arithmetic,
    /// A named account has no balance record, or an expected persisted
    /// state is absent.
    NotFound,
}

impl Error {
    /// A human-readable reason, in the spirit of the host chain's abort
    /// messages.
    pub fn text(&self) -> (r: String)
        ensures
            *self is Authorization ==> r@ == "the caller is not allowed to call this method"@,
            *self is State ==> r@ == "the operation is invalid in the current contract state"@,
            *self is Compliance ==> r@ == "the compliance gate rejected the operation"@,
            *self is Arithmetic ==> r@ == "a balance or the total supply would overflow"@,
            *self is NotFound ==> r@ == "a required account or state record is absent"@,
    {
        match self {
            Error::Authorization => "the caller is not allowed to call this method".to_owned(),
            Error::State => "the operation is invalid in the current contract state".to_owned(),
            Error::Compliance => "the compliance gate rejected the operation".to_owned(),
            Error::Arithmetic => "a balance or the total supply would overflow".to_owned(),
            Error::NotFound => "a required account or state record is absent".to_owned(),
        }
    }
}

} // verus!
