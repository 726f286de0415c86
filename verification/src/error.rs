//! The ways in which an operation of the engine can fail.

use vstd::prelude::*;

verus! {

/// Why an operation was rejected. A rejected operation changes nothing.
#[derive(Clone, Copy, Debug, PartialEq, Eq, Structural)]
pub enum DistributorError {
    /// The caller of an administrator-only operation is not the administrator.
    Unauthorized,
    /// A weight lies above 100%, or the weights add up to more than 100%.
    InvalidWeight,
    /// Two whitelist entries name the same protocol.
    DuplicateProtocol,
    /// A protocol carries a weight but the whitelist gives it no payout address.
    UnresolvedProtocol,
    /// The ledger refused a transfer of a payout plan.
    TransferFailed,
}

impl DistributorError {
    /// The wording of each error.
    pub open spec fn description(self) -> Seq<char> {
        match self {
            DistributorError::Unauthorized => "unauthorized"@,
            DistributorError::InvalidWeight => "invalid weight: the weights exceed 100%"@,
            DistributorError::DuplicateProtocol => "duplicate protocol in the whitelist"@,
            DistributorError::UnresolvedProtocol => "weighted protocol without a whitelisted address"@,
            DistributorError::TransferFailed => "transfer failed"@,
        }
    }

    /// The error in words.
    pub fn describe(&self) -> (text: String)
        ensures
            text@ == self.description(),
    {
        match self {
            DistributorError::Unauthorized => "unauthorized".to_owned(),
            DistributorError::InvalidWeight => "invalid weight: the weights exceed 100%".to_owned(),
            DistributorError::DuplicateProtocol => "duplicate protocol in the whitelist".to_owned(),
            DistributorError::UnresolvedProtocol => {
                "weighted protocol without a whitelisted address".to_owned()
            },
            DistributorError::TransferFailed => "transfer failed".to_owned(),
        }
    }
}

} // verus!
