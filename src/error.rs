use vstd::prelude::*;

verus! {

/// Every way in which an operation on the ledger can be refused.
#[derive(Debug, Clone, PartialEq, Eq, Structural)]
pub enum ContractError {
    NotEnoughNftsToClaim {},
    InvalidDistributionEndTime {},
    CurrentDistributionHasNotYetEnded {},
    NotImplementedYet {},
    Unauthorized {},
    CurrentUnclaimedGoesToTheSubsequentDistribution {},
    NothingToReturn {},
    UnclaimedWasAlreadyReturned {},
    InvalidFundsReceived {},
    TooManyTokensSent {},
    DistributionHalted {},
    /// A claim would push the claimed count past the size of the collection.
    InvalidNftCount {},
    ClaimingWindowHasClosed {},
    NothingToClaim {},
    InvalidDistributionInputs {},
    InvalidClaimValue {},
    /// No distribution has been opened yet.
    DistributionNotFound {},
    /// An amount or a counter does not fit its integer type.
    Overflow {},
    /// A carry share was asked of a collection with no tokens.
    DivideByZero {},
}

impl ContractError {
    /// The error's name, as reported to callers.
    pub fn name(&self) -> (r: &'static str) {
        match self {
            ContractError::NotEnoughNftsToClaim {} => "NotEnoughNftsToClaim",
            ContractError::InvalidDistributionEndTime {} => "InvalidDistributionEndTime",
            ContractError::CurrentDistributionHasNotYetEnded {} => "CurrentDistributionHasNotYetEnded",
            ContractError::NotImplementedYet {} => "NotImplementedYet",
            ContractError::Unauthorized {} => "Unauthorized",
            ContractError::CurrentUnclaimedGoesToTheSubsequentDistribution {} => "CurrentUnclaimedGoesToTheSubsequentDistribution",
            ContractError::NothingToReturn {} => "NothingToReturn",
            ContractError::UnclaimedWasAlreadyReturned {} => "UnclaimedWasAlreadyReturned",
            ContractError::InvalidFundsReceived {} => "InvalidFundsReceived",
            ContractError::TooManyTokensSent {} => "TooManyTokensSent",
            ContractError::DistributionHalted {} => "DistributionHalted",
            ContractError::InvalidNftCount {} => "InvalidNftCount",
            ContractError::ClaimingWindowHasClosed {} => "ClaimingWindowHasClosed",
            ContractError::NothingToClaim {} => "NothingToClaim",
            ContractError::InvalidDistributionInputs {} => "InvalidDistributionInputs",
            ContractError::InvalidClaimValue {} => "InvalidClaimValue",
            ContractError::DistributionNotFound {} => "DistributionNotFound",
            ContractError::Overflow {} => "Overflow",
            ContractError::DivideByZero {} => "DivideByZero",
        }
    }
}

} // verus!
