use vstd::prelude::*;

use crate::state::Coin;

verus! {

/// The settings a program starts from; `nft_address` names the registry.
#[derive(Debug, Clone, PartialEq, Eq)]
pub struct InstantiateMsg {
    pub admin: String,
    pub distributor: String,
    pub nft_address: String,
}

/// The operations that change the ledger.
#[derive(Debug, Clone, PartialEq, Eq)]
pub enum ExecuteMsg {
    /// Claim up to 500 tokens, checked against a listing of the caller's holdings.
    BulkClaim { token_ids: Vec<String>, start_after: Option<String> },
    /// Claim up to 5 tokens, each checked by looking up its owner.
    ClaimFive { token_ids: Vec<String> },
    /// Open a new cycle.
    Distribute {
        assets_per_nft: Vec<Coin>,
        distribution_end_time: u64,
        unclaimed_to_distributor: bool,
        minimum_nfts_to_claim: u64,
    },
    /// Flip the halt switch.
    HaltDistribution {},
    /// Send the ended cycle's remainder to the distributor.
    ReturnUnclaimed {},
}

/// The reads.
#[derive(Debug, Clone, PartialEq, Eq)]
pub enum QueryMsg {
    GetConfig {},
    GetCurrentDistributionInfo {},
    GetIfClaimed { token_id: String },
}

/// The message an upgrade carries; it holds nothing.
#[derive(Debug, Clone, PartialEq, Eq)]
pub struct MigrateMsg {}

} // verus!
