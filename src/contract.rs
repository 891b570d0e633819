use vstd::prelude::*;

use crate::error::ContractError;
use crate::executes::{
    add_distribution, claim_recorded, claim_rewards, halt_toggled, opened, return_unclaimed, returned,
    toggle_halt, ClaimOutcome,
};
use crate::helpers::OwnershipReport;
use crate::msg::{ExecuteMsg, InstantiateMsg, MigrateMsg, QueryMsg};
use crate::state::{contains_id, ids, Coin, Config, Distribution, Ledger, Transfer};

verus! {

/// A fresh ledger for a collection of `nft_count` tokens: no cycle yet, no
/// claims, not halted.
pub fn instantiate(msg: &InstantiateMsg, nft_count: u64) -> (r: Ledger)
    ensures
        r.wf(),
        r.config == (Config {
            admin: msg.admin,
            distributor: msg.distributor,
            current_dist_id: 0,
            nft_address: msg.nft_address,
            nft_count,
            current_dist_end_time: None,
            current_dist_halted: false,
        }),
        r.distribution is None,
        r.claims@.len() == 0,
{
    Ledger {
        config: Config {
            admin: msg.admin.clone(),
            distributor: msg.distributor.clone(),
            current_dist_id: 0,
            nft_address: msg.nft_address.clone(),
            nft_count,
            current_dist_end_time: None,
            current_dist_halted: false,
        },
        distribution: None,
        claims: Vec::new(),
    }
}

/// What the chain reported for one call: the contract's balances, how many
/// tokens a listing of the caller's holdings capped at the cycle's minimum
/// returned, and the caller's holdings (a listing for a bulk claim, each
/// requested token's owner otherwise).
#[derive(Debug, Clone, PartialEq, Eq)]
pub struct Observed {
    pub balances: Vec<Coin>,
    pub listed: u64,
    pub holdings: Vec<String>,
}

/// What a successful operation sends, and, for a claim, the ids it recorded
/// and those the caller was not found to hold.
#[derive(Debug, Clone, PartialEq, Eq)]
pub struct ExecuteOutcome {
    pub transfers: Vec<Transfer>,
    pub newly_claimed: Vec<String>,
    pub not_found: Vec<String>,
}

/// The transfers of a result, or its error.
pub open spec fn sent_of(r: Result<ExecuteOutcome, ContractError>) -> Result<Vec<Transfer>, ContractError> {
    match r {
        Ok(o) => Ok(o.transfers),
        Err(e) => Err(e),
    }
}

/// The claim outcome that a result carries, or its error.
pub open spec fn claim_of(r: Result<ExecuteOutcome, ContractError>) -> Result<ClaimOutcome, ContractError> {
    match r {
        Ok(o) => Ok(ClaimOutcome { transfers: o.transfers, newly_claimed: o.newly_claimed, not_found: o.not_found }),
        Err(e) => Err(e),
    }
}

/// The unit result, or the error, of a result.
pub open spec fn unit_of(r: Result<ExecuteOutcome, ContractError>) -> Result<(), ContractError> {
    match r {
        Ok(_) => Ok(()),
        Err(e) => Err(e),
    }
}

/// Applies one operation, sent by `sender` at time `now` with `funds`
/// attached, given what the chain reported. The ledger stays well formed;
/// on failure it is left as it was.
pub fn execute(
    ledger: &mut Ledger,
    now: u64,
    sender: &String,
    funds: &Vec<Coin>,
    msg: ExecuteMsg,
    observed: Observed,
) -> (r: Result<ExecuteOutcome, ContractError>)
    requires
        old(ledger).wf(),
    ensures
        final(ledger).wf(),
        r is Err ==> *final(ledger) == *old(ledger),
        match msg {
            ExecuteMsg::BulkClaim { token_ids, start_after } => claim_recorded(
                *old(ledger),
                *final(ledger),
                now,
                *sender,
                token_ids@,
                OwnershipReport::Listed(observed.holdings),
                observed.listed,
                claim_of(r),
            ),
            ExecuteMsg::ClaimFive { token_ids } => claim_recorded(
                *old(ledger),
                *final(ledger),
                now,
                *sender,
                token_ids@,
                OwnershipReport::Owners(observed.holdings),
                observed.listed,
                claim_of(r),
            ),
            ExecuteMsg::Distribute {
                assets_per_nft,
                distribution_end_time,
                unclaimed_to_distributor,
                minimum_nfts_to_claim,
            } => {
                &&& opened(
                    *old(ledger),
                    *final(ledger),
                    now,
                    sender@,
                    funds@,
                    observed.balances@,
                    assets_per_nft@,
                    distribution_end_time,
                    unclaimed_to_distributor,
                    minimum_nfts_to_claim,
                    sent_of(r),
                )
                &&& r is Ok ==> r.unwrap().newly_claimed@.len() == 0 && r.unwrap().not_found@.len() == 0
            },
            ExecuteMsg::HaltDistribution {} => {
                &&& halt_toggled(*old(ledger), *final(ledger), sender@, unit_of(r))
                &&& r is Ok ==> r.unwrap().transfers@.len() == 0 && r.unwrap().newly_claimed@.len() == 0
                    && r.unwrap().not_found@.len() == 0
            },
            ExecuteMsg::ReturnUnclaimed {} => {
                &&& returned(*old(ledger), *final(ledger), now, sender@, observed.balances@, sent_of(r))
                &&& r is Ok ==> r.unwrap().newly_claimed@.len() == 0 && r.unwrap().not_found@.len() == 0
            },
        },
{
    match msg {
        ExecuteMsg::BulkClaim { token_ids, start_after } => {
            let report = OwnershipReport::Listed(observed.holdings);
            match claim_rewards(ledger, now, sender, &token_ids, &report, observed.listed) {
                Ok(o) => Ok(
                    ExecuteOutcome { transfers: o.transfers, newly_claimed: o.newly_claimed, not_found: o.not_found },
                ),
                Err(e) => Err(e),
            }
        },
        ExecuteMsg::ClaimFive { token_ids } => {
            let report = OwnershipReport::Owners(observed.holdings);
            match claim_rewards(ledger, now, sender, &token_ids, &report, observed.listed) {
                Ok(o) => Ok(
                    ExecuteOutcome { transfers: o.transfers, newly_claimed: o.newly_claimed, not_found: o.not_found },
                ),
                Err(e) => Err(e),
            }
        },
        ExecuteMsg::Distribute {
            assets_per_nft,
            distribution_end_time,
            unclaimed_to_distributor,
            minimum_nfts_to_claim,
        } => {
            match add_distribution(
                ledger,
                now,
                sender,
                funds,
                &observed.balances,
                assets_per_nft,
                distribution_end_time,
                unclaimed_to_distributor,
                minimum_nfts_to_claim,
            ) {
                Ok(t) => Ok(ExecuteOutcome { transfers: t, newly_claimed: Vec::new(), not_found: Vec::new() }),
                Err(e) => Err(e),
            }
        },
        ExecuteMsg::HaltDistribution {} => {
            match toggle_halt(ledger, sender) {
                Ok(()) => Ok(ExecuteOutcome { transfers: Vec::new(), newly_claimed: Vec::new(), not_found: Vec::new() }),
                Err(e) => Err(e),
            }
        },
        ExecuteMsg::ReturnUnclaimed {} => {
            match return_unclaimed(ledger, now, sender, &observed.balances) {
                Ok(t) => Ok(ExecuteOutcome { transfers: t, newly_claimed: Vec::new(), not_found: Vec::new() }),
                Err(e) => Err(e),
            }
        },
    }
}

/// The answer to a read.
#[derive(Debug, Clone, PartialEq, Eq)]
pub enum QueryAnswer {
    Config(Config),
    Distribution(Distribution),
    Claimed(bool),
}

/// Answers a read: the settings; the current cycle, or an empty record
/// before the first; or whether a token has claimed in this cycle, false
/// for any id never claimed.
pub fn query(ledger: &Ledger, msg: &QueryMsg) -> (r: QueryAnswer)
    ensures
        match *msg {
            QueryMsg::GetConfig {} => r == QueryAnswer::Config(ledger.config),
            QueryMsg::GetCurrentDistributionInfo {} => match r {
                QueryAnswer::Distribution(d) => match ledger.distribution {
                    Some(cur) => {
                        &&& d.assets@ == cur.assets@
                        &&& d.claimed == cur.claimed
                        &&& d.unclaimed_to_distributor == cur.unclaimed_to_distributor
                        &&& d.unclaimed_sent_to_distributor == cur.unclaimed_sent_to_distributor
                        &&& d.minimum_nfts_to_claim == cur.minimum_nfts_to_claim
                    },
                    None => {
                        &&& d.assets@.len() == 0
                        &&& d.claimed == 0
                        &&& !d.unclaimed_to_distributor
                        &&& d.unclaimed_sent_to_distributor is None
                        &&& d.minimum_nfts_to_claim == 0
                    },
                },
                _ => false,
            },
            QueryMsg::GetIfClaimed { token_id } => r == QueryAnswer::Claimed(ids(ledger.claims@).contains(token_id@)),
        },
{
    match msg {
        QueryMsg::GetConfig {} => QueryAnswer::Config(ledger.config.duplicate()),
        QueryMsg::GetCurrentDistributionInfo {} => match &ledger.distribution {
            Some(d) => QueryAnswer::Distribution(d.duplicate()),
            None => QueryAnswer::Distribution(Distribution::empty()),
        },
        QueryMsg::GetIfClaimed { token_id } => QueryAnswer::Claimed(contains_id(&ledger.claims, token_id)),
    }
}

/// Accepts an upgrade; nothing in the ledger changes.
pub fn migrate(_msg: &MigrateMsg) -> (r: Result<(), ContractError>)
    ensures
        r is Ok,
{
    Ok(())
}

} // verus!
