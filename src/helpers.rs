use vstd::prelude::*;

use crate::error::ContractError;
use crate::state::{
    amount_of, contains_denom, contains_id, denoms_unique, find_amount, has_denom, ids, unique_denoms,
    Coin, Distribution, Transfer,
};

verus! {

/// Every denomination of `a` occurs in `b`, and every one of `b` in `a`.
pub open spec fn same_denoms(a: Seq<Coin>, b: Seq<Coin>) -> bool {
    &&& forall|i: int| 0 <= i < a.len() ==> has_denom(b, (#[trigger] a[i]).denom@)
    &&& forall|j: int| 0 <= j < b.len() ==> has_denom(a, (#[trigger] b[j]).denom@)
}

/// The attached funds and the proposed assets are both non-empty, of one
/// length, and name the same denominations.
pub open spec fn funds_cover(funds: Seq<Coin>, assets: Seq<Coin>) -> bool {
    &&& funds.len() > 0
    &&& assets.len() > 0
    &&& funds.len() == assets.len()
    &&& same_denoms(funds, assets)
}

/// The proposed denominations are unique, and each attached coin holds its
/// denomination's per-token amount once for every token of the collection.
pub open spec fn funds_pay(funds: Seq<Coin>, assets: Seq<Coin>, nft_count: int) -> bool {
    &&& unique_denoms(assets)
    &&& forall|k: int|
        0 <= k < funds.len() ==> (#[trigger] funds[k]).amount == amount_of(assets, funds[k].denom@)
            * nft_count
}

/// What checking a proposed distribution against its sender and funds gives.
pub open spec fn validation(
    distributor: Seq<char>,
    sender: Seq<char>,
    funds: Seq<Coin>,
    assets: Seq<Coin>,
    nft_count: int,
) -> Result<(), ContractError> {
    if sender != distributor {
        Err(ContractError::Unauthorized {})
    } else if !funds_cover(funds, assets) {
        Err(ContractError::InvalidFundsReceived {})
    } else if !funds_pay(funds, assets, nft_count) {
        Err(ContractError::InvalidDistributionInputs {})
    } else {
        Ok(())
    }
}

/// Checks that `sender` is the distributor and that `funds` pay exactly the
/// proposed per-token `assets` for each of the `nft_count` tokens.
pub fn validate_distribution(
    distributor: &String,
    sender: &String,
    funds: &Vec<Coin>,
    assets: &Vec<Coin>,
    nft_count: u64,
) -> (r: Result<(), ContractError>)
    ensures
        r == validation(distributor@, sender@, funds@, assets@, nft_count as int),
{
    if !(*sender == *distributor) {
        return Err(ContractError::Unauthorized {});
    }
    if funds.len() == 0 || assets.len() == 0 || funds.len() != assets.len() {
        return Err(ContractError::InvalidFundsReceived {});
    }
    let mut i: usize = 0;
    while i < funds.len()
        invariant
            i <= funds.len(),
            sender@ == distributor@,
            funds.len() > 0 && assets.len() > 0 && funds.len() == assets.len(),
            forall|k: int| 0 <= k < i ==> has_denom(assets@, (#[trigger] funds@[k]).denom@),
        decreases funds.len() - i,
    {
        if !contains_denom(assets, &funds[i].denom) {
            assert(!has_denom(assets@, funds@[i as int].denom@));
            assert(!same_denoms(funds@, assets@));
            return Err(ContractError::InvalidFundsReceived {});
        }
        i = i + 1;
    }
    let mut j: usize = 0;
    while j < assets.len()
        invariant
            j <= assets.len(),
            sender@ == distributor@,
            funds.len() > 0 && assets.len() > 0 && funds.len() == assets.len(),
            forall|k: int| 0 <= k < funds.len() ==> has_denom(assets@, (#[trigger] funds@[k]).denom@),
            forall|k: int| 0 <= k < j ==> has_denom(funds@, (#[trigger] assets@[k]).denom@),
        decreases assets.len() - j,
    {
        if !contains_denom(funds, &assets[j].denom) {
            assert(!has_denom(funds@, assets@[j as int].denom@));
            assert(!same_denoms(funds@, assets@));
            return Err(ContractError::InvalidFundsReceived {});
        }
        j = j + 1;
    }
    if !denoms_unique(assets) {
        return Err(ContractError::InvalidDistributionInputs {});
    }
    let mut i: usize = 0;
    while i < funds.len()
        invariant
            i <= funds.len(),
            sender@ == distributor@,
            funds.len() > 0 && assets.len() > 0 && funds.len() == assets.len(),
            funds_cover(funds@, assets@),
            unique_denoms(assets@),
            forall|k: int|
                0 <= k < i ==> (#[trigger] funds@[k]).amount == amount_of(assets@, funds@[k].denom@)
                    * nft_count,
        decreases funds.len() - i,
    {
        let per_token = find_amount(assets, &funds[i].denom);
        match per_token.checked_mul(nft_count as u128) {
            Some(total) => {
                if total != funds[i].amount {
                    assert(funds@[i as int].amount != amount_of(assets@, funds@[i as int].denom@)
                        * nft_count);
                    return Err(ContractError::InvalidDistributionInputs {});
                }
            },
            None => {
                assert(funds@[i as int].amount != amount_of(assets@, funds@[i as int].denom@)
                    * nft_count);
                return Err(ContractError::InvalidDistributionInputs {});
            },
        }
        i = i + 1;
    }
    Ok(())
}

/// One transfer to `to` per coin of `assets`, of `count` times its amount.
pub open spec fn payouts(to: String, assets: Seq<Coin>, count: int) -> Seq<Transfer> {
    assets.map_values(
        |c: Coin| Transfer { to_address: to, denom: c.denom, amount: (count * c.amount) as u128 },
    )
}

/// `count` times each amount of `assets` fits in a `u128`.
pub open spec fn payouts_fit(assets: Seq<Coin>, count: int) -> bool {
    forall|j: int| 0 <= j < assets.len() ==> count * (#[trigger] assets[j]).amount <= u128::MAX
}

/// The transfers that pay `recipient` the cycle's per-token assets for
/// `dist_count` tokens, one per denomination.
pub fn create_send_assets_messages(distribution: &Distribution, recipient: &String, dist_count: u64) -> (r:
    Result<Vec<Transfer>, ContractError>)
    ensures
        r is Ok <==> payouts_fit(distribution.assets@, dist_count as int),
        r is Ok ==> r.unwrap()@ == payouts(*recipient, distribution.assets@, dist_count as int),
        r is Err ==> r == Err::<Vec<Transfer>, ContractError>(ContractError::Overflow {}),
{
    let mut out: Vec<Transfer> = Vec::new();
    let mut j: usize = 0;
    while j < distribution.assets.len()
        invariant
            j <= distribution.assets.len(),
            out@.len() == j,
            forall|i: int| 0 <= i < j ==> dist_count * (#[trigger] distribution.assets@[i]).amount <= u128::MAX,
            forall|i: int|
                0 <= i < j ==> (#[trigger] out@[i]) == payouts(*recipient, distribution.assets@, dist_count as int)[i],
        decreases distribution.assets.len() - j,
    {
        match (dist_count as u128).checked_mul(distribution.assets[j].amount) {
            Some(amount) => {
                out.push(Transfer { to_address: recipient.clone(), denom: distribution.assets[j].denom.clone(), amount });
            },
            None => {
                assert(!payouts_fit(distribution.assets@, dist_count as int)) by {
                    assert(dist_count * distribution.assets@[j as int].amount > u128::MAX);
                }
                return Err(ContractError::Overflow {});
            },
        }
        j = j + 1;
    }
    assert(out@ =~= payouts(*recipient, distribution.assets@, dist_count as int));
    Ok(out)
}

/// What the token registry reported on a caller's holdings.
#[derive(Debug, Clone, PartialEq, Eq)]
pub enum OwnershipReport {
    /// The tokens listed as the caller's, page after page.
    Listed(Vec<String>),
    /// The owner of each requested token, in the order of the request.
    Owners(Vec<String>),
}

/// Whether the report shows `owner` holding token `id`, the `i`-th requested.
pub open spec fn is_held(report: OwnershipReport, owner: Seq<char>, id: Seq<char>, i: int) -> bool {
    match report {
        OwnershipReport::Listed(v) => ids(v@).contains(id),
        OwnershipReport::Owners(v) => i < v@.len() && v@[i]@ == owner,
    }
}

/// The requested ids that the report shows held by `owner` (when `held`) or
/// not held (when not), in the order of the request.
pub open spec fn split_ids(
    token_ids: Seq<String>,
    report: OwnershipReport,
    owner: Seq<char>,
    held: bool,
) -> Seq<String>
    decreases token_ids.len(),
{
    if token_ids.len() == 0 {
        Seq::empty()
    } else {
        let head = split_ids(token_ids.drop_last(), report, owner, held);
        let i = token_ids.len() - 1;
        if is_held(report, owner, token_ids[i]@, i) == held {
            head.push(token_ids[i])
        } else {
            head
        }
    }
}

/// The requested tokens split into those the caller holds and the rest.
#[derive(Debug, Clone, PartialEq, Eq)]
pub struct ToPay {
    pub found: Vec<String>,
    pub not_found: Vec<String>,
}

/// Splits `token_ids` into the tokens that `report` shows `owner` holding
/// and the others. `listed` is how many tokens a listing of the owner's,
/// capped at `minimum_nfts_to_claim`, returned: fewer than the minimum fails
/// first; holding none of the requested tokens fails next.
pub fn query_owned_tokens(
    owner: &String,
    token_ids: &Vec<String>,
    report: &OwnershipReport,
    minimum_nfts_to_claim: u64,
    listed: u64,
) -> (r: Result<ToPay, ContractError>)
    ensures
        listed < minimum_nfts_to_claim ==> r == Err::<ToPay, ContractError>(
            ContractError::NotEnoughNftsToClaim {},
        ),
        listed >= minimum_nfts_to_claim && split_ids(token_ids@, *report, owner@, true).len() == 0
            ==> r == Err::<ToPay, ContractError>(ContractError::NothingToClaim {}),
        listed >= minimum_nfts_to_claim && split_ids(token_ids@, *report, owner@, true).len() > 0
            ==> r is Ok,
        r is Ok ==> r.unwrap().found@ == split_ids(token_ids@, *report, owner@, true)
            && r.unwrap().not_found@ == split_ids(token_ids@, *report, owner@, false),
{
    if listed < minimum_nfts_to_claim {
        return Err(ContractError::NotEnoughNftsToClaim {});
    }
    let mut found: Vec<String> = Vec::new();
    let mut not_found: Vec<String> = Vec::new();
    let mut i: usize = 0;
    while i < token_ids.len()
        invariant
            i <= token_ids.len(),
            found@ == split_ids(token_ids@.subrange(0, i as int), *report, owner@, true),
            not_found@ == split_ids(token_ids@.subrange(0, i as int), *report, owner@, false),
        decreases token_ids.len() - i,
    {
        let ghost pre = token_ids@.subrange(0, i as int);
        let ghost next = token_ids@.subrange(0, i + 1);
        assert(next.drop_last() =~= pre);
        assert(next[i as int] == token_ids@[i as int]);
        let held = match report {
            OwnershipReport::Listed(v) => contains_id(v, &token_ids[i]),
            OwnershipReport::Owners(v) => i < v.len() && v[i] == *owner,
        };
        if held {
            found.push(token_ids[i].clone());
        } else {
            not_found.push(token_ids[i].clone());
        }
        i = i + 1;
    }
    assert(token_ids@.subrange(0, token_ids.len() as int) =~= token_ids@);
    if found.len() == 0 {
        return Err(ContractError::NothingToClaim {});
    }
    Ok(ToPay { found, not_found })
}

/// How many tokens one page of a holdings listing asks for.
pub const SCAN_PAGE_LIMIT: u32 = 100;

/// How many pages a bulk claim lists at most.
pub const SCAN_MAX_PAGES: u64 = 5;

/// A listing of a caller's holdings, taken page by page: each page starts
/// after the last token of the one before; the listing stops at an empty
/// page or after the last allowed page.
#[derive(Debug, Clone, PartialEq, Eq)]
pub struct TokenScan {
    pub start_after: Option<String>,
    pub pages: u64,
    pub tokens: Vec<String>,
    pub finished: bool,
}

impl TokenScan {
    /// Whether the listing asks for no more pages.
    pub open spec fn spec_done(&self) -> bool {
        self.finished || self.pages >= SCAN_MAX_PAGES
    }

    /// A listing that starts after `start_after`, or at the first token.
    pub fn new(start_after: Option<String>) -> (r: TokenScan)
        ensures
            r.start_after == start_after,
            r.pages == 0,
            r.tokens@.len() == 0,
            !r.finished,
    {
        TokenScan { start_after, pages: 0, tokens: Vec::new(), finished: false }
    }

    /// The cursor of the next page to ask for, or `None` when done.
    pub fn next_request(&self) -> (r: Option<Option<String>>)
        ensures
            r is None <==> self.spec_done(),
            r is Some ==> r.unwrap() == self.start_after,
    {
        if self.finished || self.pages >= SCAN_MAX_PAGES {
            return None;
        }
        match &self.start_after {
            Some(t) => Some(Some(t.clone())),
            None => Some(None),
        }
    }

    /// Takes in the page just listed: an empty page ends the listing; any
    /// other adds its tokens and moves the cursor to its last one.
    pub fn absorb(&mut self, page: Vec<String>)
        requires
            !old(self).spec_done(),
        ensures
            page@.len() == 0 ==> *final(self) == (TokenScan { finished: true, ..*old(self) }),
            page@.len() > 0 ==> {
                &&& final(self).tokens@ == old(self).tokens@ + page@
                &&& final(self).start_after == Some(page@.last())
                &&& final(self).pages == old(self).pages + 1
                &&& !final(self).finished
            },
    {
        if page.len() == 0 {
            self.finished = true;
            return;
        }
        let last = page[page.len() - 1].clone();
        let mut page = page;
        self.tokens.append(&mut page);
        self.start_after = Some(last);
        self.pages = self.pages + 1;
    }
}

} // verus!
