use cw_nft_reward_distribution::contract::{instantiate, migrate, query, QueryAnswer};
use cw_nft_reward_distribution::error::ContractError;
use cw_nft_reward_distribution::executes::{add_distribution, claim_rewards, return_unclaimed, toggle_halt};
use cw_nft_reward_distribution::helpers::{
    create_send_assets_messages, query_owned_tokens, validate_distribution, OwnershipReport, TokenScan,
};
use cw_nft_reward_distribution::msg::{InstantiateMsg, MigrateMsg, QueryMsg};
use cw_nft_reward_distribution::state::{find_amount, Coin, Distribution, Ledger, Transfer};

const DAY: u64 = 86_400_000_000_000;
const START: u64 = 1_000 * DAY;

fn s(x: &str) -> String {
    x.to_string()
}

fn coin(amount: u128, denom: &str) -> Coin {
    Coin { denom: s(denom), amount }
}

fn ids(range: std::ops::RangeInclusive<u32>) -> Vec<String> {
    range.map(|n| n.to_string()).collect()
}

fn ledger(nft_count: u64) -> Ledger {
    instantiate(&InstantiateMsg { admin: s("admin"), distributor: s("dist"), nft_address: s("nft") }, nft_count)
}

/// Opens a cycle ending a day after `now`, funded exactly.
fn open(l: &mut Ledger, now: u64, assets: Vec<Coin>, to_distributor: bool, balances: &Vec<Coin>) -> Result<Vec<Transfer>, ContractError> {
    let n = l.config.nft_count as u128;
    let funds: Vec<Coin> = assets.iter().map(|c| coin(c.amount * n, &c.denom)).collect();
    add_distribution(l, now, &s("dist"), &funds, balances, assets, now + DAY, to_distributor, 1)
}

fn claim(l: &mut Ledger, now: u64, who: &str, token_ids: Vec<String>, holdings: Vec<String>) -> Result<cw_nft_reward_distribution::executes::ClaimOutcome, ContractError> {
    let listed = holdings.len() as u64;
    claim_rewards(l, now, &s(who), &token_ids, &OwnershipReport::Listed(holdings), listed)
}

fn is_claimed(l: &Ledger, id: &str) -> bool {
    match query(l, &QueryMsg::GetIfClaimed { token_id: s(id) }) {
        QueryAnswer::Claimed(b) => b,
        _ => panic!("unexpected answer"),
    }
}

#[test]
fn scenario_claim_of_a_hundred_tokens() {
    let mut l = ledger(1000);
    assert!(open(&mut l, START, vec![coin(100, "a")], false, &vec![]).is_ok());
    let o = claim(&mut l, START + 1, "holder", ids(1..=100), ids(1..=100)).unwrap();
    assert_eq!(o.transfers, vec![Transfer { to_address: s("holder"), denom: s("a"), amount: 10_000 }]);
    assert_eq!(o.newly_claimed, ids(1..=100));
    assert_eq!(l.distribution.as_ref().unwrap().claimed, 100);
}

#[test]
fn scenario_holder_of_nothing_cannot_claim() {
    let mut l = ledger(1000);
    assert!(open(&mut l, START, vec![coin(100, "a")], false, &vec![]).is_ok());
    let r = claim(&mut l, START + 1, "nobody", ids(1..=3), vec![]);
    assert_eq!(r.unwrap_err(), ContractError::NotEnoughNftsToClaim {});
}

#[test]
fn scenario_funds_of_another_denomination() {
    let mut l = ledger(1000);
    let r = add_distribution(&mut l, START, &s("dist"), &vec![coin(100_000, "x")], &vec![], vec![coin(100, "y")], START + DAY, false, 1);
    assert_eq!(r.unwrap_err(), ContractError::InvalidFundsReceived {});
    assert_eq!(l, ledger(1000));
}

#[test]
fn scenario_rollover_with_floor() {
    let mut l = ledger(1000);
    assert!(open(&mut l, START, vec![coin(700, "a")], false, &vec![]).is_ok());
    assert!(claim(&mut l, START + 1, "h", ids(1..=105), ids(1..=105)).is_ok());
    // the contract holds what the unclaimed 895 tokens are owed, plus the new funds
    let balances = vec![coin(895 * 700 + 700 * 1000, "a")];
    let later = START + 2 * DAY;
    let t = open(&mut l, later, vec![coin(700, "a")], false, &balances).unwrap();
    assert_eq!(t.len(), 0);
    // 895 * 700 / 1000 = 626.5: the carry is 626, the half is lost
    assert_eq!(l.distribution.as_ref().unwrap().assets, vec![coin(700 + 626, "a")]);
    assert_eq!(l.config.current_dist_id, 2);
}

#[test]
fn rollover_appends_unproposed_denominations() {
    let mut l = ledger(10);
    assert!(open(&mut l, START, vec![coin(30, "a"), coin(5, "b")], false, &vec![]).is_ok());
    assert!(claim(&mut l, START + 1, "h", ids(1..=3), ids(1..=3)).is_ok());
    let balances = vec![coin(7 * 30 + 10 * 10, "a"), coin(7 * 5, "b")];
    assert!(open(&mut l, START + 2 * DAY, vec![coin(10, "a")], false, &balances).is_ok());
    // a: 10 + 7*30/10 = 31; b: 7*5/10 = 3 (0.5 lost)
    assert_eq!(l.distribution.as_ref().unwrap().assets, vec![coin(31, "a"), coin(3, "b")]);
}

#[test]
fn rollover_needs_the_leftover_balance() {
    let mut l = ledger(10);
    assert!(open(&mut l, START, vec![coin(30, "a")], false, &vec![]).is_ok());
    let before = l.clone();
    let balances = vec![coin(10 * 30 - 1 + 10 * 10, "a")];
    let r = open(&mut l, START + 2 * DAY, vec![coin(10, "a")], false, &balances);
    assert_eq!(r.unwrap_err(), ContractError::InvalidDistributionInputs {});
    assert_eq!(l, before);
}

#[test]
fn scenario_return_of_the_unclaimed() {
    let mut l = ledger(1000);
    assert!(open(&mut l, START, vec![coin(100, "a"), coin(3, "b")], true, &vec![]).is_ok());
    assert!(claim(&mut l, START + 1, "h", ids(1..=40), ids(1..=40)).is_ok());
    let balances = vec![coin(960 * 100, "a"), coin(960 * 3, "b")];
    let t = return_unclaimed(&mut l, START + 2 * DAY, &s("dist"), &balances).unwrap();
    assert_eq!(
        t,
        vec![
            Transfer { to_address: s("dist"), denom: s("a"), amount: 96_000 },
            Transfer { to_address: s("dist"), denom: s("b"), amount: 2_880 },
        ]
    );
    // what the claims paid plus what came back is the whole funding
    assert_eq!(40 * 100 + t[0].amount, 100 * 1000);
    assert_eq!(l.distribution.as_ref().unwrap().unclaimed_sent_to_distributor, Some(true));
}

#[test]
fn second_return_is_refused() {
    let mut l = ledger(10);
    assert!(open(&mut l, START, vec![coin(1, "a")], true, &vec![]).is_ok());
    let balances = vec![coin(10, "a")];
    assert!(return_unclaimed(&mut l, START + 2 * DAY, &s("dist"), &balances).is_ok());
    let r = return_unclaimed(&mut l, START + 3 * DAY, &s("dist"), &balances);
    assert_eq!(r.unwrap_err(), ContractError::UnclaimedWasAlreadyReturned {});
}

#[test]
fn claim_status_of_unknown_ids_is_false() {
    let mut l = ledger(10);
    assert!(!is_claimed(&l, "1"));
    assert!(open(&mut l, START, vec![coin(1, "a")], false, &vec![]).is_ok());
    assert!(claim(&mut l, START, "h", ids(1..=2), ids(1..=5)).is_ok());
    assert!(is_claimed(&l, "1"));
    assert!(!is_claimed(&l, "3"));
    assert!(!is_claimed(&l, "no such token"));
}

#[test]
fn double_claim_adds_nothing() {
    let mut l = ledger(10);
    assert!(open(&mut l, START, vec![coin(5, "a")], false, &vec![]).is_ok());
    let o = claim(&mut l, START, "h", vec![s("1"), s("2"), s("1")], ids(1..=5)).unwrap();
    assert_eq!(o.newly_claimed, vec![s("1"), s("2")]);
    assert_eq!(o.transfers[0].amount, 10);
    let o = claim(&mut l, START, "h", vec![s("2"), s("3")], ids(1..=5)).unwrap();
    assert_eq!(o.newly_claimed, vec![s("3")]);
    assert_eq!(o.transfers[0].amount, 5);
    let r = claim(&mut l, START, "h", vec![s("1"), s("3")], ids(1..=5));
    assert_eq!(r.unwrap_err(), ContractError::NothingToClaim {});
    assert_eq!(l.distribution.as_ref().unwrap().claimed, 3);
}

#[test]
fn opening_clears_claims() {
    let mut l = ledger(4);
    assert!(open(&mut l, START, vec![coin(5, "a")], false, &vec![]).is_ok());
    assert!(claim(&mut l, START, "h", ids(1..=4), ids(1..=4)).is_ok());
    assert!(open(&mut l, START + 2 * DAY, vec![coin(5, "a")], false, &vec![coin(20, "a")]).is_ok());
    assert_eq!(l.claims.len(), 0);
    assert!(!is_claimed(&l, "1"));
    assert_eq!(l.distribution.as_ref().unwrap().claimed, 0);
}

#[test]
fn claims_never_pass_the_collection_size() {
    let mut l = ledger(2);
    assert!(open(&mut l, START, vec![coin(5, "a")], false, &vec![]).is_ok());
    let r = claim(&mut l, START, "h", ids(1..=3), ids(1..=3));
    assert_eq!(r.unwrap_err(), ContractError::InvalidNftCount {});
    assert_eq!(l.distribution.as_ref().unwrap().claimed, 0);
}

#[test]
fn opening_settles_an_unreturned_remainder() {
    let mut l = ledger(10);
    assert!(open(&mut l, START, vec![coin(4, "a")], true, &vec![]).is_ok());
    assert!(claim(&mut l, START, "h", ids(1..=6), ids(1..=6)).is_ok());
    let t = open(&mut l, START + 2 * DAY, vec![coin(1, "b")], false, &vec![]).unwrap();
    assert_eq!(t, vec![Transfer { to_address: s("dist"), denom: s("a"), amount: 16 }]);
    assert_eq!(l.distribution.as_ref().unwrap().assets, vec![coin(1, "b")]);
}

#[test]
fn opening_errors_in_order() {
    let mut l = ledger(10);
    let r = add_distribution(&mut l, START, &s("x"), &vec![], &vec![], vec![], START, false, 1);
    assert_eq!(r.unwrap_err(), ContractError::InvalidDistributionEndTime {});
    let r = add_distribution(&mut l, START, &s("x"), &vec![], &vec![], vec![], START + 1, false, 1);
    assert_eq!(r.unwrap_err(), ContractError::Unauthorized {});
    assert!(toggle_halt(&mut l, &s("admin")).is_ok());
    let r = add_distribution(&mut l, START, &s("dist"), &vec![], &vec![], vec![], START + 1, false, 1);
    assert_eq!(r.unwrap_err(), ContractError::DistributionHalted {});
    assert_eq!(toggle_halt(&mut l, &s("dist")).unwrap_err(), ContractError::Unauthorized {});
    assert!(toggle_halt(&mut l, &s("admin")).is_ok());
    assert!(open(&mut l, START, vec![coin(1, "a")], false, &vec![]).is_ok());
    let r = open(&mut l, START + DAY, vec![coin(1, "a")], false, &vec![coin(20, "a")]);
    assert_eq!(r.unwrap_err(), ContractError::CurrentDistributionHasNotYetEnded {});
    let r = add_distribution(&mut l, START + 3 * DAY, &s("dist"), &vec![coin(10, "a")], &vec![coin(20, "a")], vec![coin(1, "a")], START + DAY, false, 1);
    assert_eq!(r.unwrap_err(), ContractError::InvalidDistributionEndTime {});
    let r = add_distribution(&mut l, START + 3 * DAY, &s("dist"), &vec![coin(11, "a")], &vec![coin(21, "a")], vec![coin(1, "a")], START + 4 * DAY, false, 1);
    assert_eq!(r.unwrap_err(), ContractError::InvalidDistributionInputs {});
}

#[test]
fn validation_cases() {
    let d = s("dist");
    assert_eq!(validate_distribution(&d, &s("x"), &vec![], &vec![], 1).unwrap_err(), ContractError::Unauthorized {});
    assert_eq!(validate_distribution(&d, &d, &vec![], &vec![coin(1, "a")], 1).unwrap_err(), ContractError::InvalidFundsReceived {});
    assert_eq!(
        validate_distribution(&d, &d, &vec![coin(2, "a")], &vec![coin(1, "a"), coin(1, "b")], 2).unwrap_err(),
        ContractError::InvalidFundsReceived {}
    );
    assert_eq!(
        validate_distribution(&d, &d, &vec![coin(3, "a")], &vec![coin(1, "a")], 2).unwrap_err(),
        ContractError::InvalidDistributionInputs {}
    );
    assert_eq!(
        validate_distribution(&d, &d, &vec![coin(2, "a"), coin(2, "a")], &vec![coin(1, "a"), coin(1, "a")], 2).unwrap_err(),
        ContractError::InvalidDistributionInputs {}
    );
    assert_eq!(
        validate_distribution(&d, &d, &vec![coin(u128::MAX, "a")], &vec![coin(u128::MAX, "a")], 2).unwrap_err(),
        ContractError::InvalidDistributionInputs {}
    );
    assert!(validate_distribution(&d, &d, &vec![coin(6, "b"), coin(2, "a")], &vec![coin(1, "a"), coin(3, "b")], 2).is_ok());
}

#[test]
fn claim_errors() {
    let mut l = ledger(10);
    let r = claim(&mut l, START, "h", ids(1..=1), ids(1..=1));
    assert_eq!(r.unwrap_err(), ContractError::DistributionNotFound {});
    assert!(open(&mut l, START, vec![coin(1, "a")], false, &vec![]).is_ok());
    let many: Vec<String> = (1..=501).map(|n| n.to_string()).collect();
    assert_eq!(claim(&mut l, START, "h", many, ids(1..=1)).unwrap_err(), ContractError::TooManyTokensSent {});
    let r = claim_rewards(&mut l, START, &s("h"), &ids(1..=6), &OwnershipReport::Owners(vec![]), 1);
    assert_eq!(r.unwrap_err(), ContractError::TooManyTokensSent {});
    let r = claim(&mut l, START + 2 * DAY, "h", ids(1..=1), ids(1..=1));
    assert_eq!(r.unwrap_err(), ContractError::ClaimingWindowHasClosed {});
    let r = claim(&mut l, START, "h", vec![s("9")], ids(1..=1));
    assert_eq!(r.unwrap_err(), ContractError::NothingToClaim {});
    assert!(toggle_halt(&mut l, &s("admin")).is_ok());
    let r = claim(&mut l, START, "h", ids(1..=1), ids(1..=1));
    assert_eq!(r.unwrap_err(), ContractError::DistributionHalted {});
}

#[test]
fn claim_by_owner_lookup() {
    let mut l = ledger(10);
    assert!(open(&mut l, START, vec![coin(2, "a")], false, &vec![]).is_ok());
    let report = OwnershipReport::Owners(vec![s("h"), s("other"), s("h")]);
    let o = claim_rewards(&mut l, START, &s("h"), &ids(1..=3), &report, 1).unwrap();
    assert_eq!(o.newly_claimed, vec![s("1"), s("3")]);
    assert_eq!(o.not_found, vec![s("2")]);
    assert_eq!(o.transfers[0].amount, 4);
}

#[test]
fn payout_overflow_is_refused() {
    let mut l = ledger(10);
    l.distribution = Some(Distribution {
        assets: vec![coin(u128::MAX, "a")],
        claimed: 0,
        unclaimed_to_distributor: false,
        unclaimed_sent_to_distributor: None,
        minimum_nfts_to_claim: 0,
    });
    l.config.current_dist_end_time = Some(START);
    let before = l.clone();
    let r = claim(&mut l, START, "h", ids(1..=2), ids(1..=2));
    assert_eq!(r.unwrap_err(), ContractError::Overflow {});
    assert_eq!(l, before);
}

#[test]
fn empty_collection_cannot_carry() {
    let mut l = ledger(0);
    l.distribution = Some(Distribution {
        assets: vec![coin(1, "a")],
        claimed: 0,
        unclaimed_to_distributor: false,
        unclaimed_sent_to_distributor: None,
        minimum_nfts_to_claim: 0,
    });
    let r = add_distribution(&mut l, START, &s("dist"), &vec![coin(0, "a")], &vec![coin(0, "a")], vec![coin(1, "a")], START + 1, false, 0);
    assert_eq!(r.unwrap_err(), ContractError::DivideByZero {});
}

#[test]
fn return_errors() {
    let mut l = ledger(10);
    let r = return_unclaimed(&mut l, START, &s("dist"), &vec![]);
    assert_eq!(r.unwrap_err(), ContractError::DistributionNotFound {});
    assert!(open(&mut l, START, vec![coin(1, "a")], false, &vec![]).is_ok());
    let r = return_unclaimed(&mut l, START, &s("dist"), &vec![]);
    assert_eq!(r.unwrap_err(), ContractError::CurrentDistributionHasNotYetEnded {});
    let r = return_unclaimed(&mut l, START + 2 * DAY, &s("x"), &vec![]);
    assert_eq!(r.unwrap_err(), ContractError::Unauthorized {});
    let r = return_unclaimed(&mut l, START + 2 * DAY, &s("dist"), &vec![]);
    assert_eq!(r.unwrap_err(), ContractError::CurrentUnclaimedGoesToTheSubsequentDistribution {});

    let mut l = ledger(2);
    assert!(open(&mut l, START, vec![coin(1, "a")], true, &vec![]).is_ok());
    let r = return_unclaimed(&mut l, START + 2 * DAY, &s("dist"), &vec![coin(1, "a")]);
    assert_eq!(r.unwrap_err(), ContractError::InvalidClaimValue {});
    assert!(claim(&mut l, START, "h", ids(1..=2), ids(1..=2)).is_ok());
    let r = return_unclaimed(&mut l, START + 2 * DAY, &s("dist"), &vec![]);
    assert_eq!(r.unwrap_err(), ContractError::NothingToReturn {});
    assert!(toggle_halt(&mut l, &s("admin")).is_ok());
    let r = return_unclaimed(&mut l, START + 2 * DAY, &s("dist"), &vec![]);
    assert_eq!(r.unwrap_err(), ContractError::DistributionHalted {});
}

#[test]
fn owned_tokens_split() {
    let owner = s("h");
    let listing = OwnershipReport::Listed(vec![s("2"), s("4")]);
    let r = query_owned_tokens(&owner, &ids(1..=4), &listing, 2, 2).unwrap();
    assert_eq!(r.found, vec![s("2"), s("4")]);
    assert_eq!(r.not_found, vec![s("1"), s("3")]);
    assert_eq!(query_owned_tokens(&owner, &ids(1..=4), &listing, 3, 2).unwrap_err(), ContractError::NotEnoughNftsToClaim {});
    assert_eq!(query_owned_tokens(&owner, &ids(5..=6), &listing, 0, 0).unwrap_err(), ContractError::NothingToClaim {});
}

#[test]
fn payouts_per_asset() {
    let d = Distribution {
        assets: vec![coin(3, "a"), coin(0, "b")],
        claimed: 0,
        unclaimed_to_distributor: false,
        unclaimed_sent_to_distributor: None,
        minimum_nfts_to_claim: 0,
    };
    let t = create_send_assets_messages(&d, &s("r"), 4).unwrap();
    assert_eq!(
        t,
        vec![Transfer { to_address: s("r"), denom: s("a"), amount: 12 }, Transfer { to_address: s("r"), denom: s("b"), amount: 0 }]
    );
}

#[test]
fn scan_stops_after_five_pages_or_an_empty_one() {
    let mut scan = TokenScan::new(Some(s("7")));
    assert_eq!(scan.next_request(), Some(Some(s("7"))));
    for page in 0..5u32 {
        assert!(scan.next_request().is_some());
        scan.absorb(vec![format!("p{}a", page), format!("p{}b", page)]);
    }
    assert_eq!(scan.next_request(), None);
    assert_eq!(scan.tokens.len(), 10);
    assert_eq!(scan.start_after, Some(s("p4b")));
    let mut scan = TokenScan::new(None);
    scan.absorb(vec![]);
    assert_eq!(scan.next_request(), None);
}

#[test]
fn queries_and_migration() {
    let l = ledger(5);
    match query(&l, &QueryMsg::GetCurrentDistributionInfo {}) {
        QueryAnswer::Distribution(d) => {
            assert_eq!(d.assets.len(), 0);
            assert_eq!(d.claimed, 0);
        },
        _ => panic!("unexpected answer"),
    }
    match query(&l, &QueryMsg::GetConfig {}) {
        QueryAnswer::Config(c) => assert_eq!(c.nft_count, 5),
        _ => panic!("unexpected answer"),
    }
    assert!(migrate(&MigrateMsg {}).is_ok());
    assert!(l.is_well_formed());
    assert_eq!(find_amount(&vec![coin(1, "a"), coin(2, "b"), coin(3, "b")], &s("b")), 2);
    assert_eq!(ContractError::NothingToClaim {}.name(), "NothingToClaim");
}
