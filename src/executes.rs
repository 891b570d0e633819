use vstd::prelude::*;

use crate::error::ContractError;
use crate::helpers::{
    create_send_assets_messages, payouts, payouts_fit, query_owned_tokens, split_ids, validate_distribution,
    validation, OwnershipReport,
};
use crate::state::{
    amount_of, contains_denom, contains_id, find_amount, has_denom, ids, unique_denoms, Coin, Config,
    Distribution, Ledger, Transfer,
};

verus! {

/// The assets of the ledger's current cycle; none before the first cycle.
pub open spec fn prev_assets(l: Ledger) -> Seq<Coin> {
    match l.distribution {
        Some(d) => d.assets@,
        None => Seq::empty(),
    }
}

/// How many tokens have claimed in the current cycle; zero before the first.
pub open spec fn prev_claimed(l: Ledger) -> int {
    match l.distribution {
        Some(d) => d.claimed as int,
        None => 0,
    }
}

/// Whether the current cycle owes its unclaimed remainder to the distributor.
pub open spec fn prev_returns_unclaimed(l: Ledger) -> bool {
    match l.distribution {
        Some(d) => d.unclaimed_to_distributor,
        None => false,
    }
}

/// Whether the current cycle owes its remainder to the distributor and has
/// not yet sent it.
pub open spec fn prev_settlement_pending(l: Ledger) -> bool {
    match l.distribution {
        Some(d) => d.unclaimed_to_distributor && d.unclaimed_sent_to_distributor == Some(false),
        None => false,
    }
}

/// The tokens that have not claimed in the current cycle.
pub open spec fn unclaimed_tokens(l: Ledger) -> int {
    l.config.nft_count - prev_claimed(l)
}

/// For each coin of `prev`, the balance of its denomination, less the funds
/// of it just attached, still holds `remaining` times its amount.
pub open spec fn leftovers_suffice(
    balances: Seq<Coin>,
    funds: Seq<Coin>,
    prev: Seq<Coin>,
    remaining: int,
) -> bool {
    forall|j: int|
        0 <= j < prev.len() ==> amount_of(balances, (#[trigger] prev[j]).denom@) - amount_of(
            funds,
            prev[j].denom@,
        ) >= remaining * prev[j].amount
}

/// The per-token share that `remaining` unclaimed tokens, each owed
/// `amount`, carry into a cycle over `nft_count` tokens, rounded down.
pub open spec fn carry_share(remaining: int, amount: int, nft_count: int) -> int {
    if nft_count == 0 {
        0
    } else {
        (remaining * amount) / nft_count
    }
}

/// The proposed assets, each raised by the carry share of the previous
/// cycle's amount of its denomination.
pub open spec fn topped_up(proposed: Seq<Coin>, prev: Seq<Coin>, remaining: int, nft_count: int) -> Seq<Coin> {
    proposed.map_values(
        |c: Coin|
            Coin {
                denom: c.denom,
                amount: (c.amount + carry_share(remaining, amount_of(prev, c.denom@), nft_count)) as u128,
            },
    )
}

/// Each raised amount of `topped_up` fits in a `u128`.
pub open spec fn top_up_fits(proposed: Seq<Coin>, prev: Seq<Coin>, remaining: int, nft_count: int) -> bool {
    forall|k: int|
        0 <= k < proposed.len() ==> (#[trigger] proposed[k]).amount + carry_share(
            remaining,
            amount_of(prev, proposed[k].denom@),
            nft_count,
        ) <= u128::MAX
}

/// The previous coins whose denomination is not proposed, in their order,
/// each with its carry share as amount.
pub open spec fn carried_over(proposed: Seq<Coin>, prev: Seq<Coin>, remaining: int, nft_count: int) -> Seq<Coin>
    decreases prev.len(),
{
    if prev.len() == 0 {
        Seq::empty()
    } else {
        let head = carried_over(proposed, prev.drop_last(), remaining, nft_count);
        let c = prev.last();
        if has_denom(proposed, c.denom@) {
            head
        } else {
            head.push(
                Coin { denom: c.denom, amount: carry_share(remaining, c.amount as int, nft_count) as u128 },
            )
        }
    }
}

/// `amount_of` gives zero or the amount of one of the coins.
proof fn lemma_amount_of_is_entry(coins: Seq<Coin>, d: Seq<char>)
    ensures
        amount_of(coins, d) == 0 || exists|j: int|
            0 <= j < coins.len() && amount_of(coins, d) == (#[trigger] coins[j]).amount,
    decreases coins.len(),
{
    if coins.len() > 0 {
        lemma_amount_of_is_entry(coins.drop_last(), d);
        if amount_of(coins, d) != 0 && has_denom(coins.drop_last(), d) {
            let j = choose|j: int|
                0 <= j < coins.drop_last().len() && amount_of(coins.drop_last(), d)
                    == (#[trigger] coins.drop_last()[j]).amount;
            assert(coins[j] == coins.drop_last()[j]);
        } else if amount_of(coins, d) != 0 {
            assert(coins[coins.len() - 1] == coins.last());
        }
    }
}

/// `amount_of` never exceeds the largest `u128`.
pub proof fn lemma_amount_of_bounded(coins: Seq<Coin>, d: Seq<char>)
    ensures
        0 <= amount_of(coins, d) <= u128::MAX,
{
    lemma_amount_of_is_entry(coins, d);
    if amount_of(coins, d) != 0 {
        let j = choose|j: int| 0 <= j < coins.len() && amount_of(coins, d) == (#[trigger] coins[j]).amount;
    }
}

/// The carried coins have denominations of `prev` that are not proposed,
/// and no two of them share one.
proof fn lemma_carried_over_denoms(proposed: Seq<Coin>, prev: Seq<Coin>, remaining: int, nft_count: int)
    requires
        unique_denoms(prev),
    ensures
        unique_denoms(carried_over(proposed, prev, remaining, nft_count)),
        forall|i: int|
            0 <= i < carried_over(proposed, prev, remaining, nft_count).len() ==> {
                let d = (#[trigger] carried_over(proposed, prev, remaining, nft_count)[i]).denom@;
                has_denom(prev, d) && !has_denom(proposed, d)
            },
    decreases prev.len(),
{
    if prev.len() > 0 {
        let init = prev.drop_last();
        assert(unique_denoms(init)) by {
            assert forall|i: int, j: int| 0 <= i < j < init.len() implies (#[trigger] init[i]).denom@
                != (#[trigger] init[j]).denom@ by {
                assert(init[i] == prev[i] && init[j] == prev[j]);
            }
        }
        lemma_carried_over_denoms(proposed, init, remaining, nft_count);
        let head = carried_over(proposed, init, remaining, nft_count);
        let all = carried_over(proposed, prev, remaining, nft_count);
        assert forall|i: int| 0 <= i < head.len() implies has_denom(prev, (#[trigger] head[i]).denom@) by {
            let k = choose|k: int| 0 <= k < init.len() && (#[trigger] init[k]).denom@ == head[i].denom@;
            assert(prev[k] == init[k]);
        }
        if !has_denom(proposed, prev.last().denom@) {
            assert forall|i: int| 0 <= i < head.len() implies (#[trigger] head[i]).denom@
                != prev.last().denom@ by {
                let k = choose|k: int| 0 <= k < init.len() && (#[trigger] init[k]).denom@ == head[i].denom@;
                assert(prev[k] == init[k]);
                assert(prev[prev.len() - 1] == prev.last());
            }
            assert(all.len() == head.len() + 1);
            assert forall|i: int| 0 <= i < all.len() implies {
                let d = (#[trigger] all[i]).denom@;
                has_denom(prev, d) && !has_denom(proposed, d)
            } by {
                if i == head.len() {
                    assert(prev[prev.len() - 1] == prev.last());
                } else {
                    assert(all[i] == head[i]);
                }
            }
            assert forall|i: int, j: int| 0 <= i < j < all.len() implies (#[trigger] all[i]).denom@
                != (#[trigger] all[j]).denom@ by {
                assert(all[i] == head[i]);
                if j < head.len() {
                    assert(all[j] == head[j]);
                }
            }
        }
    }
}

/// Whether, for each coin of `prev`, the balance of its denomination less
/// the funds of it just attached still holds `remaining` times its amount.
fn leftovers_check(balances: &Vec<Coin>, funds: &Vec<Coin>, prev: &Vec<Coin>, remaining: u64) -> (r: bool)
    ensures
        r == leftovers_suffice(balances@, funds@, prev@, remaining as int),
{
    let mut j: usize = 0;
    while j < prev.len()
        invariant
            j <= prev.len(),
            forall|i: int|
                0 <= i < j ==> amount_of(balances@, (#[trigger] prev@[i]).denom@) - amount_of(
                    funds@,
                    prev@[i].denom@,
                ) >= remaining * prev@[i].amount,
        decreases prev.len() - j,
    {
        let held = find_amount(balances, &prev[j].denom);
        let sent = find_amount(funds, &prev[j].denom);
        let ok = match (remaining as u128).checked_mul(prev[j].amount) {
            Some(needed) => held >= sent && held - sent >= needed,
            None => false,
        };
        if !ok {
            assert(amount_of(balances@, prev@[j as int].denom@) - amount_of(funds@, prev@[j as int].denom@)
                < remaining * prev@[j as int].amount);
            return false;
        }
        j = j + 1;
    }
    true
}

/// The assets of a cycle that takes over the unclaimed value of `prev`: the
/// proposed ones raised by their carry shares, then the previous coins of
/// other denominations with theirs. `None` when a raised amount overflows.
fn roll_over(proposed: &Vec<Coin>, prev: &Vec<Coin>, remaining: u64, nft_count: u64) -> (r: Option<Vec<Coin>>)
    requires
        nft_count > 0,
        payouts_fit(prev@, remaining as int),
    ensures
        r is Some <==> top_up_fits(proposed@, prev@, remaining as int, nft_count as int),
        r is Some ==> r.unwrap()@ == topped_up(proposed@, prev@, remaining as int, nft_count as int)
            + carried_over(proposed@, prev@, remaining as int, nft_count as int),
{
    let ghost rem = remaining as int;
    let ghost n = nft_count as int;
    let mut out: Vec<Coin> = Vec::new();
    let mut k: usize = 0;
    while k < proposed.len()
        invariant
            k <= proposed.len(),
            nft_count > 0,
            rem == remaining as int,
            n == nft_count as int,
            payouts_fit(prev@, rem),
            out@.len() == k,
            forall|i: int|
                0 <= i < k ==> (#[trigger] proposed@[i]).amount + carry_share(
                    rem,
                    amount_of(prev@, proposed@[i].denom@),
                    n,
                ) <= u128::MAX,
            forall|i: int| 0 <= i < k ==> (#[trigger] out@[i]) == topped_up(proposed@, prev@, rem, n)[i],
        decreases proposed.len() - k,
    {
        let per_token = find_amount(prev, &proposed[k].denom);
        proof {
            lemma_amount_of_is_entry(prev@, proposed@[k as int].denom@);
            if per_token != 0 {
                let j = choose|j: int| 0 <= j < prev@.len() && per_token == (#[trigger] prev@[j]).amount;
                assert(remaining * prev@[j].amount <= u128::MAX);
            }
        }
        assert(remaining * per_token <= u128::MAX);
        let carry = (remaining as u128) * per_token / (nft_count as u128);
        assert(carry == carry_share(rem, amount_of(prev@, proposed@[k as int].denom@), n));
        match proposed[k].amount.checked_add(carry) {
            Some(amount) => {
                out.push(Coin { denom: proposed[k].denom.clone(), amount });
            },
            None => {
                assert(!top_up_fits(proposed@, prev@, rem, n)) by {
                    assert(proposed@[k as int].amount + carry_share(
                        rem,
                        amount_of(prev@, proposed@[k as int].denom@),
                        n,
                    ) > u128::MAX);
                }
                return None;
            },
        }
        k = k + 1;
    }
    assert(out@ =~= topped_up(proposed@, prev@, rem, n));
    let mut extra: Vec<Coin> = Vec::new();
    let mut j: usize = 0;
    while j < prev.len()
        invariant
            j <= prev.len(),
            nft_count > 0,
            rem == remaining as int,
            n == nft_count as int,
            payouts_fit(prev@, rem),
            extra@ == carried_over(proposed@, prev@.subrange(0, j as int), rem, n),
        decreases prev.len() - j,
    {
        let ghost pre = prev@.subrange(0, j as int);
        let ghost next = prev@.subrange(0, j + 1);
        assert(next.drop_last() =~= pre);
        assert(next.last() == prev@[j as int]);
        if !contains_denom(proposed, &prev[j].denom) {
            assert(remaining * prev@[j as int].amount <= u128::MAX);
            let carry = (remaining as u128) * prev[j].amount / (nft_count as u128);
            extra.push(Coin { denom: prev[j].denom.clone(), amount: carry });
        }
        j = j + 1;
    }
    assert(prev@.subrange(0, prev.len() as int) =~= prev@);
    out.append(&mut extra);
    Some(out)
}

/// Why opening a cycle fails, if it does: the end time, the sender, the
/// halt, the previous window, the attached funds, the cycle counter, and
/// then settling or rolling over the previous cycle, in that order.
pub open spec fn opening_error(
    l: Ledger,
    now: u64,
    sender: Seq<char>,
    funds: Seq<Coin>,
    balances: Seq<Coin>,
    proposed: Seq<Coin>,
    end_time: u64,
) -> Option<ContractError> {
    let n = l.config.nft_count as int;
    let remaining = unclaimed_tokens(l);
    if end_time <= now {
        Some(ContractError::InvalidDistributionEndTime {})
    } else if sender != l.config.distributor@ {
        Some(ContractError::Unauthorized {})
    } else if l.config.current_dist_halted {
        Some(ContractError::DistributionHalted {})
    } else if l.config.current_dist_end_time is Some && l.config.current_dist_end_time.unwrap() >= now {
        Some(ContractError::CurrentDistributionHasNotYetEnded {})
    } else if l.config.current_dist_end_time is Some && l.config.current_dist_end_time.unwrap() >= end_time {
        Some(ContractError::InvalidDistributionEndTime {})
    } else if validation(l.config.distributor@, sender, funds, proposed, n) is Err {
        Some(validation(l.config.distributor@, sender, funds, proposed, n).get_Err_0())
    } else if l.config.current_dist_id == u64::MAX {
        Some(ContractError::Overflow {})
    } else if prev_returns_unclaimed(l) {
        if prev_settlement_pending(l) && !payouts_fit(prev_assets(l), remaining) {
            Some(ContractError::Overflow {})
        } else {
            None
        }
    } else if !leftovers_suffice(balances, funds, prev_assets(l), remaining) {
        Some(ContractError::InvalidDistributionInputs {})
    } else if n == 0 && prev_assets(l).len() > 0 {
        Some(ContractError::DivideByZero {})
    } else if !top_up_fits(proposed, prev_assets(l), remaining, n) {
        Some(ContractError::Overflow {})
    } else {
        None
    }
}

/// The assets of the cycle that opening with `proposed` creates: `proposed`
/// itself when the previous cycle returns its remainder, else `proposed`
/// raised by the carry shares, followed by the previous coins of other
/// denominations with their carry shares.
pub open spec fn opened_assets(l: Ledger, proposed: Seq<Coin>) -> Seq<Coin> {
    let n = l.config.nft_count as int;
    let remaining = unclaimed_tokens(l);
    if prev_returns_unclaimed(l) {
        proposed
    } else {
        topped_up(proposed, prev_assets(l), remaining, n) + carried_over(
            proposed,
            prev_assets(l),
            remaining,
            n,
        )
    }
}

/// The transfers that opening a cycle sends: the previous cycle's unclaimed
/// remainder, to the distributor, when it is owed and not yet sent.
pub open spec fn opening_transfers(l: Ledger) -> Seq<Transfer> {
    if prev_settlement_pending(l) {
        payouts(l.config.distributor, prev_assets(l), unclaimed_tokens(l))
    } else {
        Seq::empty()
    }
}

/// The settings after a cycle ending at `end_time` opens.
pub open spec fn opened_config(c: Config, end_time: u64) -> Config {
    Config {
        current_dist_id: (c.current_dist_id + 1) as u64,
        current_dist_end_time: Some(end_time),
        ..c
    }
}

/// What opening a cycle does: on success the settings, the cycle and the
/// claims are replaced as described, and the transfers are those owed; on
/// failure the error is the first that applies and nothing changes.
pub open spec fn opened(
    l: Ledger,
    post: Ledger,
    now: u64,
    sender: Seq<char>,
    funds: Seq<Coin>,
    balances: Seq<Coin>,
    proposed: Seq<Coin>,
    end_time: u64,
    unclaimed_to_distributor: bool,
    minimum_nfts_to_claim: u64,
    r: Result<Vec<Transfer>, ContractError>,
) -> bool {
    match r {
        Ok(transfers) => {
            &&& opening_error(l, now, sender, funds, balances, proposed, end_time) is None
            &&& transfers@ == opening_transfers(l)
            &&& post.config == opened_config(l.config, end_time)
            &&& post.claims@.len() == 0
            &&& post.distribution is Some
            &&& post.distribution.unwrap().assets@ == opened_assets(l, proposed)
            &&& post.distribution.unwrap().claimed == 0
            &&& post.distribution.unwrap().unclaimed_to_distributor == unclaimed_to_distributor
            &&& post.distribution.unwrap().unclaimed_sent_to_distributor == (if unclaimed_to_distributor {
                Some(false)
            } else {
                None
            })
            &&& post.distribution.unwrap().minimum_nfts_to_claim == minimum_nfts_to_claim
        },
        Err(e) => {
            &&& opening_error(l, now, sender, funds, balances, proposed, end_time) == Some(e)
            &&& post == l
        },
    }
}

/// Opens a new cycle paying `assets_per_nft` per token until
/// `distribution_end_time`, funded by `funds`. The previous cycle's
/// unclaimed value is sent to the distributor when that cycle owes it and
/// has not sent it, and otherwise rolls into the new per-token amounts; the
/// claims are cleared. `balances` are the contract's holdings, `now` the
/// current time. On failure the ledger is left as it was.
pub fn add_distribution(
    ledger: &mut Ledger,
    now: u64,
    sender: &String,
    funds: &Vec<Coin>,
    balances: &Vec<Coin>,
    assets_per_nft: Vec<Coin>,
    distribution_end_time: u64,
    unclaimed_to_distributor: bool,
    minimum_nfts_to_claim: u64,
) -> (r: Result<Vec<Transfer>, ContractError>)
    requires
        old(ledger).wf(),
    ensures
        final(ledger).wf(),
        opened(
            *old(ledger),
            *final(ledger),
            now,
            sender@,
            funds@,
            balances@,
            assets_per_nft@,
            distribution_end_time,
            unclaimed_to_distributor,
            minimum_nfts_to_claim,
            r,
        ),
{
    if distribution_end_time <= now {
        return Err(ContractError::InvalidDistributionEndTime {});
    }
    if !(*sender == ledger.config.distributor) {
        return Err(ContractError::Unauthorized {});
    }
    if ledger.config.current_dist_halted {
        return Err(ContractError::DistributionHalted {});
    }
    if let Some(prev_end) = ledger.config.current_dist_end_time {
        if prev_end >= now {
            return Err(ContractError::CurrentDistributionHasNotYetEnded {});
        }
        if prev_end >= distribution_end_time {
            return Err(ContractError::InvalidDistributionEndTime {});
        }
    }
    let nft_count = ledger.config.nft_count;
    match validate_distribution(&ledger.config.distributor, sender, funds, &assets_per_nft, nft_count) {
        Ok(()) => {},
        Err(e) => {
            return Err(e);
        },
    }
    if ledger.config.current_dist_id == u64::MAX {
        return Err(ContractError::Overflow {});
    }
    let empty = Distribution::empty();
    let prev: &Distribution = match &ledger.distribution {
        Some(d) => d,
        None => &empty,
    };
    let ghost l = *ledger;
    assert(prev.assets@ == prev_assets(l));
    let remaining: u64 = nft_count - prev.claimed;
    let mut transfers: Vec<Transfer> = Vec::new();
    let assets: Vec<Coin>;
    if prev.unclaimed_to_distributor {
        if matches!(prev.unclaimed_sent_to_distributor, Some(false)) {
            match create_send_assets_messages(prev, &ledger.config.distributor, remaining) {
                Ok(t) => {
                    transfers = t;
                },
                Err(e) => {
                    return Err(e);
                },
            }
        }
        assets = assets_per_nft;
    } else {
        if !leftovers_check(balances, funds, &prev.assets, remaining) {
            return Err(ContractError::InvalidDistributionInputs {});
        }
        if nft_count == 0 {
            if prev.assets.len() > 0 {
                return Err(ContractError::DivideByZero {});
            }
            assert(topped_up(assets_per_nft@, prev.assets@, remaining as int, 0) =~= assets_per_nft@);
            assert(carried_over(assets_per_nft@, prev.assets@, remaining as int, 0) =~= Seq::<Coin>::empty());
            assets = assets_per_nft;
        } else {
            assert(payouts_fit(prev.assets@, remaining as int)) by {
                assert forall|j: int| 0 <= j < prev.assets@.len() implies remaining * (
                #[trigger] prev.assets@[j]).amount <= u128::MAX by {
                    lemma_amount_of_is_entry(balances@, prev.assets@[j].denom@);
                    if amount_of(balances@, prev.assets@[j].denom@) != 0 {
                        let i = choose|i: int|
                            0 <= i < balances@.len() && amount_of(balances@, prev.assets@[j].denom@)
                                == (#[trigger] balances@[i]).amount;
                    }
                    lemma_amount_of_is_entry(funds@, prev.assets@[j].denom@);
                }
            }
            match roll_over(&assets_per_nft, &prev.assets, remaining, nft_count) {
                Some(a) => {
                    assets = a;
                },
                None => {
                    return Err(ContractError::Overflow {});
                },
            }
        }
    }
    proof {
        if !prev_returns_unclaimed(l) {
            lemma_carried_over_denoms(assets_per_nft@, prev_assets(l), remaining as int, nft_count as int);
            let t = topped_up(assets_per_nft@, prev_assets(l), remaining as int, nft_count as int);
            let c = carried_over(assets_per_nft@, prev_assets(l), remaining as int, nft_count as int);
            assert forall|i: int, j: int| 0 <= i < j < assets@.len() implies (#[trigger] assets@[i]).denom@
                != (#[trigger] assets@[j]).denom@ by {
                if j < t.len() {
                    assert(assets@[i].denom@ == assets_per_nft@[i].denom@);
                    assert(assets@[j].denom@ == assets_per_nft@[j].denom@);
                } else if i < t.len() {
                    assert(assets@[i].denom@ == assets_per_nft@[i].denom@);
                    assert(assets@[j] == c[j - t.len()]);
                } else {
                    assert(assets@[i] == c[i - t.len()]);
                    assert(assets@[j] == c[j - t.len()]);
                }
            }
        }
    }
    ledger.config.current_dist_id = ledger.config.current_dist_id + 1;
    ledger.config.current_dist_end_time = Some(distribution_end_time);
    ledger.distribution = Some(
        Distribution {
            assets,
            claimed: 0,
            unclaimed_to_distributor,
            unclaimed_sent_to_distributor: if unclaimed_to_distributor {
                Some(false)
            } else {
                None
            },
            minimum_nfts_to_claim,
        },
    );
    ledger.claims = Vec::new();
    Ok(transfers)
}

/// The most token ids that one claim may name when the caller's holdings
/// are listed page by page.
pub const BULK_CLAIM_LIMIT: usize = 500;

/// The most token ids that one claim may name when each one's owner is
/// looked up.
pub const FEW_CLAIM_LIMIT: usize = 5;

/// The cap on the ids of one claim, by how holdings are checked.
pub open spec fn claim_cap(bulk: bool) -> int {
    if bulk {
        BULK_CLAIM_LIMIT as int
    } else {
        FEW_CLAIM_LIMIT as int
    }
}

/// Why a claim of `count` ids fails before any holdings are looked at, if it
/// does: too many ids, no cycle, a halt, or a closed window.
pub open spec fn claim_precheck_error(l: Ledger, now: u64, count: int, bulk: bool) -> Option<ContractError> {
    if count > claim_cap(bulk) {
        Some(ContractError::TooManyTokensSent {})
    } else if l.distribution is None {
        Some(ContractError::DistributionNotFound {})
    } else if l.config.current_dist_halted {
        Some(ContractError::DistributionHalted {})
    } else if now > (match l.config.current_dist_end_time {
        Some(t) => t,
        None => 0,
    }) {
        Some(ContractError::ClaimingWindowHasClosed {})
    } else {
        None
    }
}

/// The ids of `found` that are not in `claimed`, each once, in the order of
/// their first appearance.
pub open spec fn fresh_ids(found: Seq<String>, claimed: Seq<Seq<char>>) -> Seq<String>
    decreases found.len(),
{
    if found.len() == 0 {
        Seq::empty()
    } else {
        let head = fresh_ids(found.drop_last(), claimed);
        let t = found.last();
        if claimed.contains(t@) || ids(head).contains(t@) {
            head
        } else {
            head.push(t)
        }
    }
}

/// The fresh ids are unclaimed, come from `found`, and are pairwise distinct.
pub proof fn lemma_fresh_ids(found: Seq<String>, claimed: Seq<Seq<char>>)
    ensures
        forall|i: int|
            0 <= i < fresh_ids(found, claimed).len() ==> !claimed.contains(
                (#[trigger] fresh_ids(found, claimed)[i])@,
            ) && ids(found).contains(fresh_ids(found, claimed)[i]@),
        forall|i: int, j: int|
            0 <= i < j < fresh_ids(found, claimed).len() ==> (#[trigger] fresh_ids(found, claimed)[i])@
                != (#[trigger] fresh_ids(found, claimed)[j])@,
    decreases found.len(),
{
    if found.len() > 0 {
        let init = found.drop_last();
        lemma_fresh_ids(init, claimed);
        let head = fresh_ids(init, claimed);
        let all = fresh_ids(found, claimed);
        assert forall|i: int| 0 <= i < head.len() implies ids(found).contains((#[trigger] head[i])@) by {
            let k = choose|k: int| 0 <= k < ids(init).len() && ids(init)[k] == head[i]@;
            assert(ids(found)[k] == ids(init)[k]);
        }
        assert(ids(found)[found.len() - 1] == found.last()@);
        if all.len() > head.len() {
            assert forall|i: int| 0 <= i < head.len() implies (#[trigger] head[i])@ != found.last()@ by {
                if head[i]@ == found.last()@ {
                    assert(ids(head)[i] == found.last()@);
                }
            }
            assert forall|i: int, j: int| 0 <= i < j < all.len() implies (#[trigger] all[i])@
                != (#[trigger] all[j])@ by {
                assert(all[i] == head[i]);
                if j < head.len() {
                    assert(all[j] == head[j]);
                }
            }
            assert forall|i: int| 0 <= i < all.len() implies !claimed.contains((#[trigger] all[i])@)
                && ids(found).contains(all[i]@) by {
                if i < head.len() {
                    assert(all[i] == head[i]);
                }
            }
        }
    }
}

/// Checks a claim of `count` ids before any holdings are looked at.
pub fn claim_precheck(ledger: &Ledger, now: u64, count: usize, bulk: bool) -> (r: Result<(), ContractError>)
    ensures
        match r {
            Ok(()) => claim_precheck_error(*ledger, now, count as int, bulk) is None,
            Err(e) => claim_precheck_error(*ledger, now, count as int, bulk) == Some(e),
        },
{
    if (bulk && count > BULK_CLAIM_LIMIT) || (!bulk && count > FEW_CLAIM_LIMIT) {
        return Err(ContractError::TooManyTokensSent {});
    }
    if ledger.distribution.is_none() {
        return Err(ContractError::DistributionNotFound {});
    }
    if ledger.config.current_dist_halted {
        return Err(ContractError::DistributionHalted {});
    }
    let end = match ledger.config.current_dist_end_time {
        Some(t) => t,
        None => 0,
    };
    if now > end {
        return Err(ContractError::ClaimingWindowHasClosed {});
    }
    Ok(())
}

/// Whether the report comes from listing the caller's holdings.
pub open spec fn is_listing(report: OwnershipReport) -> bool {
    report is Listed
}

/// Why a claim fails, if it does: the prechecks, too few holdings, none of
/// the ids held, none of them unclaimed, a count past the collection's
/// size, and an overflowing payout, in that order.
pub open spec fn claim_error(
    l: Ledger,
    now: u64,
    sender: Seq<char>,
    token_ids: Seq<String>,
    report: OwnershipReport,
    listed: u64,
) -> Option<ContractError> {
    let d = l.distribution.unwrap();
    let found = split_ids(token_ids, report, sender, true);
    let fresh = fresh_ids(found, ids(l.claims@));
    if claim_precheck_error(l, now, token_ids.len() as int, is_listing(report)) is Some {
        claim_precheck_error(l, now, token_ids.len() as int, is_listing(report))
    } else if listed < d.minimum_nfts_to_claim {
        Some(ContractError::NotEnoughNftsToClaim {})
    } else if found.len() == 0 || fresh.len() == 0 {
        Some(ContractError::NothingToClaim {})
    } else if d.claimed + fresh.len() > l.config.nft_count {
        Some(ContractError::InvalidNftCount {})
    } else if !payouts_fit(d.assets@, fresh.len() as int) {
        Some(ContractError::Overflow {})
    } else {
        None
    }
}

/// What a successful claim did: what it pays, which ids it newly recorded,
/// and which requested ids the caller was not found to hold.
#[derive(Debug, Clone, PartialEq, Eq)]
pub struct ClaimOutcome {
    pub transfers: Vec<Transfer>,
    pub newly_claimed: Vec<String>,
    pub not_found: Vec<String>,
}

/// What a claim does: on success the fresh held ids are recorded and
/// counted and the sender is paid for them; on failure the error is the
/// first that applies and nothing changes.
pub open spec fn claim_recorded(
    l: Ledger,
    post: Ledger,
    now: u64,
    sender: String,
    token_ids: Seq<String>,
    report: OwnershipReport,
    listed: u64,
    r: Result<ClaimOutcome, ContractError>,
) -> bool {
    match r {
        Ok(o) => {
            let d = l.distribution.unwrap();
            &&& claim_error(l, now, sender@, token_ids, report, listed) is None
            &&& o.newly_claimed@ == fresh_ids(split_ids(token_ids, report, sender@, true), ids(l.claims@))
            &&& o.not_found@ == split_ids(token_ids, report, sender@, false)
            &&& o.transfers@ == payouts(sender, d.assets@, o.newly_claimed@.len() as int)
            &&& post.config == l.config
            &&& post.claims@ == l.claims@ + o.newly_claimed@
            &&& post.distribution == Some(
                (Distribution { claimed: (d.claimed + o.newly_claimed@.len()) as u64, ..d }),
            )
        },
        Err(e) => {
            &&& claim_error(l, now, sender@, token_ids, report, listed) == Some(e)
            &&& post == l
        },
    }
}

/// Claims the rewards of `token_ids` for `sender`. `report` is what the
/// registry said of the sender's holdings (a listing, or each id's owner)
/// and `listed` how many tokens a listing capped at the cycle's minimum
/// returned. Each held id not yet claimed in this cycle is recorded once,
/// and the sender is paid every per-token asset once per such id; ids
/// already claimed add nothing. On failure the ledger is left as it was.
pub fn claim_rewards(
    ledger: &mut Ledger,
    now: u64,
    sender: &String,
    token_ids: &Vec<String>,
    report: &OwnershipReport,
    listed: u64,
) -> (r: Result<ClaimOutcome, ContractError>)
    requires
        old(ledger).wf(),
    ensures
        final(ledger).wf(),
        claim_recorded(*old(ledger), *final(ledger), now, *sender, token_ids@, *report, listed, r),
{
    let bulk = match report {
        OwnershipReport::Listed(_) => true,
        OwnershipReport::Owners(_) => false,
    };
    match claim_precheck(ledger, now, token_ids.len(), bulk) {
        Ok(()) => {},
        Err(e) => {
            return Err(e);
        },
    }
    let dist = match &ledger.distribution {
        Some(d) => d,
        None => {
            return Err(ContractError::DistributionNotFound {});
        },
    };
    let to_pay = match query_owned_tokens(sender, token_ids, report, dist.minimum_nfts_to_claim, listed) {
        Ok(t) => t,
        Err(e) => {
            return Err(e);
        },
    };
    let ghost found = split_ids(token_ids@, *report, sender@, true);
    let mut fresh: Vec<String> = Vec::new();
    let mut i: usize = 0;
    while i < to_pay.found.len()
        invariant
            i <= to_pay.found.len(),
            to_pay.found@ == found,
            fresh@ == fresh_ids(found.subrange(0, i as int), ids(ledger.claims@)),
        decreases to_pay.found.len() - i,
    {
        let ghost pre = found.subrange(0, i as int);
        let ghost next = found.subrange(0, i + 1);
        assert(next.drop_last() =~= pre);
        assert(next.last() == found[i as int]);
        if !contains_id(&ledger.claims, &to_pay.found[i]) && !contains_id(&fresh, &to_pay.found[i]) {
            fresh.push(to_pay.found[i].clone());
        }
        i = i + 1;
    }
    assert(found.subrange(0, found.len() as int) =~= found);
    if fresh.len() == 0 {
        return Err(ContractError::NothingToClaim {});
    }
    proof {
        lemma_fresh_ids(found, ids(ledger.claims@));
    }
    if fresh.len() as u64 > ledger.config.nft_count - dist.claimed {
        return Err(ContractError::InvalidNftCount {});
    }
    let count = fresh.len() as u64;
    let transfers = match create_send_assets_messages(dist, sender, count) {
        Ok(t) => t,
        Err(e) => {
            return Err(e);
        },
    };
    let new_claimed = dist.claimed + count;
    let ghost old_claims = ledger.claims@;
    let ghost before = *ledger;
    let mut newly: Vec<String> = Vec::new();
    let mut k: usize = 0;
    while k < fresh.len()
        invariant
            k <= fresh.len(),
            newly@ == fresh@.subrange(0, k as int),
            ledger.claims@ == old_claims + newly@,
            ledger.config == before.config,
            ledger.distribution == before.distribution,
        decreases fresh.len() - k,
    {
        ledger.claims.push(fresh[k].clone());
        newly.push(fresh[k].clone());
        assert(newly@ =~= fresh@.subrange(0, k + 1));
        k = k + 1;
    }
    assert(newly@ =~= fresh@);
    match &mut ledger.distribution {
        Some(d) => {
            d.claimed = new_claimed;
        },
        None => {},
    }
    Ok(ClaimOutcome { transfers, newly_claimed: newly, not_found: to_pay.not_found })
}

/// For each coin of `assets`, the balance of its denomination holds
/// `remaining` times its amount.
pub open spec fn balances_cover(balances: Seq<Coin>, assets: Seq<Coin>, remaining: int) -> bool {
    forall|j: int|
        0 <= j < assets.len() ==> amount_of(balances, (#[trigger] assets[j]).denom@) >= remaining
            * assets[j].amount
}

/// Why returning the unclaimed remainder fails, if it does.
pub open spec fn return_error(l: Ledger, now: u64, sender: Seq<char>, balances: Seq<Coin>) -> Option<
    ContractError,
> {
    let d = l.distribution.unwrap();
    if l.config.current_dist_halted {
        Some(ContractError::DistributionHalted {})
    } else if l.config.current_dist_end_time is None {
        Some(ContractError::DistributionNotFound {})
    } else if now <= l.config.current_dist_end_time.unwrap() {
        Some(ContractError::CurrentDistributionHasNotYetEnded {})
    } else if sender != l.config.distributor@ {
        Some(ContractError::Unauthorized {})
    } else if l.distribution is None {
        Some(ContractError::DistributionNotFound {})
    } else if !d.unclaimed_to_distributor {
        Some(ContractError::CurrentUnclaimedGoesToTheSubsequentDistribution {})
    } else if d.unclaimed_sent_to_distributor != Some(false) {
        Some(ContractError::UnclaimedWasAlreadyReturned {})
    } else if d.claimed >= l.config.nft_count {
        Some(ContractError::NothingToReturn {})
    } else if !balances_cover(balances, d.assets@, l.config.nft_count - d.claimed) {
        Some(ContractError::InvalidClaimValue {})
    } else {
        None
    }
}

/// Whether, for each coin of `assets`, the balance of its denomination
/// holds `remaining` times its amount.
fn balances_check(balances: &Vec<Coin>, assets: &Vec<Coin>, remaining: u64) -> (r: bool)
    ensures
        r == balances_cover(balances@, assets@, remaining as int),
{
    let mut j: usize = 0;
    while j < assets.len()
        invariant
            j <= assets.len(),
            forall|i: int|
                0 <= i < j ==> amount_of(balances@, (#[trigger] assets@[i]).denom@) >= remaining
                    * assets@[i].amount,
        decreases assets.len() - j,
    {
        let held = find_amount(balances, &assets[j].denom);
        let ok = match (remaining as u128).checked_mul(assets[j].amount) {
            Some(needed) => held >= needed,
            None => false,
        };
        if !ok {
            return false;
        }
        j = j + 1;
    }
    true
}

/// What returning the remainder does: on success the transfers pay the
/// distributor the unclaimed tokens' share of each asset and the cycle is
/// marked as settled; on failure the error is the first that applies and
/// nothing changes.
pub open spec fn returned(
    l: Ledger,
    post: Ledger,
    now: u64,
    sender: Seq<char>,
    balances: Seq<Coin>,
    r: Result<Vec<Transfer>, ContractError>,
) -> bool {
    match r {
        Ok(transfers) => {
            let d = l.distribution.unwrap();
            &&& return_error(l, now, sender, balances) is None
            &&& transfers@ == payouts(l.config.distributor, d.assets@, l.config.nft_count - d.claimed)
            &&& post.config == l.config
            &&& post.claims == l.claims
            &&& post.distribution == Some((Distribution { unclaimed_sent_to_distributor: Some(true), ..d }))
        },
        Err(e) => {
            &&& return_error(l, now, sender, balances) == Some(e)
            &&& post == l
        },
    }
}

/// Sends the distributor what the unclaimed tokens of an ended cycle were
/// owed, when the cycle returns its remainder and has not yet done so, and
/// marks it as sent. `balances` are the contract's holdings. On failure the
/// ledger is left as it was.
pub fn return_unclaimed(ledger: &mut Ledger, now: u64, sender: &String, balances: &Vec<Coin>) -> (r: Result<
    Vec<Transfer>,
    ContractError,
>)
    requires
        old(ledger).wf(),
    ensures
        final(ledger).wf(),
        returned(*old(ledger), *final(ledger), now, sender@, balances@, r),
{
    if ledger.config.current_dist_halted {
        return Err(ContractError::DistributionHalted {});
    }
    let end = match ledger.config.current_dist_end_time {
        Some(t) => t,
        None => {
            return Err(ContractError::DistributionNotFound {});
        },
    };
    if now <= end {
        return Err(ContractError::CurrentDistributionHasNotYetEnded {});
    }
    if !(*sender == ledger.config.distributor) {
        return Err(ContractError::Unauthorized {});
    }
    let dist = match &ledger.distribution {
        Some(d) => d,
        None => {
            return Err(ContractError::DistributionNotFound {});
        },
    };
    if !dist.unclaimed_to_distributor {
        return Err(ContractError::CurrentUnclaimedGoesToTheSubsequentDistribution {});
    }
    if !matches!(dist.unclaimed_sent_to_distributor, Some(false)) {
        return Err(ContractError::UnclaimedWasAlreadyReturned {});
    }
    if dist.claimed >= ledger.config.nft_count {
        return Err(ContractError::NothingToReturn {});
    }
    let remaining = ledger.config.nft_count - dist.claimed;
    if !balances_check(balances, &dist.assets, remaining) {
        return Err(ContractError::InvalidClaimValue {});
    }
    assert(payouts_fit(dist.assets@, remaining as int)) by {
        assert forall|j: int| 0 <= j < dist.assets@.len() implies remaining * (
        #[trigger] dist.assets@[j]).amount <= u128::MAX by {
            lemma_amount_of_is_entry(balances@, dist.assets@[j].denom@);
            if amount_of(balances@, dist.assets@[j].denom@) != 0 {
                let i = choose|i: int|
                    0 <= i < balances@.len() && amount_of(balances@, dist.assets@[j].denom@)
                        == (#[trigger] balances@[i]).amount;
            }
        }
    }
    let transfers = match create_send_assets_messages(dist, &ledger.config.distributor, remaining) {
        Ok(t) => t,
        Err(e) => {
            return Err(e);
        },
    };
    match &mut ledger.distribution {
        Some(d) => {
            d.unclaimed_sent_to_distributor = Some(true);
        },
        None => {},
    }
    Ok(transfers)
}

/// What the halt switch does: the admin flips it and nothing else; anyone
/// else is refused and nothing changes.
pub open spec fn halt_toggled(l: Ledger, post: Ledger, sender: Seq<char>, r: Result<(), ContractError>) -> bool {
    if sender == l.config.admin@ {
        &&& r is Ok
        &&& post == (Ledger {
            config: (Config { current_dist_halted: !l.config.current_dist_halted, ..l.config }),
            ..l
        })
    } else {
        &&& r == Err::<(), ContractError>(ContractError::Unauthorized {})
        &&& post == l
    }
}

/// Flips the halt switch, for the admin only.
pub fn toggle_halt(ledger: &mut Ledger, sender: &String) -> (r: Result<(), ContractError>)
    requires
        old(ledger).wf(),
    ensures
        final(ledger).wf(),
        halt_toggled(*old(ledger), *final(ledger), sender@, r),
{
    if !(*sender == ledger.config.admin) {
        return Err(ContractError::Unauthorized {});
    }
    ledger.config.current_dist_halted = !ledger.config.current_dist_halted;
    Ok(())
}

} // verus!
