use vstd::prelude::*;

use crate::error::ContractError;
use crate::executes::{
    carried_over, carry_share, claim_recorded, lemma_fresh_ids, opened, prev_assets,
    prev_returns_unclaimed, return_error, returned, topped_up, unclaimed_tokens, ClaimOutcome,
};
use crate::helpers::{split_ids, validation, OwnershipReport};
use crate::state::{amount_of, has_denom, ids, unique_denoms, Coin, Ledger, Transfer};

verus! {

/// In a list of unique denominations, the amount of a coin's denomination
/// is that coin's amount.
pub proof fn lemma_amount_of_unique(s: Seq<Coin>, k: int)
    requires
        unique_denoms(s),
        0 <= k < s.len(),
    ensures
        amount_of(s, s[k].denom@) == s[k].amount,
    decreases s.len(),
{
    let init = s.drop_last();
    if k == s.len() - 1 {
        assert(!has_denom(init, s[k].denom@)) by {
            if has_denom(init, s[k].denom@) {
                let i = choose|i: int| 0 <= i < init.len() && (#[trigger] init[i]).denom@ == s[k].denom@;
                assert(s[i] == init[i]);
            }
        }
    } else {
        assert(init[k] == s[k]);
        assert(has_denom(init, s[k].denom@));
        assert(unique_denoms(init)) by {
            assert forall|a: int, b: int| 0 <= a < b < init.len() implies (#[trigger] init[a]).denom@
                != (#[trigger] init[b]).denom@ by {
                assert(init[a] == s[a] && init[b] == s[b]);
            }
        }
        lemma_amount_of_unique(init, k);
    }
}

/// A denomination that no coin has has amount zero.
pub proof fn lemma_amount_of_absent(s: Seq<Coin>, d: Seq<char>)
    requires
        !has_denom(s, d),
    ensures
        amount_of(s, d) == 0,
    decreases s.len(),
{
    if s.len() > 0 {
        let init = s.drop_last();
        assert(!has_denom(init, d)) by {
            if has_denom(init, d) {
                let i = choose|i: int| 0 <= i < init.len() && (#[trigger] init[i]).denom@ == d;
                assert(s[i] == init[i]);
            }
        }
        assert(s[s.len() - 1] == s.last());
        lemma_amount_of_absent(init, d);
    }
}

/// Each previous coin whose denomination is not proposed is carried over
/// with its carry share.
pub proof fn lemma_carried_over_member(proposed: Seq<Coin>, prev: Seq<Coin>, remaining: int, n: int, j: int)
    requires
        0 <= j < prev.len(),
        !has_denom(proposed, prev[j].denom@),
    ensures
        exists|i: int|
            0 <= i < carried_over(proposed, prev, remaining, n).len() && (#[trigger] carried_over(
                proposed,
                prev,
                remaining,
                n,
            )[i]).denom@ == prev[j].denom@ && carried_over(proposed, prev, remaining, n)[i].amount == carry_share(
                remaining,
                prev[j].amount as int,
                n,
            ) as u128,
    decreases prev.len(),
{
    let c = carried_over(proposed, prev, remaining, n);
    let init = prev.drop_last();
    let head = carried_over(proposed, init, remaining, n);
    if j == prev.len() - 1 {
        assert(prev.last() == prev[j]);
        assert(c[head.len() as int] == Coin {
            denom: prev[j].denom,
            amount: carry_share(remaining, prev[j].amount as int, n) as u128,
        });
    } else {
        assert(init[j] == prev[j]);
        lemma_carried_over_member(proposed, init, remaining, n, j);
        let i = choose|i: int|
            0 <= i < head.len() && (#[trigger] head[i]).denom@ == prev[j].denom@ && head[i].amount
                == carry_share(remaining, prev[j].amount as int, n) as u128;
        assert(c[i] == head[i]);
    }
}

/// No token is claimed twice in a cycle: a successful claim records only
/// ids that were not yet claimed, each once, so the claimed ids stay
/// distinct; the count grows, and the sender is paid, by exactly the number
/// of ids recorded, so an id already claimed adds to neither.
pub proof fn law_no_double_claim(
    l: Ledger,
    post: Ledger,
    now: u64,
    sender: String,
    token_ids: Seq<String>,
    report: OwnershipReport,
    listed: u64,
    o: ClaimOutcome,
)
    requires
        l.wf(),
        claim_recorded(l, post, now, sender, token_ids, report, listed, Ok(o)),
    ensures
        forall|i: int| 0 <= i < o.newly_claimed@.len() ==> !l.spec_is_claimed((#[trigger] o.newly_claimed@[i])@),
        forall|i: int, j: int|
            0 <= i < j < o.newly_claimed@.len() ==> (#[trigger] o.newly_claimed@[i])@
                != (#[trigger] o.newly_claimed@[j])@,
        forall|t: Seq<char>| #[trigger] l.spec_is_claimed(t) ==> !ids(o.newly_claimed@).contains(t),
        post.distribution.unwrap().claimed == l.distribution.unwrap().claimed + o.newly_claimed@.len(),
        o.transfers@.len() == l.distribution.unwrap().assets@.len(),
        forall|j: int|
            0 <= j < o.transfers@.len() ==> (#[trigger] o.transfers@[j]).amount == o.newly_claimed@.len()
                * l.distribution.unwrap().assets@[j].amount,
        (forall|a: int, b: int|
            0 <= a < b < l.claims@.len() ==> (#[trigger] l.claims@[a])@ != (#[trigger] l.claims@[b])@)
            ==> (forall|a: int, b: int|
            0 <= a < b < post.claims@.len() ==> (#[trigger] post.claims@[a])@ != (#[trigger] post.claims@[b])@),
{
    let found = split_ids(token_ids, report, sender@, true);
    lemma_fresh_ids(found, ids(l.claims@));
    let fresh = o.newly_claimed@;
    assert forall|t: Seq<char>| #[trigger] l.spec_is_claimed(t) implies !ids(fresh).contains(t) by {
        if ids(fresh).contains(t) {
            let i = choose|i: int| 0 <= i < ids(fresh).len() && ids(fresh)[i] == t;
            assert(fresh[i]@ == t);
        }
    }
    if forall|a: int, b: int|
        0 <= a < b < l.claims@.len() ==> (#[trigger] l.claims@[a])@ != (#[trigger] l.claims@[b])@ {
        assert forall|a: int, b: int| 0 <= a < b < post.claims@.len() implies (#[trigger] post.claims@[a])@
            != (#[trigger] post.claims@[b])@ by {
            let n = l.claims@.len() as int;
            if b < n {
                assert(post.claims@[a] == l.claims@[a] && post.claims@[b] == l.claims@[b]);
            } else if a < n {
                assert(post.claims@[a] == l.claims@[a]);
                assert(post.claims@[b] == fresh[b - n]);
                assert(ids(l.claims@)[a] == l.claims@[a]@);
                assert(!l.spec_is_claimed(fresh[b - n]@));
            } else {
                assert(post.claims@[a] == fresh[a - n] && post.claims@[b] == fresh[b - n]);
            }
        }
    }
}

/// Opening a cycle always leaves no token claimed, whatever the previous
/// cycle's claims were.
pub proof fn law_opening_clears_claims(
    l: Ledger,
    post: Ledger,
    now: u64,
    sender: Seq<char>,
    funds: Seq<Coin>,
    balances: Seq<Coin>,
    proposed: Seq<Coin>,
    end_time: u64,
    unclaimed_to_distributor: bool,
    minimum_nfts_to_claim: u64,
    transfers: Vec<Transfer>,
)
    requires
        opened(
            l,
            post,
            now,
            sender,
            funds,
            balances,
            proposed,
            end_time,
            unclaimed_to_distributor,
            minimum_nfts_to_claim,
            Ok(transfers),
        ),
    ensures
        post.claims@.len() == 0,
        post.distribution.unwrap().claimed == 0,
        forall|t: Seq<char>| !(#[trigger] post.spec_is_claimed(t)),
{
}

/// Within a cycle what claims pay never exceeds its funding: a claim that
/// takes the count from `c` to `c'` pays each denomination `c' - c` times
/// its per-token amount, and `c'` stays within the collection's size.
pub proof fn law_claims_within_funding(
    l: Ledger,
    post: Ledger,
    now: u64,
    sender: String,
    token_ids: Seq<String>,
    report: OwnershipReport,
    listed: u64,
    o: ClaimOutcome,
    j: int,
)
    requires
        l.wf(),
        post.wf(),
        claim_recorded(l, post, now, sender, token_ids, report, listed, Ok(o)),
        0 <= j < l.distribution.unwrap().assets@.len(),
    ensures
        ({
            let a = l.distribution.unwrap().assets@[j].amount as int;
            &&& o.transfers@[j].amount + a * l.distribution.unwrap().claimed == a * post.distribution.unwrap().claimed
            &&& a * post.distribution.unwrap().claimed <= a * l.config.nft_count
        }),
{
    let a = l.distribution.unwrap().assets@[j].amount as int;
    let c0 = l.distribution.unwrap().claimed as int;
    let c1 = post.distribution.unwrap().claimed as int;
    let k = o.newly_claimed@.len() as int;
    assert(c1 == c0 + k);
    assert(o.transfers@[j].amount == k * a);
    assert(k * a + a * c0 == a * c1) by (nonlinear_arith)
        requires
            c1 == c0 + k,
    ;
    assert(a * c1 <= a * l.config.nft_count) by (nonlinear_arith)
        requires
            a >= 0,
            c1 <= l.config.nft_count,
    ;
}

/// Returning a cycle's remainder completes its funding exactly: for each
/// denomination, the return plus what the claims paid equals the per-token
/// amount times the collection's size.
pub proof fn law_return_completes_funding(
    l: Ledger,
    post: Ledger,
    now: u64,
    sender: Seq<char>,
    balances: Seq<Coin>,
    transfers: Vec<Transfer>,
    j: int,
)
    requires
        l.wf(),
        returned(l, post, now, sender, balances, Ok(transfers)),
        0 <= j < l.distribution.unwrap().assets@.len(),
    ensures
        ({
            let a = l.distribution.unwrap().assets@[j].amount as int;
            transfers@[j].amount + a * l.distribution.unwrap().claimed == a * l.config.nft_count
        }),
{
    let d = l.distribution.unwrap();
    let a = d.assets@[j].amount as int;
    let rem = l.config.nft_count - d.claimed;
    assert(transfers@[j].amount == (rem * a) as u128);
    assert(rem * a >= 0) by (nonlinear_arith)
        requires
            rem >= 0,
            a >= 0,
    ;
    assert(rem * a + a * d.claimed == a * l.config.nft_count) by (nonlinear_arith)
        requires
            rem == l.config.nft_count - d.claimed,
    ;
    assert(rem * a <= u128::MAX) by {
        assert(amount_of(balances, d.assets@[j].denom@) >= rem * a);
        crate::executes::lemma_amount_of_bounded(balances, d.assets@[j].denom@);
    }
}

/// When a cycle rolls over, each previous denomination's amount in the new
/// cycle is its proposed amount (zero if not proposed) plus the floor of
/// the unclaimed value over the collection's size; the remainder of that
/// division is carried nowhere.
pub proof fn law_rollover(
    l: Ledger,
    post: Ledger,
    now: u64,
    sender: Seq<char>,
    funds: Seq<Coin>,
    balances: Seq<Coin>,
    proposed: Seq<Coin>,
    end_time: u64,
    unclaimed_to_distributor: bool,
    minimum_nfts_to_claim: u64,
    transfers: Vec<Transfer>,
    j: int,
)
    requires
        l.wf(),
        post.wf(),
        opened(
            l,
            post,
            now,
            sender,
            funds,
            balances,
            proposed,
            end_time,
            unclaimed_to_distributor,
            minimum_nfts_to_claim,
            Ok(transfers),
        ),
        !prev_returns_unclaimed(l),
        0 <= j < prev_assets(l).len(),
    ensures
        ({
            let c = prev_assets(l)[j];
            let n = l.config.nft_count as int;
            let value = unclaimed_tokens(l) * c.amount;
            &&& n > 0
            &&& transfers@.len() == 0
            &&& amount_of(post.distribution.unwrap().assets@, c.denom@) == amount_of(proposed, c.denom@) + value / n
            &&& (value / n) * n + value % n == value
        }),
{
    let prev = prev_assets(l);
    let c = prev[j];
    let n = l.config.nft_count as int;
    let rem = unclaimed_tokens(l);
    let value = rem * c.amount;
    let t = topped_up(proposed, prev, rem, n);
    let co = carried_over(proposed, prev, rem, n);
    let all = post.distribution.unwrap().assets@;
    assert(all == t + co);
    assert(validation(l.config.distributor@, sender, funds, proposed, n) is Ok);
    assert(unique_denoms(proposed));
    assert(unique_denoms(prev));
    assert(n > 0);
    assert(0 <= rem <= n);
    assert(value / n <= c.amount) by (nonlinear_arith)
        requires
            value == rem * c.amount,
            0 <= rem <= n,
            n > 0,
            c.amount >= 0,
    ;
    assert(value >= 0) by (nonlinear_arith)
        requires
            value == rem * c.amount,
            rem >= 0,
            c.amount >= 0,
    ;
    assert((value / n) * n + value % n == value) by (nonlinear_arith)
        requires
            n > 0,
    ;
    assert(carry_share(rem, c.amount as int, n) == value / n);
    lemma_amount_of_unique(prev, j);
    if has_denom(proposed, c.denom@) {
        let k = choose|k: int| 0 <= k < proposed.len() && (#[trigger] proposed[k]).denom@ == c.denom@;
        lemma_amount_of_unique(proposed, k);
        assert(amount_of(prev, proposed[k].denom@) == c.amount);
        assert(proposed[k].amount + carry_share(rem, amount_of(prev, proposed[k].denom@), n) <= u128::MAX);
        assert(all[k] == t[k]);
        assert(t[k].amount == proposed[k].amount + value / n);
        lemma_amount_of_unique(all, k);
    } else {
        lemma_amount_of_absent(proposed, c.denom@);
        lemma_carried_over_member(proposed, prev, rem, n, j);
        let i = choose|i: int|
            0 <= i < co.len() && (#[trigger] co[i]).denom@ == c.denom@ && co[i].amount == carry_share(
                rem,
                c.amount as int,
                n,
            ) as u128;
        assert(all[t.len() + i] == co[i]);
        lemma_amount_of_unique(all, t.len() + i);
    }
}

/// Returning the remainder twice in one cycle fails the second time: once
/// sent, a later return by the distributor is refused as already done.
pub proof fn law_second_return_refused(
    l: Ledger,
    mid: Ledger,
    post: Ledger,
    now: u64,
    later: u64,
    sender: Seq<char>,
    balances: Seq<Coin>,
    later_balances: Seq<Coin>,
    first: Vec<Transfer>,
    second: Result<Vec<Transfer>, ContractError>,
)
    requires
        returned(l, mid, now, sender, balances, Ok(first)),
        returned(mid, post, later, sender, later_balances, second),
        now <= later,
    ensures
        second == Err::<Vec<Transfer>, ContractError>(ContractError::UnclaimedWasAlreadyReturned {}),
        post == mid,
{
    assert(return_error(mid, later, sender, later_balances) == Some(
        ContractError::UnclaimedWasAlreadyReturned {},
    ));
}

} // verus!
