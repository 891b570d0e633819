use vstd::prelude::*;

verus! {

/// An amount of one denomination.
#[derive(Debug, Clone, PartialEq, Eq)]
pub struct Coin {
    pub denom: String,
    pub amount: u128,
}

/// Whether some coin of `coins` is of denomination `d`.
pub open spec fn has_denom(coins: Seq<Coin>, d: Seq<char>) -> bool {
    exists|i: int| 0 <= i < coins.len() && (#[trigger] coins[i]).denom@ == d
}

/// The amount of the first coin of denomination `d` in `coins`, or zero.
pub open spec fn amount_of(coins: Seq<Coin>, d: Seq<char>) -> int
    decreases coins.len(),
{
    if coins.len() == 0 {
        0
    } else if has_denom(coins.drop_last(), d) {
        amount_of(coins.drop_last(), d)
    } else if coins.last().denom@ == d {
        coins.last().amount as int
    } else {
        0
    }
}

/// No two coins of `coins` share a denomination.
pub open spec fn unique_denoms(coins: Seq<Coin>) -> bool {
    forall|i: int, j: int|
        0 <= i < j < coins.len() ==> (#[trigger] coins[i]).denom@ != (#[trigger] coins[j]).denom@
}

/// The program's settings, created once and updated by each cycle.
#[derive(Debug, Clone, PartialEq, Eq)]
pub struct Config {
    pub admin: String,
    pub distributor: String,
    pub current_dist_id: u64,
    pub nft_address: String,
    pub nft_count: u64,
    /// End of the current cycle's claiming window, in nanoseconds.
    pub current_dist_end_time: Option<u64>,
    pub current_dist_halted: bool,
}

/// One cycle: what each token is paid, and how far claiming has gone.
#[derive(Debug, Clone, PartialEq, Eq)]
pub struct Distribution {
    pub assets: Vec<Coin>,
    pub claimed: u64,
    pub unclaimed_to_distributor: bool,
    pub unclaimed_sent_to_distributor: Option<bool>,
    pub minimum_nfts_to_claim: u64,
}

/// The three records the program keeps: its settings, the current cycle,
/// and the ids of the tokens claimed in that cycle.
#[derive(Debug, Clone, PartialEq, Eq)]
pub struct Ledger {
    pub config: Config,
    pub distribution: Option<Distribution>,
    pub claims: Vec<String>,
}

/// A payment of `amount` of `denom` to `to_address`.
#[derive(Debug, Clone, PartialEq, Eq)]
pub struct Transfer {
    pub to_address: String,
    pub denom: String,
    pub amount: u128,
}

/// The ids that a list of strings holds.
pub open spec fn ids(v: Seq<String>) -> Seq<Seq<char>> {
    v.map_values(|s: String| s@)
}

impl Distribution {
    /// Claims never outnumber the tokens, denominations are unique, and a
    /// settlement state exists exactly when the cycle returns its remainder.
    pub open spec fn wf(&self, nft_count: u64) -> bool {
        &&& self.claimed <= nft_count
        &&& unique_denoms(self.assets@)
        &&& (self.unclaimed_to_distributor <==> self.unclaimed_sent_to_distributor.is_some())
    }

    /// An empty record, with no assets and nothing claimed.
    pub fn empty() -> (r: Distribution)
        ensures
            r.assets@.len() == 0,
            r.claimed == 0,
            !r.unclaimed_to_distributor,
            r.unclaimed_sent_to_distributor.is_none(),
            r.minimum_nfts_to_claim == 0,
    {
        Distribution {
            assets: Vec::new(),
            claimed: 0,
            unclaimed_to_distributor: false,
            unclaimed_sent_to_distributor: None,
            minimum_nfts_to_claim: 0,
        }
    }
}

impl Config {
    /// A copy of these settings.
    pub fn duplicate(&self) -> (r: Config)
        ensures
            r == *self,
    {
        Config {
            admin: self.admin.clone(),
            distributor: self.distributor.clone(),
            current_dist_id: self.current_dist_id,
            nft_address: self.nft_address.clone(),
            nft_count: self.nft_count,
            current_dist_end_time: self.current_dist_end_time,
            current_dist_halted: self.current_dist_halted,
        }
    }
}

/// A copy of `coins`.
pub fn copy_coins(coins: &Vec<Coin>) -> (r: Vec<Coin>)
    ensures
        r@ == coins@,
{
    let mut out: Vec<Coin> = Vec::new();
    let mut i: usize = 0;
    while i < coins.len()
        invariant
            i <= coins.len(),
            out@ == coins@.subrange(0, i as int),
        decreases coins.len() - i,
    {
        out.push(coins[i].duplicate());
        assert(out@ =~= coins@.subrange(0, i + 1));
        i = i + 1;
    }
    assert(out@ =~= coins@);
    out
}

impl Distribution {
    /// A copy of this record.
    pub fn duplicate(&self) -> (r: Distribution)
        ensures
            r.assets@ == self.assets@,
            r.claimed == self.claimed,
            r.unclaimed_to_distributor == self.unclaimed_to_distributor,
            r.unclaimed_sent_to_distributor == self.unclaimed_sent_to_distributor,
            r.minimum_nfts_to_claim == self.minimum_nfts_to_claim,
    {
        Distribution {
            assets: copy_coins(&self.assets),
            claimed: self.claimed,
            unclaimed_to_distributor: self.unclaimed_to_distributor,
            unclaimed_sent_to_distributor: self.unclaimed_sent_to_distributor,
            minimum_nfts_to_claim: self.minimum_nfts_to_claim,
        }
    }
}

impl Ledger {
    /// The ledger's well-formedness: its cycle, if any, is well formed
    /// against the collection's size.
    pub open spec fn wf(&self) -> bool {
        match self.distribution {
            Some(d) => d.wf(self.config.nft_count),
            None => true,
        }
    }

    /// Whether token `id` has been claimed in the current cycle.
    pub open spec fn spec_is_claimed(&self, id: Seq<char>) -> bool {
        ids(self.claims@).contains(id)
    }

    /// Tests the ledger's well-formedness.
    pub fn is_well_formed(&self) -> (r: bool)
        ensures
            r == self.wf(),
    {
        match &self.distribution {
            Some(d) => {
                d.claimed <= self.config.nft_count && denoms_unique(&d.assets)
                    && d.unclaimed_to_distributor == d.unclaimed_sent_to_distributor.is_some()
            },
            None => true,
        }
    }
}

impl Coin {
    /// A copy of this coin.
    pub fn duplicate(&self) -> (r: Coin)
        ensures
            r == *self,
    {
        Coin { denom: self.denom.clone(), amount: self.amount }
    }
}

/// The amount that `coins` holds of denomination `d`: that of its first coin
/// of `d`, or zero when it has none.
pub fn find_amount(coins: &Vec<Coin>, d: &String) -> (r: u128)
    ensures
        r as int == amount_of(coins@, d@),
        !has_denom(coins@, d@) ==> r == 0,
{
    let mut i: usize = 0;
    let mut found: bool = false;
    let mut r: u128 = 0;
    while i < coins.len()
        invariant
            i <= coins.len(),
            found == has_denom(coins@.subrange(0, i as int), d@),
            r as int == amount_of(coins@.subrange(0, i as int), d@),
        decreases coins.len() - i,
    {
        let ghost pre = coins@.subrange(0, i as int);
        let ghost next = coins@.subrange(0, i + 1);
        assert(next.drop_last() =~= pre);
        if !found && coins[i].denom == *d {
            r = coins[i].amount;
        }
        if coins[i].denom == *d {
            assert(next[i as int].denom@ == d@);
            found = true;
        } else {
            assert(has_denom(next, d@) ==> has_denom(pre, d@)) by {
                if has_denom(next, d@) {
                    let k = choose|k: int| 0 <= k < next.len() && (#[trigger] next[k]).denom@ == d@;
                    assert(pre[k] == next[k]);
                }
            }
        }
        assert(found ==> has_denom(next, d@)) by {
            if found && has_denom(pre, d@) {
                let k = choose|k: int| 0 <= k < pre.len() && (#[trigger] pre[k]).denom@ == d@;
                assert(next[k] == pre[k]);
            }
        }
        i = i + 1;
    }
    assert(coins@.subrange(0, coins.len() as int) =~= coins@);
    r
}

/// Whether some coin of `coins` is of denomination `d`.
pub fn contains_denom(coins: &Vec<Coin>, d: &String) -> (r: bool)
    ensures
        r == has_denom(coins@, d@),
{
    let mut i: usize = 0;
    while i < coins.len()
        invariant
            i <= coins.len(),
            forall|k: int| 0 <= k < i ==> (#[trigger] coins@[k]).denom@ != d@,
        decreases coins.len() - i,
    {
        if coins[i].denom == *d {
            assert(coins@[i as int].denom@ == d@);
            return true;
        }
        i = i + 1;
    }
    false
}

/// Whether no two coins of `coins` share a denomination.
pub fn denoms_unique(coins: &Vec<Coin>) -> (r: bool)
    ensures
        r == unique_denoms(coins@),
{
    let mut j: usize = 0;
    while j < coins.len()
        invariant
            j <= coins.len(),
            forall|a: int, b: int|
                0 <= a < b < j ==> (#[trigger] coins@[a]).denom@ != (#[trigger] coins@[b]).denom@,
        decreases coins.len() - j,
    {
        let mut i: usize = 0;
        while i < j
            invariant
                i <= j < coins.len(),
                forall|a: int| 0 <= a < i ==> (#[trigger] coins@[a]).denom@ != coins@[j as int].denom@,
            decreases j - i,
        {
            if coins[i].denom == coins[j].denom {
                assert(coins@[i as int].denom@ == coins@[j as int].denom@);
                return false;
            }
            i = i + 1;
        }
        j = j + 1;
    }
    true
}

/// Whether `v` holds a string equal to `id`.
pub fn contains_id(v: &Vec<String>, id: &String) -> (r: bool)
    ensures
        r == ids(v@).contains(id@),
{
    let mut i: usize = 0;
    while i < v.len()
        invariant
            i <= v.len(),
            forall|k: int| 0 <= k < i ==> (#[trigger] v@[k])@ != id@,
        decreases v.len() - i,
    {
        if v[i] == *id {
            assert(ids(v@)[i as int] == id@);
            return true;
        }
        i = i + 1;
    }
    assert(!ids(v@).contains(id@)) by {
        if ids(v@).contains(id@) {
            let k = choose|k: int| 0 <= k < ids(v@).len() && ids(v@)[k] == id@;
            assert(v@[k]@ == id@);
        }
    }
    false
}

} // verus!
