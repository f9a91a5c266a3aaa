//! The fee model: a per-venue fee schedule and the total-cost estimate
//! (trading fees, flat gas, per-unit withdrawal fee) for one round trip
//! of a given size.

use vstd::prelude::*;

use crate::symbols::fee_lookup_currency;
use crate::symbols::fee_lookup_currency_of;
use crate::symbols::str_eq;
use crate::FEE_RATE_DEN;
use crate::MAX_FEE_PPM;
use crate::MAX_GAS_MICRO;
use crate::MAX_SIZE_MICRO;
use crate::MAX_WITHDRAWAL_MICRO;
use crate::SCALE;

verus! {

/// Largest value one side's fee contribution can take under a
/// well-formed schedule and an in-range size.
pub const MAX_SIDE_FEE_MICRO: u64 = MAX_SIZE_MICRO * MAX_FEE_PPM / FEE_RATE_DEN + MAX_GAS_MICRO;

/// Largest value the withdrawal contribution can take.
pub const MAX_WITHDRAWAL_COST_MICRO: u64 = MAX_WITHDRAWAL_MICRO * (MAX_SIZE_MICRO / SCALE);

/// Fee terms of one venue: trading-fee rates in parts per million of
/// the traded size, and a flat gas cost (zero for off-chain venues)
/// charged once per side that executes there.
pub struct VenueFee {
    pub venue: String,
    pub taker_fee_ppm: u64,
    pub maker_fee_ppm: u64,
    pub gas_cost_micro: u64,
}

impl VenueFee {
    pub open spec fn wf(self) -> bool {
        &&& self.taker_fee_ppm <= MAX_FEE_PPM
        &&& self.maker_fee_ppm <= MAX_FEE_PPM
        &&& self.gas_cost_micro <= MAX_GAS_MICRO
    }
}

/// The static fee schedule: per-venue terms, a fallback rate for
/// unlisted venues, per-asset withdrawal fees (micro quote units per
/// unit of size), and the taker-versus-maker tier selection.
pub struct FeeSchedule {
    pub venue_fees: Vec<VenueFee>,
    pub default_fee_ppm: u64,
    pub withdrawal_fees: Vec<(String, u64)>,
    pub use_market_orders: bool,
}

/// First entry of `venues` whose name is `v`.
pub open spec fn lookup_venue(venues: Seq<VenueFee>, v: Seq<char>) -> Option<VenueFee>
    decreases venues.len(),
{
    if venues.len() == 0 {
        None
    } else if venues[0].venue@ == v {
        Some(venues[0])
    } else {
        lookup_venue(venues.skip(1), v)
    }
}

/// First withdrawal-fee entry for asset `a`.
pub open spec fn lookup_withdrawal(entries: Seq<(String, u64)>, a: Seq<char>) -> Option<u64>
    decreases entries.len(),
{
    if entries.len() == 0 {
        None
    } else if entries[0].0@ == a {
        Some(entries[0].1)
    } else {
        lookup_withdrawal(entries.skip(1), a)
    }
}

impl FeeSchedule {
    pub open spec fn wf(self) -> bool {
        &&& self.default_fee_ppm <= MAX_FEE_PPM
        &&& forall|i: int|
            0 <= i < self.venue_fees@.len() ==> (#[trigger] self.venue_fees@[i]).wf()
        &&& forall|i: int|
            0 <= i < self.withdrawal_fees@.len() ==> (#[trigger] self.withdrawal_fees@[i]).1
                <= MAX_WITHDRAWAL_MICRO
    }

    /// The trading-fee rate the schedule selects for one venue entry.
    pub open spec fn selected_rate(self, vf: VenueFee) -> int {
        if self.use_market_orders {
            vf.taker_fee_ppm as int
        } else {
            vf.maker_fee_ppm as int
        }
    }

    /// One side's fee contribution: the venue's selected rate applied
    /// to `size` plus its flat gas cost, or the fallback rate applied
    /// to `size` for an unlisted venue.
    pub open spec fn spec_side_fee(self, venue: Seq<char>, size: int) -> int {
        match lookup_venue(self.venue_fees@, venue) {
            Some(vf) => size * self.selected_rate(vf) / (FEE_RATE_DEN as int)
                + vf.gas_cost_micro as int,
            None => size * (self.default_fee_ppm as int) / (FEE_RATE_DEN as int),
        }
    }

    /// The withdrawal contribution: the per-unit fee configured for the
    /// pair's fee-lookup asset, applied to `size`; zero when the asset
    /// is not configured.
    pub open spec fn spec_withdrawal_cost(self, pair: Seq<char>, size: int) -> int {
        match lookup_withdrawal(self.withdrawal_fees@, fee_lookup_currency(pair)) {
            Some(w) => (w as int) * size / (SCALE as int),
            None => 0,
        }
    }

    /// The total estimated cost of executing `size` on the buy venue
    /// and the sell venue for `pair`.
    pub open spec fn spec_estimate(
        self,
        size: int,
        buy_venue: Seq<char>,
        sell_venue: Seq<char>,
        pair: Seq<char>,
    ) -> int {
        self.spec_side_fee(buy_venue, size) + self.spec_side_fee(sell_venue, size)
            + self.spec_withdrawal_cost(pair, size)
    }
}

proof fn lemma_lookup_venue_wf(venues: Seq<VenueFee>, v: Seq<char>)
    requires
        forall|i: int| 0 <= i < venues.len() ==> (#[trigger] venues[i]).wf(),
    ensures
        lookup_venue(venues, v) matches Some(vf) ==> vf.wf(),
    decreases venues.len(),
{
    if venues.len() != 0 && venues[0].venue@ != v {
        assert(forall|i: int|
            0 <= i < venues.skip(1).len() ==> (#[trigger] venues.skip(1)[i]).wf());
        lemma_lookup_venue_wf(venues.skip(1), v);
    }
}

proof fn lemma_lookup_withdrawal_bound(entries: Seq<(String, u64)>, a: Seq<char>, bound: u64)
    requires
        forall|i: int| 0 <= i < entries.len() ==> (#[trigger] entries[i]).1 <= bound,
    ensures
        lookup_withdrawal(entries, a) matches Some(w) ==> w <= bound,
    decreases entries.len(),
{
    if entries.len() != 0 && entries[0].0@ != a {
        assert(forall|i: int|
            0 <= i < entries.skip(1).len() ==> (#[trigger] entries.skip(1)[i]).1 <= bound);
        lemma_lookup_withdrawal_bound(entries.skip(1), a, bound);
    }
}

/// The side fee is non-negative and bounded under a well-formed
/// schedule and an in-range size.
proof fn lemma_side_fee_bounds(s: FeeSchedule, venue: Seq<char>, size: int)
    requires
        s.wf(),
        0 <= size <= MAX_SIZE_MICRO,
    ensures
        0 <= s.spec_side_fee(venue, size) <= MAX_SIDE_FEE_MICRO,
{
    lemma_lookup_venue_wf(s.venue_fees@, venue);
    match lookup_venue(s.venue_fees@, venue) {
        Some(vf) => {
            let rate = s.selected_rate(vf);
            assert(0 <= size * rate <= MAX_SIZE_MICRO * MAX_FEE_PPM) by (nonlinear_arith)
                requires
                    0 <= size <= MAX_SIZE_MICRO,
                    0 <= rate <= MAX_FEE_PPM,
            ;
            vstd::arithmetic::div_mod::lemma_div_is_ordered(
                size * rate,
                (MAX_SIZE_MICRO * MAX_FEE_PPM) as int,
                FEE_RATE_DEN as int,
            );
            vstd::arithmetic::div_mod::lemma_div_pos_is_pos(size * rate, FEE_RATE_DEN as int);
        },
        None => {
            let rate = s.default_fee_ppm as int;
            assert(0 <= size * rate <= MAX_SIZE_MICRO * MAX_FEE_PPM) by (nonlinear_arith)
                requires
                    0 <= size <= MAX_SIZE_MICRO,
                    0 <= rate <= MAX_FEE_PPM,
            ;
            vstd::arithmetic::div_mod::lemma_div_is_ordered(
                size * rate,
                (MAX_SIZE_MICRO * MAX_FEE_PPM) as int,
                FEE_RATE_DEN as int,
            );
            vstd::arithmetic::div_mod::lemma_div_pos_is_pos(size * rate, FEE_RATE_DEN as int);
        },
    }
}

/// The withdrawal contribution is non-negative and bounded under a
/// well-formed schedule and an in-range size.
proof fn lemma_withdrawal_cost_bounds(s: FeeSchedule, pair: Seq<char>, size: int)
    requires
        s.wf(),
        0 <= size <= MAX_SIZE_MICRO,
    ensures
        0 <= s.spec_withdrawal_cost(pair, size) <= MAX_WITHDRAWAL_COST_MICRO,
{
    lemma_lookup_withdrawal_bound(s.withdrawal_fees@, fee_lookup_currency(pair),
        MAX_WITHDRAWAL_MICRO);
    match lookup_withdrawal(s.withdrawal_fees@, fee_lookup_currency(pair)) {
        Some(w) => {
            assert(0 <= (w as int) * size <= MAX_WITHDRAWAL_MICRO * MAX_SIZE_MICRO)
                by (nonlinear_arith)
                requires
                    0 <= size <= MAX_SIZE_MICRO,
                    0 <= w <= MAX_WITHDRAWAL_MICRO,
            ;
            vstd::arithmetic::div_mod::lemma_div_is_ordered(
                (w as int) * size,
                (MAX_WITHDRAWAL_MICRO * MAX_SIZE_MICRO) as int,
                SCALE as int,
            );
            vstd::arithmetic::div_mod::lemma_div_pos_is_pos((w as int) * size, SCALE as int);
        },
        None => {},
    }
}

/// The full estimate is non-negative and bounded under a well-formed
/// schedule and an in-range size.
pub proof fn lemma_estimate_bounds(
    s: FeeSchedule,
    size: int,
    buy_venue: Seq<char>,
    sell_venue: Seq<char>,
    pair: Seq<char>,
)
    requires
        s.wf(),
        0 <= size <= MAX_SIZE_MICRO,
    ensures
        0 <= s.spec_estimate(size, buy_venue, sell_venue, pair) <= 2 * MAX_SIDE_FEE_MICRO
            + MAX_WITHDRAWAL_COST_MICRO,
{
    lemma_side_fee_bounds(s, buy_venue, size);
    lemma_side_fee_bounds(s, sell_venue, size);
    lemma_withdrawal_cost_bounds(s, pair, size);
}

/// First venue entry named `venue`, by scan order.
fn find_venue_fee<'a>(venues: &'a Vec<VenueFee>, venue: &str) -> (r: Option<&'a VenueFee>)
    ensures
        match r {
            Some(vf) => lookup_venue(venues@, venue@) == Some(*vf),
            None => lookup_venue(venues@, venue@) is None,
        },
{
    let n = venues.len();
    let mut i: usize = 0;
    proof {
        assert(venues@.skip(0) =~= venues@);
    }
    while i < n
        invariant
            n == venues@.len(),
            i <= n,
            lookup_venue(venues@, venue@) == lookup_venue(venues@.skip(i as int), venue@),
        decreases n - i,
    {
        let vf = &venues[i];
        if str_eq(vf.venue.as_str(), venue) {
            proof {
                assert(venues@.skip(i as int)[0] == venues@[i as int]);
            }
            return Some(vf);
        }
        proof {
            assert(venues@.skip(i as int)[0] == venues@[i as int]);
            assert(venues@.skip(i as int).skip(1) =~= venues@.skip(i + 1));
        }
        i = i + 1;
    }
    proof {
        assert(venues@.skip(n as int) =~= Seq::<VenueFee>::empty());
    }
    None
}

/// First withdrawal-fee entry for `asset`, by scan order.
fn find_withdrawal_fee(entries: &Vec<(String, u64)>, asset: &str) -> (r: Option<u64>)
    ensures
        r == lookup_withdrawal(entries@, asset@),
{
    let n = entries.len();
    let mut i: usize = 0;
    proof {
        assert(entries@.skip(0) =~= entries@);
    }
    while i < n
        invariant
            n == entries@.len(),
            i <= n,
            lookup_withdrawal(entries@, asset@) == lookup_withdrawal(
                entries@.skip(i as int),
                asset@,
            ),
        decreases n - i,
    {
        let entry = &entries[i];
        if str_eq(entry.0.as_str(), asset) {
            proof {
                assert(entries@.skip(i as int)[0] == entries@[i as int]);
            }
            return Some(entry.1);
        }
        proof {
            assert(entries@.skip(i as int)[0] == entries@[i as int]);
            assert(entries@.skip(i as int).skip(1) =~= entries@.skip(i + 1));
        }
        i = i + 1;
    }
    proof {
        assert(entries@.skip(n as int) =~= Seq::<(String, u64)>::empty());
    }
    None
}

impl FeeSchedule {
    /// One side's fee contribution for `size` executed at `venue`.
    fn side_fee(&self, venue: &str, size: u64) -> (r: u64)
        requires
            self.wf(),
            size <= MAX_SIZE_MICRO,
        ensures
            r as int == self.spec_side_fee(venue@, size as int),
            r <= MAX_SIDE_FEE_MICRO,
    {
        proof {
            lemma_side_fee_bounds(*self, venue@, size as int);
        }
        match find_venue_fee(&self.venue_fees, venue) {
            Some(vf) => {
                let rate: u64 = if self.use_market_orders {
                    vf.taker_fee_ppm
                } else {
                    vf.maker_fee_ppm
                };
                let traded: u64 = ((size as u128) * (rate as u128) / (FEE_RATE_DEN as u128))
                    as u64;
                traded + vf.gas_cost_micro
            },
            None => ((size as u128) * (self.default_fee_ppm as u128) / (FEE_RATE_DEN as u128))
                as u64,
        }
    }

    /// Estimates the total cost of a round trip of `size`: the two
    /// sides' trading fees and gas, plus the per-unit withdrawal fee
    /// for the pair's base asset where one is configured.
    pub fn estimate_fees_and_gas(
        &self,
        size: u64,
        buy_exchange: &str,
        sell_exchange: &str,
        pair: &str,
    ) -> (r: u64)
        requires
            self.wf(),
            size <= MAX_SIZE_MICRO,
        ensures
            r as int == self.spec_estimate(size as int, buy_exchange@, sell_exchange@, pair@),
            r <= 2 * MAX_SIDE_FEE_MICRO + MAX_WITHDRAWAL_COST_MICRO,
    {
        proof {
            lemma_withdrawal_cost_bounds(*self, pair@, size as int);
        }
        let buy_side = self.side_fee(buy_exchange, size);
        let sell_side = self.side_fee(sell_exchange, size);
        let asset = fee_lookup_currency_of(pair);
        let withdrawal: u64 = match find_withdrawal_fee(&self.withdrawal_fees, asset.as_str()) {
            Some(w) => ((w as u128) * (size as u128) / (SCALE as u128)) as u64,
            None => 0,
        };
        buy_side + sell_side + withdrawal
    }
}

impl Default for FeeSchedule {
    /// The built-in schedule: the known centralized venue at a 0.1%
    /// rate, the known on-chain venue at 0.3% plus flat gas, a 0.15%
    /// fallback, and per-unit withdrawal fees for the configured
    /// assets; market (taker) execution selected.
    fn default() -> (r: FeeSchedule)
        ensures
            r.wf(),
            r.venue_fees@.len() == 2,
            r.venue_fees@[0].venue@ == "binance"@,
            r.venue_fees@[0].taker_fee_ppm == 1000,
            r.venue_fees@[0].maker_fee_ppm == 1000,
            r.venue_fees@[0].gas_cost_micro == 0,
            r.venue_fees@[1].venue@ == "uniswap-v3-exact"@,
            r.venue_fees@[1].taker_fee_ppm == 3000,
            r.venue_fees@[1].maker_fee_ppm == 3000,
            r.venue_fees@[1].gas_cost_micro == 50_000_000,
            r.default_fee_ppm == 1500,
            r.withdrawal_fees@.len() == 4,
            r.withdrawal_fees@[0].0@ == "BTC"@,
            r.withdrawal_fees@[0].1 == 500,
            r.withdrawal_fees@[1].0@ == "WBTC"@,
            r.withdrawal_fees@[1].1 == 500,
            r.withdrawal_fees@[2].0@ == "ETH"@,
            r.withdrawal_fees@[2].1 == 5000,
            r.withdrawal_fees@[3].0@ == "USDT"@,
            r.withdrawal_fees@[3].1 == 10_000_000,
            r.use_market_orders,
    {
        let mut venue_fees: Vec<VenueFee> = Vec::new();
        venue_fees.push(
            VenueFee {
                venue: String::from_str("binance"),
                taker_fee_ppm: 1000,
                maker_fee_ppm: 1000,
                gas_cost_micro: 0,
            },
        );
        venue_fees.push(
            VenueFee {
                venue: String::from_str("uniswap-v3-exact"),
                taker_fee_ppm: 3000,
                maker_fee_ppm: 3000,
                gas_cost_micro: 50_000_000,
            },
        );
        let mut withdrawal_fees: Vec<(String, u64)> = Vec::new();
        withdrawal_fees.push((String::from_str("BTC"), 500));
        withdrawal_fees.push((String::from_str("WBTC"), 500));
        withdrawal_fees.push((String::from_str("ETH"), 5000));
        withdrawal_fees.push((String::from_str("USDT"), 10_000_000));
        FeeSchedule {
            venue_fees,
            default_fee_ppm: 1500,
            withdrawal_fees,
            use_market_orders: true,
        }
    }
}

} // verus!
