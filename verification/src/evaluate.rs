//! The opportunity evaluator: sizing policy, profitability thresholds,
//! and construction of `ArbitrageOpportunity` records.

use vstd::prelude::*;

use crate::fees::lemma_estimate_bounds;
use crate::fees::FeeSchedule;
use crate::ids::fresh_id;
use crate::ids::now_millis;
use crate::MAX_PRICE_MICRO;
use crate::MAX_SIZE_MICRO;
use crate::MIN_ABSOLUTE_PROFIT;
use crate::MIN_ROI_MICRO_PCT;
use crate::SCALE;

verus! {

/// The USD-notional cap on a single execution, in micro quote units.
pub const MAX_NOTIONAL_USD_MICRO: u64 = 100_000_000_000;

/// The fixed reference price used to turn the notional cap into a
/// unit-size cap. A deliberate approximation: the traded price is not
/// consulted.
pub const REFERENCE_PRICE_MICRO: u64 = 50_000_000_000;

/// The unit-size cap implied by the notional cap, in micro base units.
pub const SIZE_CAP_MICRO: u64 = MAX_NOTIONAL_USD_MICRO / REFERENCE_PRICE_MICRO * SCALE;

/// ROI recorded when the capital deployed rounds to zero and the net
/// profit is still positive: effectively unbounded return.
pub const ROI_UNBOUNDED: i128 = i128::MAX;

/// A detected cross-venue opportunity. Immutable once created. The
/// `id` is a fresh random identifier and `timestamp_millis` the
/// detection time; every other field is a pure function of the inputs
/// the evaluator was given.
#[derive(Clone, Debug)]
pub struct ArbitrageOpportunity {
    pub id: String,
    pub buy_exchange: String,
    pub sell_exchange: String,
    pub pair: String,
    pub buy_price_micro: u64,
    pub sell_price_micro: u64,
    pub max_size_micro: u64,
    pub gross_profit_per_unit_micro: u64,
    pub estimated_fees_micro: u64,
    pub net_profit_micro: i64,
    pub roi_micro_pct: i128,
    pub timestamp_millis: i64,
}

/// An opportunity wrapped with the size to execute; constructed for
/// downstream consumers, never dispatched here.
pub struct ExecutionRequest {
    pub id: String,
    pub opportunity: ArbitrageOpportunity,
    pub execution_size_micro: u64,
    pub created_at_millis: i64,
}

/// The deterministic content of an opportunity: every field except the
/// random identifier and the detection time.
#[verifier::ext_equal]
pub ghost struct OppModel {
    pub buy_exchange: Seq<char>,
    pub sell_exchange: Seq<char>,
    pub pair: Seq<char>,
    pub buy_price: int,
    pub sell_price: int,
    pub size: int,
    pub gross_profit_per_unit: int,
    pub estimated_fees: int,
    pub net_profit: int,
    pub roi_micro_pct: int,
}

/// The deterministic content of an opportunity record.
pub open spec fn opp_model(o: ArbitrageOpportunity) -> OppModel {
    OppModel {
        buy_exchange: o.buy_exchange@,
        sell_exchange: o.sell_exchange@,
        pair: o.pair@,
        buy_price: o.buy_price_micro as int,
        sell_price: o.sell_price_micro as int,
        size: o.max_size_micro as int,
        gross_profit_per_unit: o.gross_profit_per_unit_micro as int,
        estimated_fees: o.estimated_fees_micro as int,
        net_profit: o.net_profit_micro as int,
        roi_micro_pct: o.roi_micro_pct as int,
    }
}

/// The sizing policy: eighty per cent of the smaller quoted size,
/// capped by the fixed notional cap.
pub open spec fn spec_execution_size(ask_size: int, bid_size: int) -> int {
    let raw = if ask_size <= bid_size {
        ask_size
    } else {
        bid_size
    };
    let conservative = raw * 8 / 10;
    if conservative <= SIZE_CAP_MICRO as int {
        conservative
    } else {
        SIZE_CAP_MICRO as int
    }
}

/// Chooses the executable size for one opportunity: the minimum of the
/// two quoted sizes, scaled by the fixed conservatism factor, capped
/// at the configured maximum.
pub fn choose_execution_size(ask_size_micro: u64, bid_size_micro: u64) -> (r: u64)
    ensures
        r as int == spec_execution_size(ask_size_micro as int, bid_size_micro as int),
        r <= ask_size_micro,
        r <= bid_size_micro,
        r <= SIZE_CAP_MICRO,
{
    let raw: u64 = if ask_size_micro <= bid_size_micro {
        ask_size_micro
    } else {
        bid_size_micro
    };
    proof {
        assert(raw * 8 / 10 <= raw) by (nonlinear_arith)
            requires
                raw >= 0,
        ;
    }
    let conservative: u64 = ((raw as u128) * 8 / 10) as u64;
    if conservative <= SIZE_CAP_MICRO {
        conservative
    } else {
        SIZE_CAP_MICRO
    }
}

/// The evaluator's decision and the record's deterministic content,
/// in order: positive spread, positive executable size, then both
/// profitability thresholds; `None` as soon as one fails.
pub open spec fn spec_evaluate(
    s: FeeSchedule,
    buy_exchange: Seq<char>,
    sell_exchange: Seq<char>,
    pair: Seq<char>,
    buy_price: int,
    sell_price: int,
    buy_size: int,
    sell_size: int,
) -> Option<OppModel> {
    if sell_price <= buy_price {
        None
    } else {
        let size = spec_execution_size(buy_size, sell_size);
        if size <= 0 {
            None
        } else {
            let gross_per_unit = sell_price - buy_price;
            let fees = s.spec_estimate(size, buy_exchange, sell_exchange, pair);
            let gross = gross_per_unit * size / (SCALE as int);
            let net = gross - fees;
            if net < MIN_ABSOLUTE_PROFIT as int {
                None
            } else {
                let notional = buy_price * size / (SCALE as int);
                let roi = if notional > 0 {
                    net * 100 * (SCALE as int) / notional
                } else {
                    ROI_UNBOUNDED as int
                };
                if roi < MIN_ROI_MICRO_PCT as int {
                    None
                } else {
                    Some(
                        OppModel {
                            buy_exchange,
                            sell_exchange,
                            pair,
                            buy_price,
                            sell_price,
                            size,
                            gross_profit_per_unit: gross_per_unit,
                            estimated_fees: fees,
                            net_profit: net,
                            roi_micro_pct: roi,
                        },
                    )
                }
            }
        }
    }
}

/// Evaluates one candidate quote pair. `buy_price_micro` is the
/// already-adjusted buy-side price. Returns a record exactly when the
/// spread, sizing and both thresholds pass, with every deterministic
/// field equal to the specified content; the identifier is fresh and
/// 36 characters long.
pub fn evaluate_opportunity(
    fees: &FeeSchedule,
    buy_exchange: &str,
    sell_exchange: &str,
    pair: &str,
    buy_price_micro: u64,
    sell_price_micro: u64,
    buy_size_micro: u64,
    sell_size_micro: u64,
) -> (r: Option<ArbitrageOpportunity>)
    requires
        fees.wf(),
        buy_price_micro <= MAX_PRICE_MICRO,
        sell_price_micro <= MAX_PRICE_MICRO,
        buy_size_micro <= MAX_SIZE_MICRO,
        sell_size_micro <= MAX_SIZE_MICRO,
    ensures
        ({
            let m = spec_evaluate(
                *fees,
                buy_exchange@,
                sell_exchange@,
                pair@,
                buy_price_micro as int,
                sell_price_micro as int,
                buy_size_micro as int,
                sell_size_micro as int,
            );
            match r {
                Some(o) => m == Some(opp_model(o)) && o.id@.len() == 36,
                None => m is None,
            }
        }),
{
    if sell_price_micro <= buy_price_micro {
        return None;
    }
    let size = choose_execution_size(buy_size_micro, sell_size_micro);
    if size == 0 {
        return None;
    }
    let gross_per_unit: u64 = sell_price_micro - buy_price_micro;
    let estimated_fees = fees.estimate_fees_and_gas(size, buy_exchange, sell_exchange, pair);
    proof {
        lemma_estimate_bounds(
            *fees,
            size as int,
            buy_exchange@,
            sell_exchange@,
            pair@,
        );
        assert(gross_per_unit * size <= MAX_PRICE_MICRO * MAX_SIZE_MICRO) by (nonlinear_arith)
            requires
                0 <= gross_per_unit <= MAX_PRICE_MICRO,
                0 <= size <= MAX_SIZE_MICRO,
        ;
        vstd::arithmetic::div_mod::lemma_div_is_ordered(
            gross_per_unit * size,
            (MAX_PRICE_MICRO * MAX_SIZE_MICRO) as int,
            SCALE as int,
        );
        vstd::arithmetic::div_mod::lemma_div_pos_is_pos(gross_per_unit * size, SCALE as int);
        assert(buy_price_micro * size <= MAX_PRICE_MICRO * MAX_SIZE_MICRO) by (nonlinear_arith)
            requires
                0 <= buy_price_micro <= MAX_PRICE_MICRO,
                0 <= size <= MAX_SIZE_MICRO,
        ;
        vstd::arithmetic::div_mod::lemma_div_is_ordered(
            buy_price_micro * size,
            (MAX_PRICE_MICRO * MAX_SIZE_MICRO) as int,
            SCALE as int,
        );
        vstd::arithmetic::div_mod::lemma_div_pos_is_pos(buy_price_micro * size, SCALE as int);
    }
    let gross: u64 = ((gross_per_unit as u128) * (size as u128) / (SCALE as u128)) as u64;
    let net: i64 = (gross as i64) - (estimated_fees as i64);
    if net < MIN_ABSOLUTE_PROFIT {
        return None;
    }
    let notional: u64 = ((buy_price_micro as u128) * (size as u128) / (SCALE as u128)) as u64;
    let roi: i128 = if notional > 0 {
        ((net as u128) * 100 * (SCALE as u128) / (notional as u128)) as i128
    } else {
        ROI_UNBOUNDED
    };
    proof {
        if notional > 0 {
            vstd::arithmetic::div_mod::lemma_div_pos_is_pos(
                net * 100 * (SCALE as int),
                notional as int,
            );
            vstd::arithmetic::div_mod::lemma_div_is_ordered(
                net * 100 * (SCALE as int),
                MAX_PRICE_MICRO * MAX_SIZE_MICRO * 100,
                notional as int,
            );
        }
    }
    if roi < MIN_ROI_MICRO_PCT {
        return None;
    }
    Some(
        ArbitrageOpportunity {
            id: fresh_id(),
            buy_exchange: String::from_str(buy_exchange),
            sell_exchange: String::from_str(sell_exchange),
            pair: String::from_str(pair),
            buy_price_micro,
            sell_price_micro,
            max_size_micro: size,
            gross_profit_per_unit_micro: gross_per_unit,
            estimated_fees_micro: estimated_fees,
            net_profit_micro: net,
            roi_micro_pct: roi,
            timestamp_millis: now_millis(),
        },
    )
}

/// Wraps an accepted opportunity for downstream execution, at the
/// opportunity's own executable size, with a fresh identifier.
pub fn make_execution_request(opportunity: ArbitrageOpportunity) -> (r: ExecutionRequest)
    ensures
        r.opportunity == opportunity,
        r.execution_size_micro == opportunity.max_size_micro,
        r.id@.len() == 36,
{
    let id = fresh_id();
    let created_at_millis = now_millis();
    let execution_size_micro = opportunity.max_size_micro;
    ExecutionRequest { id, opportunity, execution_size_micro, created_at_millis }
}

} // verus!
