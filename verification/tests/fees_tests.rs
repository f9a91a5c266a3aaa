use arbitrage_analyzer::fees::FeeSchedule;
use arbitrage_analyzer::fees::VenueFee;

fn flat_schedule(venues: &[(&str, u64, u64)]) -> FeeSchedule {
    let mut venue_fees = Vec::new();
    for (name, ppm, gas) in venues {
        venue_fees.push(VenueFee {
            venue: (*name).to_string(),
            taker_fee_ppm: *ppm,
            maker_fee_ppm: *ppm,
            gas_cost_micro: *gas,
        });
    }
    FeeSchedule {
        venue_fees,
        default_fee_ppm: 1500,
        withdrawal_fees: Vec::new(),
        use_market_orders: true,
    }
}

#[test]
fn default_schedule_centralized_both_sides() {
    let fees = FeeSchedule::default();
    // 0.1% of one unit on each side, plus the BTC per-unit withdrawal fee.
    let r = fees.estimate_fees_and_gas(1_000_000, "binance", "binance", "BTC/USDT");
    assert_eq!(r, 1000 + 1000 + 500);
}

#[test]
fn default_schedule_on_chain_side_adds_gas() {
    let fees = FeeSchedule::default();
    let r = fees.estimate_fees_and_gas(1_000_000, "binance", "uniswap-v3-exact", "BTC/USDT");
    assert_eq!(r, 1000 + 3000 + 50_000_000 + 500);
}

#[test]
fn gas_charged_once_per_side() {
    let fees = FeeSchedule::default();
    let r = fees.estimate_fees_and_gas(
        1_000_000,
        "uniswap-v3-exact",
        "uniswap-v3-exact",
        "ETH/USDT",
    );
    // Both legs on the on-chain venue: gas is doubled; ETH withdrawal per unit.
    assert_eq!(r, 3000 + 50_000_000 + 3000 + 50_000_000 + 5000);
}

#[test]
fn unlisted_venue_pays_default_rate() {
    let fees = FeeSchedule::default();
    let r = fees.estimate_fees_and_gas(1_000_000, "kraken", "gemini", "SOL/USDT");
    // 0.15% each side, no withdrawal fee configured for SOL.
    assert_eq!(r, 1500 + 1500);
}

#[test]
fn withdrawal_fee_scales_with_size() {
    let fees = FeeSchedule::default();
    let small = fees.estimate_fees_and_gas(1_000_000, "kraken", "gemini", "ETH/USDT");
    let large = fees.estimate_fees_and_gas(2_000_000, "kraken", "gemini", "ETH/USDT");
    assert_eq!(small, 1500 + 1500 + 5000);
    assert_eq!(large, 3000 + 3000 + 10_000);
}

#[test]
fn wrapped_asset_uses_underlying_withdrawal_fee() {
    let fees = FeeSchedule::default();
    let wrapped = fees.estimate_fees_and_gas(1_000_000, "kraken", "gemini", "WBTC/USDT");
    let underlying = fees.estimate_fees_and_gas(1_000_000, "kraken", "gemini", "BTC/USDT");
    assert_eq!(wrapped, underlying);
}

#[test]
fn maker_tier_selected_when_not_market_orders() {
    let mut fees = flat_schedule(&[("a", 1000, 0), ("b", 1000, 0)]);
    fees.venue_fees[0].maker_fee_ppm = 200;
    fees.venue_fees[1].maker_fee_ppm = 200;
    fees.use_market_orders = false;
    let r = fees.estimate_fees_and_gas(1_000_000, "a", "b", "BTC/USDT");
    assert_eq!(r, 200 + 200);
}

#[test]
fn estimate_monotonic_in_size() {
    let fees = FeeSchedule::default();
    let mut previous = 0;
    for size in [0u64, 1, 1000, 1_000_000, 5_000_000, 1_000_000_000] {
        let r = fees.estimate_fees_and_gas(size, "binance", "uniswap-v3-exact", "BTC/USDT");
        assert!(r >= previous);
        previous = r;
    }
}

#[test]
fn estimate_nonnegative_at_zero_size() {
    let fees = flat_schedule(&[("a", 1000, 0)]);
    let r = fees.estimate_fees_and_gas(0, "a", "a", "BTC/USDT");
    assert_eq!(r, 0);
}
