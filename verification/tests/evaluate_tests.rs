use arbitrage_analyzer::evaluate::choose_execution_size;
use arbitrage_analyzer::evaluate::evaluate_opportunity;
use arbitrage_analyzer::evaluate::make_execution_request;
use arbitrage_analyzer::evaluate::SIZE_CAP_MICRO;
use arbitrage_analyzer::fees::FeeSchedule;
use arbitrage_analyzer::fees::VenueFee;

fn two_venue_schedule(fee_ppm: u64) -> FeeSchedule {
    FeeSchedule {
        venue_fees: vec![
            VenueFee {
                venue: "venue-a".to_string(),
                taker_fee_ppm: fee_ppm,
                maker_fee_ppm: fee_ppm,
                gas_cost_micro: 0,
            },
            VenueFee {
                venue: "venue-b".to_string(),
                taker_fee_ppm: fee_ppm,
                maker_fee_ppm: fee_ppm,
                gas_cost_micro: 0,
            },
        ],
        default_fee_ppm: 1500,
        withdrawal_fees: Vec::new(),
        use_market_orders: true,
    }
}

#[test]
fn execution_size_takes_eighty_percent_of_smaller_side() {
    assert_eq!(choose_execution_size(1_000_000, 1_000_000), 800_000);
    assert_eq!(choose_execution_size(1_000_000, 500_000), 400_000);
    assert_eq!(choose_execution_size(250_000, 1_000_000), 200_000);
}

#[test]
fn execution_size_capped_by_notional_cap() {
    assert_eq!(SIZE_CAP_MICRO, 2_000_000);
    assert_eq!(choose_execution_size(10_000_000, 9_000_000), 2_000_000);
}

#[test]
fn execution_size_zero_when_one_side_empty() {
    assert_eq!(choose_execution_size(0, 5_000_000), 0);
}

#[test]
fn execution_size_bounded_by_both_sides_and_cap() {
    for (a, b) in [(0u64, 0u64), (1, 2), (999, 999), (3_000_000, 2_999_999)] {
        let s = choose_execution_size(a, b);
        assert!(s <= a && s <= b && s <= SIZE_CAP_MICRO);
    }
}

#[test]
fn profitable_spread_accepted_with_exact_figures() {
    // Venue A asks 30000.00 for 1.0 unit; venue B bids 30200.00 for
    // 1.0 unit; 0.1% taker fee on both sides, no withdrawal fee.
    let fees = two_venue_schedule(1000);
    let r = evaluate_opportunity(
        &fees,
        "venue-a",
        "venue-b",
        "BTC/USDT",
        30_000_000_000,
        30_200_000_000,
        1_000_000,
        1_000_000,
    );
    let o = r.expect("spread above both thresholds must be accepted");
    assert_eq!(o.buy_exchange, "venue-a");
    assert_eq!(o.sell_exchange, "venue-b");
    assert_eq!(o.pair, "BTC/USDT");
    assert_eq!(o.max_size_micro, 800_000);
    assert_eq!(o.gross_profit_per_unit_micro, 200_000_000);
    assert_eq!(o.estimated_fees_micro, 800 + 800);
    assert_eq!(o.net_profit_micro, 160_000_000 - 1600);
    // 159.9984 profit on 24000 deployed: 0.66666 per cent.
    assert_eq!(o.roi_micro_pct, 666_660);
    assert_eq!(o.id.len(), 36);
}

#[test]
fn identical_quotes_rejected() {
    let fees = two_venue_schedule(1000);
    let r = evaluate_opportunity(
        &fees,
        "venue-a",
        "venue-b",
        "BTC/USDT",
        30_000_000_000,
        30_000_000_000,
        1_000_000,
        1_000_000,
    );
    assert!(r.is_none());
}

#[test]
fn inverted_spread_rejected() {
    let fees = two_venue_schedule(0);
    let r = evaluate_opportunity(
        &fees,
        "venue-a",
        "venue-b",
        "BTC/USDT",
        30_200_000_000,
        30_000_000_000,
        1_000_000,
        1_000_000,
    );
    assert!(r.is_none());
}

#[test]
fn zero_executable_size_rejected() {
    let fees = two_venue_schedule(0);
    let r = evaluate_opportunity(
        &fees,
        "venue-a",
        "venue-b",
        "BTC/USDT",
        30_000_000_000,
        30_200_000_000,
        0,
        1_000_000,
    );
    assert!(r.is_none());
}

#[test]
fn net_profit_below_absolute_floor_rejected() {
    // 0.0008 units of a 200.00 spread gross only 0.16: under the 1.00 floor.
    let fees = two_venue_schedule(0);
    let r = evaluate_opportunity(
        &fees,
        "venue-a",
        "venue-b",
        "BTC/USDT",
        30_000_000_000,
        30_200_000_000,
        1_000,
        1_000,
    );
    assert!(r.is_none());
}

#[test]
fn roi_below_floor_rejected() {
    // A 2.00 net gain on 20000.00 deployed is 0.01 per cent: under the
    // 0.1 per cent floor even though it clears the absolute floor.
    let fees = two_venue_schedule(0);
    let r = evaluate_opportunity(
        &fees,
        "venue-a",
        "venue-b",
        "BTC/USDT",
        25_000_000_000,
        25_002_500_000,
        1_000_000,
        1_000_000,
    );
    assert!(r.is_none());
}

#[test]
fn both_thresholds_passing_is_required_not_either() {
    // Huge ROI but tiny absolute profit: rejected.
    let fees = two_venue_schedule(0);
    let r = evaluate_opportunity(
        &fees,
        "venue-a",
        "venue-b",
        "BTC/USDT",
        1_000_000,
        2_000_000,
        500_000,
        500_000,
    );
    // gross: 1.00 per unit on 0.4 units = 0.40, below the 1.00 floor.
    assert!(r.is_none());
}

#[test]
fn execution_request_wraps_opportunity_at_its_size() {
    let fees = two_venue_schedule(1000);
    let o = evaluate_opportunity(
        &fees,
        "venue-a",
        "venue-b",
        "BTC/USDT",
        30_000_000_000,
        30_200_000_000,
        1_000_000,
        1_000_000,
    )
    .expect("accepted");
    let size = o.max_size_micro;
    let req = make_execution_request(o);
    assert_eq!(req.execution_size_micro, size);
    assert_eq!(req.opportunity.max_size_micro, size);
    assert_eq!(req.id.len(), 36);
}

#[test]
fn fresh_identifiers_differ_between_records() {
    let fees = two_venue_schedule(1000);
    let first = evaluate_opportunity(
        &fees,
        "venue-a",
        "venue-b",
        "BTC/USDT",
        30_000_000_000,
        30_200_000_000,
        1_000_000,
        1_000_000,
    )
    .expect("accepted");
    let second = evaluate_opportunity(
        &fees,
        "venue-a",
        "venue-b",
        "BTC/USDT",
        30_000_000_000,
        30_200_000_000,
        1_000_000,
        1_000_000,
    )
    .expect("accepted");
    assert_ne!(first.id, second.id);
}
