use arbitrage_analyzer::book::Level;
use arbitrage_analyzer::book::OrderBook;
use arbitrage_analyzer::fees::FeeSchedule;
use arbitrage_analyzer::fees::VenueFee;
use arbitrage_analyzer::scan::AnalyzeError;
use arbitrage_analyzer::scan::SpreadAnalyzer;

fn schedule(venues: &[&str], fee_ppm: u64) -> FeeSchedule {
    FeeSchedule {
        venue_fees: venues
            .iter()
            .map(|name| VenueFee {
                venue: (*name).to_string(),
                taker_fee_ppm: fee_ppm,
                maker_fee_ppm: fee_ppm,
                gas_cost_micro: 0,
            })
            .collect(),
        default_fee_ppm: 1500,
        withdrawal_fees: Vec::new(),
        use_market_orders: true,
    }
}

fn book(exchange: &str, pair: &str, bid: u64, ask: u64) -> OrderBook {
    OrderBook {
        exchange: exchange.to_string(),
        pair: pair.to_string(),
        bids: vec![Level { price_micro: bid, size_micro: 1_000_000 }],
        asks: vec![Level { price_micro: ask, size_micro: 1_000_000 }],
        timestamp_millis: 1,
    }
}

#[test]
fn full_scan_finds_cross_venue_spread() {
    let mut analyzer = SpreadAnalyzer::new(schedule(&["venue-a", "venue-b"], 1000));
    analyzer.upsert_book(book("venue-a", "BTC/USDT", 29_990_000_000, 30_000_000_000));
    analyzer.upsert_book(book("venue-b", "BTC/USDT", 30_200_000_000, 30_210_000_000));
    let report = analyzer.analyze_all_spreads();
    assert_eq!(report.opportunities.len(), 1);
    assert_eq!(report.warnings.len(), 0);
    let o = &report.opportunities[0];
    assert_eq!(o.buy_exchange, "venue-a");
    assert_eq!(o.sell_exchange, "venue-b");
    assert_eq!(o.pair, "BTC/USDT");
    assert_eq!(o.buy_price_micro, 30_000_000_000);
    assert_eq!(o.sell_price_micro, 30_200_000_000);
    assert_eq!(o.max_size_micro, 800_000);
    assert_eq!(o.gross_profit_per_unit_micro, 200_000_000);
    assert_eq!(o.estimated_fees_micro, 1600);
    assert_eq!(o.net_profit_micro, 159_998_400);
    assert_eq!(o.roi_micro_pct, 666_660);
}

#[test]
fn identical_quotes_yield_no_opportunity() {
    let mut analyzer = SpreadAnalyzer::new(schedule(&["venue-a", "venue-b"], 1000));
    analyzer.upsert_book(book("venue-a", "BTC/USDT", 30_000_000_000, 30_000_000_000));
    analyzer.upsert_book(book("venue-b", "BTC/USDT", 30_000_000_000, 30_000_000_000));
    let report = analyzer.analyze_all_spreads();
    assert_eq!(report.opportunities.len(), 0);
    assert_eq!(report.warnings.len(), 0);
}

#[test]
fn empty_asks_recorded_as_warning_not_error() {
    let mut analyzer = SpreadAnalyzer::new(schedule(&["venue-a", "venue-b"], 1000));
    let mut broken = book("venue-a", "BTC/USDT", 30_000_000_000, 30_000_000_000);
    broken.asks = Vec::new();
    analyzer.upsert_book(broken);
    analyzer.upsert_book(book("venue-b", "BTC/USDT", 30_200_000_000, 30_210_000_000));
    let report = analyzer.analyze_all_spreads();
    assert_eq!(report.opportunities.len(), 0);
    assert_eq!(report.warnings.len(), 1);
    assert_eq!(report.warnings[0].first_key, "venue-a:BTC/USDT");
    assert_eq!(report.warnings[0].second_key, "venue-b:BTC/USDT");
}

#[test]
fn lone_book_yields_nothing_in_any_mode() {
    let mut analyzer = SpreadAnalyzer::new(schedule(&["venue-a"], 1000));
    analyzer.upsert_book(book("venue-a", "BTC/USDT", 29_990_000_000, 30_000_000_000));
    let full = analyzer.analyze_all_spreads();
    assert_eq!(full.opportunities.len(), 0);
    let targeted = analyzer.analyze_spread("venue-a:BTC/USDT").expect("key is stored");
    assert_eq!(targeted.opportunities.len(), 0);
}

#[test]
fn same_venue_spellings_are_not_compared() {
    let mut analyzer = SpreadAnalyzer::new(schedule(&["venue-a"], 0));
    analyzer.upsert_book(book("venue-a", "WBTC/USDT", 29_990_000_000, 30_000_000_000));
    analyzer.upsert_book(book("venue-a", "BTC/USDT", 30_200_000_000, 30_210_000_000));
    let report = analyzer.analyze_all_spreads();
    assert_eq!(report.opportunities.len(), 0);
}

#[test]
fn different_canonical_pairs_are_not_compared() {
    let mut analyzer = SpreadAnalyzer::new(schedule(&["venue-a", "venue-b"], 0));
    analyzer.upsert_book(book("venue-a", "ETH/USDT", 1_990_000_000, 2_000_000_000));
    analyzer.upsert_book(book("venue-b", "BTC/USDT", 30_200_000_000, 30_210_000_000));
    let report = analyzer.analyze_all_spreads();
    assert_eq!(report.opportunities.len(), 0);
    assert_eq!(report.warnings.len(), 0);
}

#[test]
fn wrapped_spelling_gets_buy_side_discount() {
    let mut analyzer = SpreadAnalyzer::new(schedule(&["venue-a", "venue-b"], 0));
    analyzer.upsert_book(book("venue-a", "WBTC/USDT", 29_000_000_000, 30_000_000_000));
    analyzer.upsert_book(book("venue-b", "BTC/USDT", 30_200_000_000, 30_210_000_000));
    let report = analyzer.analyze_all_spreads();
    assert_eq!(report.opportunities.len(), 1);
    let o = &report.opportunities[0];
    // 30000.00 discounted by 9999/10000.
    assert_eq!(o.buy_price_micro, 29_997_000_000);
    assert_eq!(o.pair, "BTC/USDT");
}

#[test]
fn full_scan_output_sorted_by_roi_descending() {
    let mut analyzer = SpreadAnalyzer::new(schedule(&["venue-a", "venue-b", "venue-c"], 0));
    analyzer.upsert_book(book("venue-a", "BTC/USDT", 29_990_000_000, 30_000_000_000));
    analyzer.upsert_book(book("venue-b", "BTC/USDT", 30_200_000_000, 30_200_000_000));
    analyzer.upsert_book(book("venue-c", "BTC/USDT", 30_400_000_000, 30_400_000_000));
    let report = analyzer.analyze_all_spreads();
    assert_eq!(report.opportunities.len(), 3);
    for pair in report.opportunities.windows(2) {
        assert!(pair[0].roi_micro_pct >= pair[1].roi_micro_pct);
    }
    // The widest relative spread comes first.
    assert_eq!(report.opportunities[0].buy_exchange, "venue-a");
    assert_eq!(report.opportunities[0].sell_exchange, "venue-c");
}

#[test]
fn targeted_scan_sells_into_the_updated_book() {
    let mut analyzer = SpreadAnalyzer::new(schedule(&["venue-a", "venue-b"], 1000));
    analyzer.upsert_book(book("venue-a", "BTC/USDT", 29_990_000_000, 30_000_000_000));
    analyzer.upsert_book(book("venue-b", "BTC/USDT", 30_200_000_000, 30_210_000_000));
    let selling_into_b = analyzer.analyze_spread("venue-b:BTC/USDT").expect("stored");
    assert_eq!(selling_into_b.opportunities.len(), 1);
    assert_eq!(selling_into_b.opportunities[0].buy_exchange, "venue-a");
    assert_eq!(selling_into_b.opportunities[0].sell_exchange, "venue-b");
    // Around the other key the direction inverts, and that spread loses.
    let selling_into_a = analyzer.analyze_spread("venue-a:BTC/USDT").expect("stored");
    assert_eq!(selling_into_a.opportunities.len(), 0);
}

#[test]
fn targeted_scan_unknown_key_is_recoverable_error() {
    let analyzer = SpreadAnalyzer::new(schedule(&["venue-a"], 1000));
    let r = analyzer.analyze_spread("venue-a:BTC/USDT");
    assert!(matches!(r, Err(AnalyzeError::UnknownKey)));
}

#[test]
fn below_threshold_spread_yields_nothing() {
    // 2.50 net on 20000.00 deployed: over the absolute floor but under
    // the 0.1 per cent ROI floor.
    let mut analyzer = SpreadAnalyzer::new(schedule(&["venue-a", "venue-b"], 0));
    analyzer.upsert_book(book("venue-a", "BTC/USDT", 24_990_000_000, 25_000_000_000));
    analyzer.upsert_book(book("venue-b", "BTC/USDT", 25_002_500_000, 25_010_000_000));
    let report = analyzer.analyze_all_spreads();
    assert_eq!(report.opportunities.len(), 0);
}

#[test]
fn upsert_book_overwrites_by_key_at_analyzer_level() {
    let mut analyzer = SpreadAnalyzer::new(schedule(&["venue-a"], 1000));
    analyzer.upsert_book(book("venue-a", "BTC/USDT", 1_000_000, 2_000_000));
    analyzer.upsert_book(book("venue-a", "BTC/USDT", 3_000_000, 4_000_000));
    analyzer.upsert_book(book("venue-a", "ETH/USDT", 1_000_000, 2_000_000));
    assert_eq!(analyzer.store.book_count(), 2);
    let held = analyzer.store.get("venue-a:BTC/USDT").expect("stored");
    assert_eq!(held.bids[0].price_micro, 3_000_000);
}
