use arbitrage_analyzer::payload::is_comprehensive_turn;
use arbitrage_analyzer::payload::parse_key_from_payload;
use arbitrage_analyzer::payload::risk_level;
use arbitrage_analyzer::payload::RiskLevel;

#[test]
fn json_payload_with_key_field_yields_that_key() {
    let key = parse_key_from_payload("{\"key\":\"binance:BTC/USDT\"}");
    assert_eq!(key, "binance:BTC/USDT");
}

#[test]
fn json_payload_without_key_field_yields_raw_payload() {
    let payload = "{\"other\":\"value\"}";
    assert_eq!(parse_key_from_payload(payload), payload);
}

#[test]
fn json_payload_with_non_string_key_yields_raw_payload() {
    let payload = "{\"key\":5}";
    assert_eq!(parse_key_from_payload(payload), payload);
}

#[test]
fn plain_payload_is_the_key_itself() {
    assert_eq!(parse_key_from_payload("kraken:ETH/USDT"), "kraken:ETH/USDT");
    assert_eq!(parse_key_from_payload("{not json"), "{not json");
}

#[test]
fn every_tenth_update_is_comprehensive() {
    assert!(is_comprehensive_turn(0));
    assert!(is_comprehensive_turn(10));
    assert!(is_comprehensive_turn(20));
    assert!(!is_comprehensive_turn(1));
    assert!(!is_comprehensive_turn(7));
    assert!(!is_comprehensive_turn(19));
}

#[test]
fn risk_levels_follow_roi_thresholds() {
    assert_eq!(risk_level(2_000_001), RiskLevel::HighProfit);
    assert_eq!(risk_level(2_000_000), RiskLevel::Moderate);
    assert_eq!(risk_level(1_000_001), RiskLevel::Moderate);
    assert_eq!(risk_level(1_000_000), RiskLevel::LowMargin);
    assert_eq!(risk_level(666_660), RiskLevel::LowMargin);
    assert_eq!(risk_level(-5), RiskLevel::LowMargin);
}
