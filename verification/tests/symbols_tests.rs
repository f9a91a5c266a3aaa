use arbitrage_analyzer::symbols::base_currency_of;
use arbitrage_analyzer::symbols::canonical_pair;
use arbitrage_analyzer::symbols::contains_str;
use arbitrage_analyzer::symbols::fee_lookup_currency_of;
use arbitrage_analyzer::symbols::mentions_wrapped_str;
use arbitrage_analyzer::symbols::normalize_pair_symbols;
use arbitrage_analyzer::symbols::prefix_before_char;
use arbitrage_analyzer::symbols::replace_str;
use arbitrage_analyzer::symbols::str_eq;
use arbitrage_analyzer::symbols::PRICE_ADJ_DEN;
use arbitrage_analyzer::symbols::WRAPPED_ADJ_NUM;

#[test]
fn replace_single_occurrence() {
    assert_eq!(replace_str("WBTC/USDT", "WBTC", "BTC"), "BTC/USDT");
}

#[test]
fn replace_multiple_occurrences() {
    assert_eq!(replace_str("WBTC-WBTC", "WBTC", "BTC"), "BTC-BTC");
}

#[test]
fn replace_without_occurrence_keeps_input() {
    assert_eq!(replace_str("ETH/USDT", "WBTC", "BTC"), "ETH/USDT");
}

#[test]
fn replace_with_empty_replacement_deletes() {
    assert_eq!(replace_str("BTCUSDT", "USDT", ""), "BTC");
}

#[test]
fn canonical_pair_collapses_wrapped_ticker() {
    assert_eq!(canonical_pair("WBTC/USDT"), "BTC/USDT");
    assert_eq!(canonical_pair("BTC/USDT"), "BTC/USDT");
}

#[test]
fn normalize_round_trip_wrapped_and_underlying() {
    let (c1, c2, adj) = normalize_pair_symbols("WBTC/USDT", "BTC/USDT");
    assert_eq!(c1, c2);
    assert_eq!(c1, "BTC/USDT");
    assert_eq!(adj, WRAPPED_ADJ_NUM);
    assert!(adj < PRICE_ADJ_DEN);
}

#[test]
fn normalize_plain_pair_has_unit_adjustment() {
    let (c1, c2, adj) = normalize_pair_symbols("BTC/USDT", "BTC/USDT");
    assert_eq!(c1, c2);
    assert_eq!(adj, PRICE_ADJ_DEN);
}

#[test]
fn mentions_wrapped_only_on_wrapped_spelling() {
    assert!(mentions_wrapped_str("WBTC/USDT"));
    assert!(!mentions_wrapped_str("BTC/USDT"));
}

#[test]
fn base_currency_prefers_slash_prefix() {
    assert_eq!(base_currency_of("WBTC/USDT"), "WBTC");
    assert_eq!(base_currency_of("ETH/USDT"), "ETH");
}

#[test]
fn base_currency_strips_usdt_then_usd() {
    assert_eq!(base_currency_of("BTCUSDT"), "BTC");
    assert_eq!(base_currency_of("ETHUSD"), "ETH");
}

#[test]
fn base_currency_falls_back_to_first_four_characters() {
    assert_eq!(base_currency_of("SOLANA"), "SOLA");
    assert_eq!(base_currency_of("AB"), "AB");
}

#[test]
fn fee_lookup_currency_maps_wrapped_to_underlying() {
    assert_eq!(fee_lookup_currency_of("WBTC/USDT"), "BTC");
    assert_eq!(fee_lookup_currency_of("ETH/USDT"), "ETH");
}

#[test]
fn prefix_before_char_stops_at_first_hit() {
    assert_eq!(prefix_before_char("a/b/c", '/'), "a");
    assert_eq!(prefix_before_char("abc", '/'), "abc");
    assert_eq!(prefix_before_char("/abc", '/'), "");
}

#[test]
fn str_eq_and_contains() {
    assert!(str_eq("abc", "abc"));
    assert!(!str_eq("abc", "abd"));
    assert!(!str_eq("abc", "abcd"));
    assert!(contains_str("WBTC/USDT", "BTC"));
    assert!(!contains_str("ETH/USDT", "BTC"));
    assert!(contains_str("abc", "abc"));
    assert!(!contains_str("ab", "abc"));
}
