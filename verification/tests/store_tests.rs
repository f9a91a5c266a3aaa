use arbitrage_analyzer::book::Level;
use arbitrage_analyzer::book::OrderBook;
use arbitrage_analyzer::store::make_book_key;
use arbitrage_analyzer::store::BookStore;

fn book(exchange: &str, pair: &str, bid: u64, ask: u64, ts: i64) -> OrderBook {
    OrderBook {
        exchange: exchange.to_string(),
        pair: pair.to_string(),
        bids: vec![Level { price_micro: bid, size_micro: 1_000_000 }],
        asks: vec![Level { price_micro: ask, size_micro: 1_000_000 }],
        timestamp_millis: ts,
    }
}

#[test]
fn book_key_joins_exchange_and_pair() {
    assert_eq!(make_book_key("binance", "BTC/USDT"), "binance:BTC/USDT");
}

#[test]
fn upsert_overwrites_same_key() {
    let mut store = BookStore::new();
    store.upsert(book("binance", "BTC/USDT", 1, 2, 100));
    store.upsert(book("binance", "BTC/USDT", 3, 4, 200));
    assert_eq!(store.book_count(), 1);
    let held = store.get("binance:BTC/USDT").expect("stored");
    assert_eq!(held.timestamp_millis, 200);
    assert_eq!(held.bids[0].price_micro, 3);
}

#[test]
fn upsert_keeps_distinct_keys_apart() {
    let mut store = BookStore::new();
    store.upsert(book("binance", "BTC/USDT", 1, 2, 100));
    store.upsert(book("binance", "ETH/USDT", 1, 2, 100));
    store.upsert(book("kraken", "BTC/USDT", 1, 2, 100));
    assert_eq!(store.book_count(), 3);
    assert!(store.get("binance:ETH/USDT").is_some());
    assert!(store.get("kraken:ETH/USDT").is_none());
}

#[test]
fn get_unknown_key_is_none() {
    let store = BookStore::new();
    assert!(store.get("binance:BTC/USDT").is_none());
}

#[test]
fn grouping_joins_wrapped_and_underlying_spellings() {
    let mut store = BookStore::new();
    store.upsert(book("binance", "WBTC/USDT", 1, 2, 100));
    store.upsert(book("kraken", "BTC/USDT", 1, 2, 100));
    store.upsert(book("binance", "ETH/USDT", 1, 2, 100));
    let groups = store.group_books_by_pair();
    assert_eq!(groups.len(), 2);
    let btc = groups
        .iter()
        .find(|g| g.canonical_pair == "BTC/USDT")
        .expect("canonical group");
    assert_eq!(btc.members.len(), 2);
    let eth = groups
        .iter()
        .find(|g| g.canonical_pair == "ETH/USDT")
        .expect("canonical group");
    assert_eq!(eth.members.len(), 1);
}

#[test]
fn distinct_exchanges_deduplicates() {
    let mut store = BookStore::new();
    store.upsert(book("binance", "BTC/USDT", 1, 2, 100));
    store.upsert(book("binance", "ETH/USDT", 1, 2, 100));
    store.upsert(book("kraken", "BTC/USDT", 1, 2, 100));
    let mut venues = store.distinct_exchanges();
    venues.sort();
    assert_eq!(venues, vec!["binance".to_string(), "kraken".to_string()]);
}
