use global_price_index::error::PriceIndexError;
use global_price_index::exchange::{
    collect_exchange_prices, exchange_price_from, parse_levels, price_age_secs, RawLevel,
};
use global_price_index::models::{ExchangePrice, Order, OrderBook, PRICE_SCALE};
use std::time::{SystemTime, UNIX_EPOCH};

fn now_ms() -> u64 {
    SystemTime::now().duration_since(UNIX_EPOCH).unwrap().as_millis() as u64
}

fn units(whole: f64) -> i64 {
    (whole * PRICE_SCALE as f64).round() as i64
}

fn order(price: f64, quantity: f64) -> Order {
    Order { price: units(price), quantity: units(quantity) }
}

fn book(bids: Vec<Order>, asks: Vec<Order>) -> OrderBook {
    OrderBook { bids, asks, timestamp: now_ms() }
}

#[test]
fn test_order_book_mid_price_calculation() {
    let order_book = book(
        vec![order(50000.0, 2.0), order(49900.0, 3.0)],
        vec![order(50100.0, 1.0), order(50200.0, 2.0)],
    );
    let mid_price = order_book.calculate_mid_price().unwrap();
    assert!((mid_price as f64 / PRICE_SCALE as f64 - 50050.0).abs() < 0.01);
}

#[test]
fn test_empty_order_book_mid_price() {
    let order_book = book(vec![], vec![]);
    assert!(order_book.calculate_mid_price().is_none());
}

#[test]
fn test_invalid_order_book_mid_price() {
    let order_book = book(vec![order(0.0, 1.0)], vec![order(0.0, 1.0)]);
    assert!(order_book.calculate_mid_price().is_none());
}

#[test]
fn mid_price_rounds_half_cent_up() {
    // (100.00 + 100.01) / 2 = 100.005, which rounds to 100.01
    let order_book = book(vec![order(100.0, 1.0)], vec![order(100.01, 1.0)]);
    assert_eq!(order_book.calculate_mid_price(), Some(units(100.01)));
    // (100.00 + 100.004) / 2 = 100.002, which rounds to 100.00
    let order_book = book(vec![order(100.0, 1.0)], vec![order(100.004, 1.0)]);
    assert_eq!(order_book.calculate_mid_price(), Some(units(100.0)));
}

#[test]
fn mid_price_lies_between_best_prices() {
    let order_book = book(vec![order(27123.45, 0.5)], vec![order(27130.10, 0.2)]);
    let mid = order_book.calculate_mid_price().unwrap();
    assert_eq!(mid, units(27126.78));
    assert!(mid > units(27123.45) && mid < units(27130.10));
}

#[test]
fn mid_price_rejects_one_empty_side() {
    assert!(book(vec![order(50000.0, 1.0)], vec![]).calculate_mid_price().is_none());
    assert!(book(vec![], vec![order(50000.0, 1.0)]).calculate_mid_price().is_none());
}

#[test]
fn mid_price_rejects_non_positive_best_price() {
    assert!(book(vec![order(-5.0, 1.0)], vec![order(50000.0, 1.0)]).calculate_mid_price().is_none());
    assert!(book(vec![order(50000.0, 1.0)], vec![order(0.0, 1.0)]).calculate_mid_price().is_none());
}

#[test]
fn mid_price_rejects_crossed_and_locked_books() {
    assert!(book(vec![order(50000.0, 1.0)], vec![order(50000.0, 1.0)]).calculate_mid_price().is_none());
    assert!(book(vec![order(50010.0, 1.0)], vec![order(50000.0, 1.0)]).calculate_mid_price().is_none());
}

fn raw(price: &str, quantity: &str) -> RawLevel {
    RawLevel { price: price.to_string(), quantity: quantity.to_string() }
}

#[test]
fn parse_levels_reads_decimal_text() {
    let levels = parse_levels(&vec![raw("50000.01000000", "0.00100000"), raw("49999", "2.5")]).unwrap();
    assert_eq!(levels, vec![
        Order { price: 5_000_001_000_000, quantity: 100_000 },
        Order { price: 4_999_900_000_000, quantity: 250_000_000 },
    ]);
}

#[test]
fn parse_levels_rejects_bad_text() {
    assert!(parse_levels(&vec![raw("50000.0", "1"), raw("abc", "1")]).is_none());
    assert!(parse_levels(&vec![raw("50000.0", "1.x")]).is_none());
}

#[test]
fn exchange_price_from_valid_book() {
    let b = book(vec![order(50000.0, 2.0)], vec![order(50100.0, 1.0)]);
    let stamp = b.timestamp;
    let p = exchange_price_from("Kraken", Ok(b)).unwrap();
    assert_eq!(p.exchange, "Kraken");
    assert_eq!(p.mid_price, units(50050.0));
    assert_eq!(p.timestamp, stamp);
}

#[test]
fn exchange_price_from_invalid_book() {
    let b = book(vec![], vec![order(50100.0, 1.0)]);
    let e = exchange_price_from("Huobi", Ok(b)).unwrap_err();
    assert_eq!(
        e,
        PriceIndexError::InvalidPriceData("Failed to calculate mid price for Huobi".to_string())
    );
}

#[test]
fn exchange_price_from_passes_fetch_error() {
    let e = PriceIndexError::HttpError("timeout".to_string());
    assert_eq!(exchange_price_from("Binance", Err(e.clone())).unwrap_err(), e);
}

fn price(name: &str, mid: f64, timestamp: u64) -> ExchangePrice {
    ExchangePrice { exchange: name.to_string(), mid_price: units(mid), timestamp }
}

#[test]
fn collect_signals_no_data_when_every_exchange_failed() {
    let outcomes = vec![
        Err(PriceIndexError::HttpError("down".to_string())),
        Err(PriceIndexError::ExchangeError("busy".to_string())),
    ];
    assert!(collect_exchange_prices(outcomes).is_none());
    assert!(collect_exchange_prices(vec![]).is_none());
}

#[test]
fn collect_keeps_successes_in_order() {
    let outcomes = vec![
        Ok(price("Binance", 50000.0, 1)),
        Err(PriceIndexError::HttpError("down".to_string())),
        Ok(price("Huobi", 0.0, 2)),
    ];
    let prices = collect_exchange_prices(outcomes).unwrap();
    assert_eq!(prices.len(), 2);
    assert_eq!(prices[0].exchange, "Binance");
    assert_eq!(prices[1].exchange, "Huobi");
    assert_eq!(prices[1].mid_price, 0);
}

#[test]
fn price_age_is_whole_seconds_and_never_negative() {
    assert_eq!(price_age_secs(1_000_000, 1_000_000), 0);
    assert_eq!(price_age_secs(1_300_999, 1_000_000), 300);
    assert_eq!(price_age_secs(1_000_000, 1_005_000), 0);
}

#[test]
fn error_message_is_the_carried_text() {
    let errors = [
        PriceIndexError::ExchangeError("a".to_string()),
        PriceIndexError::WebSocketError("b".to_string()),
        PriceIndexError::HttpError("c".to_string()),
        PriceIndexError::JsonError("d".to_string()),
        PriceIndexError::InvalidPriceData("e".to_string()),
    ];
    let texts: Vec<&str> = errors.iter().map(|e| e.message().as_str()).collect();
    assert_eq!(texts, vec!["a", "b", "c", "d", "e"]);
}

#[test]
fn exchange_price_keeps_a_stale_book_time() {
    let b = OrderBook { bids: vec![order(50000.0, 2.0)], asks: vec![order(50100.0, 1.0)], timestamp: 5 };
    assert_eq!(exchange_price_from("Binance", Ok(b)).unwrap().timestamp, 5);
}

#[test]
fn mid_price_of_very_large_prices() {
    let order_book = book(vec![order(1.5e9, 1.0)], vec![order(2e9, 1.0)]);
    assert!(order_book.mid_price_in_range());
    assert_eq!(order_book.calculate_mid_price(), Some(units(1.75e9)));
}

#[test]
fn mid_price_range_check_at_the_top_of_i64() {
    let order_book = OrderBook {
        bids: vec![Order { price: i64::MAX - 1, quantity: 1 }],
        asks: vec![Order { price: i64::MAX, quantity: 1 }],
        timestamp: 0,
    };
    assert!(!order_book.mid_price_in_range());
    let fits = OrderBook {
        bids: vec![Order { price: i64::MAX - 3_000_000, quantity: 1 }],
        asks: vec![Order { price: i64::MAX - 2_000_000, quantity: 1 }],
        timestamp: 0,
    };
    assert!(fits.mid_price_in_range());
    assert_eq!(fits.calculate_mid_price(), Some(9_223_372_036_852_000_000));
}
