use global_price_index::exchange::price_age_secs;
use global_price_index::models::{ExchangePrice, GlobalPriceIndex, PRICE_SCALE, WEIGHT_ONE};
use std::time::{Duration, SystemTime, UNIX_EPOCH};

const DECAY_FACTOR: f64 = 300.0;

fn millis(t: SystemTime) -> u64 {
    t.duration_since(UNIX_EPOCH).unwrap().as_millis() as u64
}

fn units(whole: f64) -> i64 {
    (whole * PRICE_SCALE as f64).round() as i64
}

fn whole(units: i64) -> f64 {
    units as f64 / PRICE_SCALE as f64
}

/// Decay weights of the prices at `now`, as the service computes them.
fn weights(prices: &[ExchangePrice], now: u64) -> Vec<u64> {
    prices
        .iter()
        .map(|p| {
            let age = price_age_secs(now, p.timestamp) as f64;
            ((-age / DECAY_FACTOR).exp() * WEIGHT_ONE as f64).round() as u64
        })
        .collect()
}

fn index(prices: Vec<ExchangePrice>, now: u64) -> GlobalPriceIndex {
    let w = weights(&prices, now);
    GlobalPriceIndex::new(prices, &w, now)
}

fn price(name: &str, mid: f64, timestamp: SystemTime) -> ExchangePrice {
    ExchangePrice { exchange: name.to_string(), mid_price: units(mid), timestamp: millis(timestamp) }
}

#[test]
fn test_global_price_index_weighting() {
    let now = SystemTime::now();
    let exchange_prices = vec![
        price("Exchange1", 50000.0, now),
        price("Exchange2", 51000.0, now.checked_sub(Duration::from_secs(300)).unwrap()),
        price("Exchange3", 52000.0, now.checked_sub(Duration::from_secs(600)).unwrap()),
    ];
    let global_index = index(exchange_prices, millis(now));
    let expected_price = 50424.79;
    assert!(
        (whole(global_index.price) - expected_price).abs() < 1.0,
        "Expected price around {}, but got {}",
        expected_price,
        whole(global_index.price)
    );
}

#[test]
fn test_global_price_index_equal_timestamps() {
    let now = SystemTime::now();
    let exchange_prices = vec![
        price("Exchange1", 50000.0, now),
        price("Exchange2", 51000.0, now),
        price("Exchange3", 52000.0, now),
    ];
    let global_index = index(exchange_prices, millis(now));
    let expected_price = (50000.0 + 51000.0 + 52000.0) / 3.0;
    assert!(
        (whole(global_index.price) - expected_price).abs() < 0.01,
        "Expected simple average {}, but got {}",
        expected_price,
        whole(global_index.price)
    );
}

#[test]
fn test_global_price_index_one_valid_price() {
    let now = SystemTime::now();
    let exchange_prices = vec![price("Exchange1", 50000.0, now)];
    let global_index = index(exchange_prices, millis(now));
    assert!(
        (whole(global_index.price) - 50000.0).abs() < 0.01,
        "Expected single price 50000.0, but got {}",
        whole(global_index.price)
    );
}

#[test]
fn test_global_price_index_invalid_prices() {
    let now = SystemTime::now();
    let exchange_prices = vec![
        price("Exchange1", -50000.0, now),
        price("Exchange2", 0.0, now),
        price("Exchange3", 52000.0, now),
    ];
    let global_index = index(exchange_prices, millis(now));
    assert!(
        (whole(global_index.price) - 52000.0).abs() < 0.01,
        "Expected only valid price 52000.0, but got {}",
        whole(global_index.price)
    );
    assert_eq!(global_index.exchange_prices.len(), 3);
}

#[test]
fn test_global_price_index_very_old_prices() {
    let now = SystemTime::now();
    let exchange_prices = vec![
        price("Exchange1", 50000.0, now),
        price("Exchange2", 30000.0, now.checked_sub(Duration::from_secs(1800)).unwrap()),
    ];
    let global_index = index(exchange_prices, millis(now));
    assert!(
        (whole(global_index.price) - 50000.0).abs() < 100.0,
        "Old price had too much influence, expected close to 50000.0, but got {}",
        whole(global_index.price)
    );
}

#[test]
fn test_global_price_index_empty_prices() {
    let exchange_prices = vec![];
    let global_index = GlobalPriceIndex::new(exchange_prices, &vec![], 0);
    assert_eq!(
        global_index.price, 0,
        "Expected 0.0 for empty prices, but got {}",
        global_index.price
    );
    assert!(global_index.exchange_prices.is_empty());
}

#[test]
fn test_weight_calculation() {
    let test_cases = vec![
        (0, 1.0),
        (300, 0.36787944117144233),
        (600, 0.1353352832366127),
        (1200, 0.01831563888873418),
    ];
    let now = SystemTime::now();
    for (time_diff_secs, expected_weight) in test_cases {
        let p = price("Test", 50000.0, now.checked_sub(Duration::from_secs(time_diff_secs)).unwrap());
        let w = weights(&[p], millis(now))[0];
        let actual_weight = w as f64 / WEIGHT_ONE as f64;
        assert!(
            (actual_weight - expected_weight).abs() < 0.0001,
            "Weight calculation for {} seconds: expected {}, got {}",
            time_diff_secs,
            expected_weight,
            actual_weight
        );
    }
}

#[test]
fn index_is_exact_weighted_mean() {
    let prices = vec![
        ExchangePrice { exchange: "A".to_string(), mid_price: 100, timestamp: 0 },
        ExchangePrice { exchange: "B".to_string(), mid_price: 200, timestamp: 0 },
    ];
    // (100 * 3 + 200 * 1) / 4 = 125
    let idx = GlobalPriceIndex::new(prices, &vec![3, 1], 42);
    assert_eq!(idx.price, 125);
    assert_eq!(idx.timestamp, 42);
    assert_eq!(idx.exchange_prices[1].exchange, "B");
}

#[test]
fn index_rounds_weighted_mean_down() {
    let prices = vec![
        ExchangePrice { exchange: "A".to_string(), mid_price: 10, timestamp: 0 },
        ExchangePrice { exchange: "B".to_string(), mid_price: 11, timestamp: 0 },
    ];
    // (10 * 1 + 11 * 2) / 3 = 10.67, rounded down
    assert_eq!(GlobalPriceIndex::new(prices, &vec![1, 2], 0).price, 10);
}

#[test]
fn index_falls_back_to_plain_mean_when_all_weights_vanish() {
    let prices = vec![
        ExchangePrice { exchange: "A".to_string(), mid_price: 100, timestamp: 0 },
        ExchangePrice { exchange: "B".to_string(), mid_price: 301, timestamp: 0 },
        ExchangePrice { exchange: "C".to_string(), mid_price: -7, timestamp: 0 },
    ];
    // (100 + 301) / 2, rounded down; the negative price is left out
    assert_eq!(GlobalPriceIndex::new(prices, &vec![0, 0, 5], 0).price, 200);
}

#[test]
fn index_of_only_invalid_prices_is_zero() {
    let prices = vec![
        ExchangePrice { exchange: "A".to_string(), mid_price: 0, timestamp: 0 },
        ExchangePrice { exchange: "B".to_string(), mid_price: -1, timestamp: 0 },
    ];
    let idx = GlobalPriceIndex::new(prices, &vec![WEIGHT_ONE, WEIGHT_ONE], 0);
    assert_eq!(idx.price, 0);
    assert_eq!(idx.exchange_prices.len(), 2);
}

#[test]
fn index_handles_largest_prices_and_weights() {
    let prices = vec![
        ExchangePrice { exchange: "A".to_string(), mid_price: i64::MAX, timestamp: 0 },
        ExchangePrice { exchange: "B".to_string(), mid_price: i64::MAX, timestamp: 0 },
    ];
    let idx = GlobalPriceIndex::new(prices, &vec![WEIGHT_ONE, WEIGHT_ONE], 0);
    assert_eq!(idx.price, i64::MAX);
}
