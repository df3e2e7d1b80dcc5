use snivy::config::{ExchangeConfig, PersistenceConfig, TelemetryConfig};
use snivy::errors::AppError;
use snivy::indicators::MovingAverage;
use snivy::math::{format_decimal, simple_moving_average};
use snivy::orders::{OrderIntent, OrderSide, OrderTif, RiskLimits};
use snivy::position_manager::{FillEvent, PositionManager};
use snivy::rate_limiter::OrderRateLimiter;
use snivy::time::interval_to_millis;

const FP: i64 = snivy::FP_ONE;

fn fill(asset: &str, price: i64, size: i64, is_buy: bool) -> FillEvent {
    FillEvent {
        asset: asset.to_string(),
        price,
        size,
        is_buy,
        cloid: None,
    }
}

#[test]
fn seed_then_update_gives_window_and_mean() {
    let mut ma = MovingAverage::new(3);
    ma.seed(&[1 * FP, 2 * FP, 3 * FP]);
    let mean = ma.update(4 * FP).expect("window is full");
    assert_eq!(ma.values(), vec![2 * FP, 3 * FP, 4 * FP]);
    assert_eq!(mean.count, 3);
    assert_eq!(mean.sum, 9 * FP as i128);
    // the mean is exactly 3.0
    assert_eq!(mean.sum % mean.count as i128, 0);
    assert_eq!(mean.sum / mean.count as i128, 3 * FP as i128);
}

#[test]
fn update_is_none_until_exactly_full() {
    let mut ma = MovingAverage::new(3);
    assert!(ma.update(10).is_none());
    assert!(!ma.is_ready());
    assert!(ma.update(20).is_none());
    let m = ma.update(30).expect("third observation fills the window");
    assert_eq!(m.sum, 60);
    assert_eq!(m.count, 3);
    assert!(ma.is_ready());
    // a fourth observation evicts the oldest: mean over the last three
    let m = ma.update(70).expect("window stays full");
    assert_eq!(m.sum, 120);
    assert_eq!(ma.values(), vec![20, 30, 70]);
}

#[test]
fn seed_truncates_to_period() {
    let mut ma = MovingAverage::new(3);
    ma.seed(&[1, 2, 3, 4, 5]);
    assert_eq!(ma.values(), vec![1, 2, 3]);
    assert!(ma.is_ready());
}

#[test]
fn current_matches_window_state() {
    let mut ma = MovingAverage::new(2);
    assert!(ma.current().is_none());
    ma.update(10);
    assert!(ma.current().is_none());
    ma.update(30);
    let m = ma.current().expect("full window");
    assert_eq!(m.sum, 40);
    assert_eq!(m.count, 2);
}

#[test]
fn sma_of_empty_window_is_none() {
    assert!(simple_moving_average(&[]).is_none());
    let m = simple_moving_average(&[5, 7]).unwrap();
    assert_eq!(m.sum, 12);
    assert_eq!(m.count, 2);
}

#[test]
fn ledger_net_is_signed_sum_across_instruments() {
    let mut pm = PositionManager::new();
    pm.apply_fill(&fill("BTC", 100 * FP, 2, true));
    pm.apply_fill(&fill("ETH", 10 * FP, 5, true));
    pm.apply_fill(&fill("BTC", 101 * FP, 3, true));
    pm.apply_fill(&fill("ETH", 11 * FP, 1, false));
    pm.apply_fill(&fill("BTC", 99 * FP, 4, false));
    assert_eq!(pm.net_position(&"BTC".to_string()), 2 + 3 - 4);
    assert_eq!(pm.net_position(&"ETH".to_string()), 5 - 1);
    assert_eq!(pm.net_position(&"SOL".to_string()), 0);
    let snap = pm.snapshot();
    assert_eq!(snap.len(), 2);
    let btc = snap.iter().find(|p| p.asset == "BTC").unwrap();
    assert_eq!(btc.size, 1);
}

#[test]
fn full_offset_keeps_entry_and_entry_price_rules_hold() {
    let mut pm = PositionManager::new();
    let key = "BTC".to_string();
    pm.apply_fill(&fill("BTC", 100 * FP, 1, true));
    let p = pm.snapshot().into_iter().find(|p| p.asset == "BTC").unwrap();
    assert_eq!((p.size, p.entry_price), (1, 100 * FP));
    // an offsetting sell reduces the net and leaves the entry price alone
    pm.apply_fill(&fill("BTC", 90 * FP, 1, false));
    let p = pm.snapshot().into_iter().find(|p| p.asset == "BTC").unwrap();
    assert_eq!((p.size, p.entry_price), (0, 100 * FP));
    assert_eq!(pm.net_position(&key), 0);
    // from flat, a sell opens a short and records its price
    pm.apply_fill(&fill("BTC", 80 * FP, 1, false));
    let p = pm.snapshot().into_iter().find(|p| p.asset == "BTC").unwrap();
    assert_eq!((p.size, p.entry_price), (-1, 80 * FP));
    // an offsetting buy against the short keeps the entry price
    pm.apply_fill(&fill("BTC", 85 * FP, 1, true));
    let p = pm.snapshot().into_iter().find(|p| p.asset == "BTC").unwrap();
    assert_eq!((p.size, p.entry_price), (0, 80 * FP));
}

#[test]
fn rate_limiter_bounds_grants_in_sliding_window() {
    let mut rl = OrderRateLimiter::new(60, 2);
    assert!(rl.allow(0));
    assert!(rl.allow(1_000));
    assert!(!rl.allow(2_000));
    assert!(!rl.allow(59_000));
    // after the window slides past both grants, capacity returns
    assert!(rl.allow(61_001));
}

#[test]
fn rate_limiter_boundary_is_inclusive() {
    let mut rl = OrderRateLimiter::new(60, 1);
    assert!(rl.allow(0));
    // exactly at the window edge the old grant still counts
    assert!(!rl.allow(60_000));
    // one past it, the old grant is evicted
    assert!(rl.allow(60_001));
}

#[test]
fn rate_limiter_zero_max_never_grants() {
    let mut rl = OrderRateLimiter::new(60, 0);
    assert!(!rl.allow(0));
    assert!(!rl.allow(1_000_000));
}

#[test]
fn rate_limiter_clock_never_runs_backwards() {
    let mut rl = OrderRateLimiter::new(60, 1);
    assert!(rl.allow(100_000));
    // an older clock reading is clamped to the latest one seen
    assert!(!rl.allow(50_000));
}

#[test]
fn format_decimal_canonical_forms() {
    assert_eq!(format_decimal(0), "0");
    assert_eq!(format_decimal(FP), "1");
    assert_eq!(format_decimal(FP + FP / 2), "1.5");
    assert_eq!(format_decimal(1), "0.00000001");
    assert_eq!(format_decimal(-1), "-0.00000001");
    assert_eq!(format_decimal(-150_000_000), "-1.5");
    assert_eq!(format_decimal(123_456_789), "1.23456789");
    assert_eq!(format_decimal(120_000_000), "1.2");
    assert_eq!(format_decimal(9_999_999_999), "99.99999999");
    assert_eq!(format_decimal(10_000_000_000), "100");
    assert_eq!(format_decimal(1_199_400_000), "11.994");
}

#[test]
fn interval_to_millis_units_and_rejects() {
    assert_eq!(interval_to_millis("1m"), Some(60_000));
    assert_eq!(interval_to_millis("30s"), Some(30_000));
    assert_eq!(interval_to_millis("2h"), Some(7_200_000));
    assert_eq!(interval_to_millis("1d"), Some(86_400_000));
    assert_eq!(interval_to_millis("5M"), Some(300_000));
    assert_eq!(interval_to_millis("12S"), Some(12_000));
    assert_eq!(interval_to_millis(""), None);
    assert_eq!(interval_to_millis("m"), None);
    assert_eq!(interval_to_millis("10"), None);
    assert_eq!(interval_to_millis("5x"), None);
    assert_eq!(interval_to_millis("5 m"), None);
    // a value that overflows a u64 is unparsable
    assert_eq!(interval_to_millis("99999999999999999999s"), None);
    // a parsable value whose product overflows saturates
    assert_eq!(interval_to_millis("18446744073709551615h"), Some(u64::MAX));
}

#[test]
fn order_tif_wire_names() {
    assert_eq!(OrderTif::Gtc.as_str(), "Gtc");
    assert_eq!(OrderTif::Ioc.as_str(), "Ioc");
    assert_eq!(OrderTif::Alo.as_str(), "Alo");
}

#[test]
fn intent_describe_joins_tag_asset_and_price() {
    let intent = OrderIntent {
        asset: "BTC".to_string(),
        side: OrderSide::Buy,
        size: "0.01".to_string(),
        limit_px: "12.006".to_string(),
        tif: OrderTif::Ioc,
        reduce_only: false,
        client_tag: "ma_cross_Long".to_string(),
        cloid: None,
    };
    assert_eq!(intent.describe(), "ma_cross_Long BTC 12.006");
    let limits = RiskLimits { max_position: FP };
    assert!(limits.allow(&intent));
}

#[test]
fn error_variants_carry_their_message() {
    let e = AppError::Config("bad".to_string());
    assert!(e.is_config());
    assert_eq!(e.message(), "bad");
    let e = AppError::Exchange("down".to_string());
    assert!(!e.is_config());
    assert_eq!(e.message(), "down");
}

#[test]
fn config_defaults_match_documented_values() {
    let t = TelemetryConfig::default();
    assert_eq!(t.log_level, "info");
    assert!(!t.json);
    let e = ExchangeConfig::default();
    assert_eq!(e.network, "mainnet");
    assert_eq!(e.rate_limit_per_minute, 600);
    assert!(e.signer_private_key.is_none());
    let p = PersistenceConfig::default();
    assert_eq!(p.snapshot_path, "data/snapshots");
    assert_eq!(p.journal_path, "data/journal.log");
    assert_eq!(p.snapshot_interval_secs, 30);
}
