use snivy::engine::{Engine, EngineStep, FeedMessage, FillStep};
use snivy::events::{CandleEvent, MarketEvent};
use snivy::ma_crossover::{MaCrossoverBuilder, MaCrossoverParams, MaCrossoverStrategy, SignalSide};
use snivy::orders::OrderSide;
use snivy::position_manager::{FillEvent, PositionManager};
use snivy::strategy::{EventOutcome, Strategy, StrategyResponse};

const FP: i64 = snivy::FP_ONE;

fn params() -> MaCrossoverParams {
    MaCrossoverParams {
        asset: "ETH".to_string(),
        short_window: 2,
        long_window: 3,
        trade_size: "0.01".to_string(),
        candle_interval: "1m".to_string(),
        slippage_bps: 5,
        max_position: 5_000_000,
        max_order_rate_per_min: 30,
        bootstrap_candles: 200,
    }
}

fn candle(asset: &str, close: i64, ts: i64) -> MarketEvent {
    MarketEvent::Candle(CandleEvent {
        asset: asset.to_string(),
        close,
        timestamp: ts,
        interval: "1m".to_string(),
    })
}

fn fill(asset: &str, price: i64, size: i64, is_buy: bool) -> FillEvent {
    FillEvent {
        asset: asset.to_string(),
        price,
        size,
        is_buy,
        cloid: None,
    }
}

fn ready_strategy(p: MaCrossoverParams) -> MaCrossoverStrategy {
    let mut s = MaCrossoverBuilder::build(p, None).expect("valid params");
    s.apply_bootstrap(&[]);
    s
}

fn acted(r: Result<EventOutcome, snivy::errors::AppError>) -> (StrategyResponse, bool) {
    match r.expect("no error") {
        EventOutcome::Acted(resp, persist) => (resp, persist),
        EventOutcome::NeedsBootstrap => panic!("unexpected bootstrap request"),
    }
}

#[test]
fn builder_rejects_short_not_less_than_long() {
    let mut p = params();
    p.short_window = 3;
    let err = MaCrossoverBuilder::build(p, None).err().expect("must fail");
    assert!(err.is_config());
    assert_eq!(err.message(), "short_window must be < long_window");
}

#[test]
fn builder_raises_low_bootstrap_candles() {
    let mut p = params();
    p.bootstrap_candles = 1;
    let s = MaCrossoverBuilder::build(p, None).unwrap();
    assert_eq!(s.params.bootstrap_candles, 6);
    assert_eq!(s.snapshot_key, "ma_crossover_ETH");
    assert!(!s.bootstrapped);
}

#[test]
fn crossover_emits_one_sell_then_stays_quiet() {
    let mut s = ready_strategy(params());
    let pm = PositionManager::new();
    let closes = [10, 10, 10, 12, 8, 12, 2];
    let mut out = Vec::new();
    for (i, c) in closes.iter().enumerate() {
        let ev = candle("ETH", c * FP, i as i64);
        let (resp, persist) = acted(s.on_event(&ev, &pm, 1_000 * i as u64));
        assert_eq!(resp.intents.len() > 0, persist);
        out.push(resp.intents);
    }
    // warm-up and the equal-means tick decide nothing
    assert!(out[0].is_empty() && out[1].is_empty() && out[2].is_empty());
    // short mean rises above the long mean: one buy, state goes Long
    assert_eq!(out[3].len(), 1);
    assert!(matches!(out[3][0].side, OrderSide::Buy));
    assert!(!out[3][0].reduce_only);
    assert_eq!(out[3][0].limit_px, "12.006");
    assert_eq!(out[3][0].client_tag, "ma_cross_Long");
    // equal means never trigger a transition
    assert!(out[4].is_empty());
    // the crossover to short<long emits exactly one sell at net zero
    assert_eq!(out[5].len(), 1);
    assert!(matches!(out[5][0].side, OrderSide::Sell));
    assert!(!out[5][0].reduce_only);
    assert_eq!(out[5][0].size, "0.01");
    assert_eq!(out[5][0].limit_px, "11.994");
    assert_eq!(out[5][0].client_tag, "ma_cross_Short");
    assert_eq!(s.last_signal, SignalSide::Short);
    // while short<long persists nothing is re-emitted
    assert!(out[6].is_empty());
}

#[test]
fn events_for_other_instruments_are_ignored() {
    let mut s = ready_strategy(params());
    let pm = PositionManager::new();
    let (resp, persist) = acted(s.on_event(&candle("BTC", 10 * FP, 0), &pm, 0));
    assert!(resp.intents.is_empty());
    assert!(!persist);
}

#[test]
fn unbootstrapped_strategy_asks_for_history() {
    let mut s = MaCrossoverBuilder::build(params(), None).unwrap();
    let pm = PositionManager::new();
    let r = s.on_event(&candle("ETH", 10 * FP, 0), &pm, 0).unwrap();
    assert!(matches!(r, EventOutcome::NeedsBootstrap));
    // short history is accepted: windows may stay partially filled
    s.apply_bootstrap(&[10 * FP, 10 * FP]);
    assert!(s.bootstrapped);
    assert_eq!(s.short_ma.values(), vec![10 * FP, 10 * FP]);
    assert_eq!(s.long_ma.values(), vec![10 * FP, 10 * FP]);
}

#[test]
fn position_cap_blocks_increasing_orders_only() {
    let mut p = params();
    p.short_window = 1;
    p.long_window = 2;
    p.max_position = 3;
    let mut s = ready_strategy(p.clone());
    let mut pm = PositionManager::new();
    pm.apply_fill(&fill("ETH", 10 * FP, 5, true));
    // a crossover to Long at net 5 >= cap 3: the buy is rejected
    acted(s.on_event(&candle("ETH", 10 * FP, 0), &pm, 0));
    let (resp, _) = acted(s.on_event(&candle("ETH", 12 * FP, 1), &pm, 1_000));
    assert!(resp.intents.is_empty());
    assert_eq!(s.last_signal, SignalSide::Flat);

    // the same crossover against a short position is reduce-only and
    // bypasses the cap
    let mut s = ready_strategy(p);
    let mut pm = PositionManager::new();
    pm.apply_fill(&fill("ETH", 10 * FP, 5, false));
    acted(s.on_event(&candle("ETH", 10 * FP, 0), &pm, 0));
    let (resp, _) = acted(s.on_event(&candle("ETH", 12 * FP, 1), &pm, 1_000));
    assert_eq!(resp.intents.len(), 1);
    assert!(resp.intents[0].reduce_only);
    assert!(matches!(resp.intents[0].side, OrderSide::Buy));
}

#[test]
fn rate_limited_signal_is_dropped_not_queued() {
    let mut p = params();
    p.short_window = 1;
    p.long_window = 2;
    p.max_order_rate_per_min = 1;
    let mut s = ready_strategy(p);
    let pm = PositionManager::new();
    acted(s.on_event(&candle("ETH", 10 * FP, 0), &pm, 0));
    // first crossover consumes the only permit of the minute
    let (resp, _) = acted(s.on_event(&candle("ETH", 12 * FP, 1), &pm, 1_000));
    assert_eq!(resp.intents.len(), 1);
    // a crossover back within the window is dropped, and the state keeps
    // its last acted-upon value
    let (resp, _) = acted(s.on_event(&candle("ETH", 2 * FP, 2), &pm, 2_000));
    assert!(resp.intents.is_empty());
    assert_eq!(s.last_signal, SignalSide::Long);
    // past the window the next crossover goes out
    let (resp, _) = acted(s.on_event(&candle("ETH", 1 * FP, 3), &pm, 62_000));
    assert_eq!(resp.intents.len(), 1);
    assert!(matches!(resp.intents[0].side, OrderSide::Sell));
}

#[test]
fn fill_resynchronizes_signal_with_net_position() {
    let mut s = ready_strategy(params());
    let mut pm = PositionManager::new();
    s.last_signal = SignalSide::Short;
    let f = fill("ETH", 10 * FP, 1, true);
    pm.apply_fill(&f);
    let (resp, persist) = acted(s.on_fill(&f, &pm));
    assert!(resp.intents.is_empty());
    assert!(persist);
    assert_eq!(s.last_signal, SignalSide::Long);
    // a fill that fully offsets the position drives the state to Flat,
    // whatever was last emitted
    let f2 = fill("ETH", 11 * FP, 1, false);
    pm.apply_fill(&f2);
    acted(s.on_fill(&f2, &pm));
    assert_eq!(s.last_signal, SignalSide::Flat);
}

#[test]
fn snapshot_round_trip_reproduces_decisions() {
    let mut a = ready_strategy(params());
    let pm = PositionManager::new();
    for (i, c) in [10, 10, 10, 12].iter().enumerate() {
        acted(a.on_event(&candle("ETH", c * FP, i as i64), &pm, 1_000 * i as u64));
    }
    let snap = a.build_snapshot();
    let mut b = MaCrossoverBuilder::build(params(), Some(&snap)).unwrap();
    assert!(b.bootstrapped);
    assert_eq!(b.short_ma.values(), a.short_ma.values());
    assert_eq!(b.long_ma.values(), a.long_ma.values());
    assert_eq!(b.last_signal, a.last_signal);
    // identical future events produce identical decisions
    for (i, c) in [8, 12, 7, 13].iter().enumerate() {
        let ev = candle("ETH", c * FP, 100 + i as i64);
        let now = 100_000 + 1_000 * i as u64;
        let (ra, pa) = acted(a.on_event(&ev, &pm, now));
        let (rb, pb) = acted(b.on_event(&ev, &pm, now));
        assert_eq!(pa, pb);
        assert_eq!(ra.intents.len(), rb.intents.len());
        for (ia, ib) in ra.intents.iter().zip(rb.intents.iter()) {
            assert_eq!(ia.describe(), ib.describe());
            assert_eq!(ia.reduce_only, ib.reduce_only);
            assert_eq!(ia.size, ib.size);
        }
    }
}

#[test]
fn engine_dispatches_market_messages() {
    let s = MaCrossoverBuilder::build(params(), None).unwrap();
    let mut engine = Engine::new(s, PositionManager::new());
    // lag is accepted data loss
    let step = engine.handle_market_event(&FeedMessage::Lagged(7), 0).unwrap();
    assert!(matches!(step, EngineStep::Continue(_, false)));
    // an event before warm-up asks for bootstrap history
    let msg = FeedMessage::Event(candle("ETH", 10 * FP, 0));
    let step = engine.handle_market_event(&msg, 0).unwrap();
    assert!(matches!(step, EngineStep::NeedsBootstrap));
    engine.bootstrap_strategy(&[10 * FP, 10 * FP, 10 * FP]);
    let step = engine.handle_market_event(&msg, 0).unwrap();
    match step {
        EngineStep::Continue(resp, _) => assert!(resp.intents.is_empty()),
        _ => panic!("expected a dispatch"),
    }
    // stream closure stops the run
    let step = engine.handle_market_event(&FeedMessage::Closed, 1).unwrap();
    assert!(matches!(step, EngineStep::Stop));
}

#[test]
fn engine_applies_fill_before_strategy_sees_it() {
    let s = ready_strategy(params());
    let mut engine = Engine::new(s, PositionManager::new());
    let f = fill("ETH", 10 * FP, 2, true);
    let step = engine.handle_fill(Some(&f)).unwrap();
    match step {
        FillStep::Applied(EventOutcome::Acted(resp, persist)) => {
            assert!(resp.intents.is_empty());
            assert!(persist);
        }
        _ => panic!("expected an applied fill"),
    }
    assert_eq!(engine.positions.net_position(&"ETH".to_string()), 2);
    // the strategy resynchronized against the post-fill net
    assert_eq!(engine.strategy.last_signal, SignalSide::Long);
    // a closed fill channel degrades the run without stopping it
    let step = engine.handle_fill(None).unwrap();
    assert!(matches!(step, FillStep::ChannelClosed));
}

#[test]
fn registry_knows_builtin_strategies() {
    let reg = snivy::registry::register_builtin_strategies();
    assert!(reg.contains(&"ma_crossover".to_string()));
    assert!(!reg.contains(&"mean_revert".to_string()));
    let err = snivy::registry::build(&reg, &"mean_revert".to_string(), params(), None)
        .err()
        .expect("unregistered id must fail");
    assert!(err.is_config());
    let s = snivy::registry::build(&reg, &"ma_crossover".to_string(), params(), None).unwrap();
    assert_eq!(s.params.asset, "ETH");
}

#[test]
fn storage_handles_remember_their_paths() {
    let store = snivy::storage::SnapshotStore::new("data/snapshots");
    assert_eq!(store.path, "data/snapshots");
    let journal = snivy::storage::Journal::new("data/journal.log");
    assert_eq!(journal.path, "data/journal.log");
}
