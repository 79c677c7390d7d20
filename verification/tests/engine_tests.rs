//! Engine scenarios: aggregation at boundaries, the event bus, positions
//! with stops and trailing, risk gates, and idempotent orders.

use rustro::aggregator::{BarAggregator, MultiBarAggregator, TickOutcome};
use rustro::bus::EventBus;
use rustro::events::{Event, EventPayload, EventType};
use rustro::orders::{OrderManager, RetryDecision, StartOutcome};
use rustro::positions::PositionManager;
use rustro::premarket::days_from_civil;
use rustro::risk::{RiskManager, VixAction};
use rustro::store::HybridBarStore;
use rustro::error::TradingError;
use rustro::orders::OrderValidator;
use rustro::store::TickBuffer;
use rustro::sync::{apply_expiry_filter, has_sufficient_data, identify_relevant_strikes,
    plan_cycle, ExpiryFilter, UnderlyingAsset};
use rustro::timeutil::Timeframe;
use rustro::types::{BrokerLimits, DteMultipliers, LotSizes, OptionType, Position,
    PositionStatus, Side, Tick, VixMultipliers};

fn ist_ms(y: i64, m: i64, d: i64, hh: i64, mm: i64, ss: i64) -> i64 {
    let day = days_from_civil(y, m, d);
    day * 86_400_000 + ((hh * 60 + mm) * 60 + ss) * 1000 - 19_800_000
}

fn tick_at(ts_ms: i64, price: i64, volume: i64) -> Tick {
    Tick {
        symbol: "NIFTY".to_string(),
        token: "99926000".to_string(),
        ltp: price,
        bid: price - 5,
        ask: price + 5,
        volume,
        timestamp_ms: ts_ms,
    }
}

fn bus() -> EventBus {
    EventBus::new("test_events.log".to_string())
}

fn make_position(id: &str, entry: i64, stop: i64, target: Option<i64>) -> Position {
    Position {
        position_id: id.to_string(),
        symbol: "NIFTY25JAN23550CE".to_string(),
        underlying: "NIFTY".to_string(),
        strike: 23_550,
        option_type: OptionType::CE,
        side: Side::Buy,
        quantity: 50,
        entry_price: entry,
        entry_time_ms: 1_700_000_000_000,
        underlying_entry: 2_354_750,
        stop_loss: stop,
        target,
        trailing_stop: None,
        trailing_active: false,
        current_price: entry,
        pnl: 0,
        pnl_pct: 0,
        status: PositionStatus::Open,
        entry_reason: "entry signal".to_string(),
        idempotency_key: "k1".to_string(),
    }
}

#[test]
fn hourly_boundary_crossing_emits_one_bar() {
    // Ticks at 10:59:58 and 11:00:02 IST: the first folds into the 10:00
    // bar, the second completes it and opens the 11:00 bar.
    let mut agg = BarAggregator::new("NIFTY".to_string(), Timeframe::OneHour);
    let mut store = HybridBarStore::new("NIFTY".to_string(), "1h".to_string(), 100);
    let mut bus = EventBus::new("events.log".to_string());

    let t1 = tick_at(ist_ms(2025, 1, 15, 10, 59, 58), 2_354_000, 100);
    let r1 = agg.process_tick(&mut store, &mut bus, &t1, "n1".to_string()).unwrap();
    assert!(matches!(r1, TickOutcome::StartedFirst));
    assert_eq!(store.total_count(), 0);
    assert_eq!(bus.log_len(), 0);

    let t2 = tick_at(ist_ms(2025, 1, 15, 11, 0, 2), 2_354_500, 50);
    let r2 = agg.process_tick(&mut store, &mut bus, &t2, "n2".to_string()).unwrap();
    match r2 {
        TickOutcome::Completed(bar) => {
            assert_eq!(bar.timestamp_ms, ist_ms(2025, 1, 15, 10, 0, 0));
            assert_eq!(bar.open, 2_354_000);
            assert_eq!(bar.close, 2_354_000);
            assert!(bar.bar_complete);
        },
        _ => panic!("expected a completed bar"),
    }
    // Exactly one bar appended and one BarReady published.
    assert_eq!(store.total_count(), 1);
    assert_eq!(bus.log_len(), 1);
    let event = bus.get_event(0);
    assert!(matches!(event.event_type, EventType::BarReady));

    // The new partial opened from the second tick.
    let partial = agg.get_current_bar().unwrap();
    assert_eq!(partial.timestamp_ms, ist_ms(2025, 1, 15, 11, 0, 0));
    assert_eq!(partial.open, 2_354_500);
}

#[test]
fn finalize_without_partial_is_no_op() {
    let mut agg = BarAggregator::new("NIFTY".to_string(), Timeframe::OneHour);
    let mut store = HybridBarStore::new("NIFTY".to_string(), "1h".to_string(), 100);
    let mut bus = EventBus::new("events.log".to_string());

    let r = agg.finalize_current_bar(&mut store, &mut bus, 1_700_000_000_000,
        "n1".to_string()).unwrap();
    assert!(r.is_none());
    assert_eq!(store.total_count(), 0);
    assert_eq!(bus.log_len(), 0);
}

#[test]
fn recent_bars_are_the_newest_in_order() {
    let mut store = HybridBarStore::new("NIFTY".to_string(), "1h".to_string(), 3);
    for i in 0..10i64 {
        let bar = rustro::types::Bar {
            timestamp_ms: 1_700_000_000_000 + i * 3_600_000,
            open: 100 + i,
            high: 110 + i,
            low: 90 + i,
            close: 105 + i,
            volume: 10,
            bar_complete: true,
        };
        store.append(bar).unwrap();
    }
    // The window is bounded, yet recent(5) still reaches past it.
    let recent = store.get_recent(5);
    assert_eq!(recent.len(), 5);
    for (k, bar) in recent.iter().enumerate() {
        assert_eq!(bar.close, 105 + 5 + k as i64);
    }
}

fn config_loaded_event(key: &str) -> Event {
    Event {
        event_type: EventType::ConfigLoaded,
        timestamp_ms: 1_700_000_000_000,
        idempotency_key: key.to_string(),
        payload: EventPayload::ConfigLoaded {
            config_hash: "test".to_string(),
            data_paths: vec![],
        },
    }
}

#[test]
fn test_event_bus_publish_subscribe() {
    let mut bus = EventBus::new("test_events.jsonl".to_string());
    bus.subscribe(EventType::ConfigLoaded, 0);

    bus.publish(config_loaded_event("test")).unwrap();

    // Draining the queue names the subscribed handler for the event.
    let (idx, handlers) = bus.next_event().unwrap();
    assert_eq!(handlers, vec![0]);
    let event = bus.get_event(idx);
    assert!(matches!(event.event_type, EventType::ConfigLoaded));
    let was_called = handlers.contains(&0);
    assert!(was_called);
}

#[test]
fn test_idempotency() {
    let mut bus = EventBus::new("test_idempotency.jsonl".to_string());

    let result1 = bus.publish(config_loaded_event("test"));
    assert!(result1.is_ok());

    let result2 = bus.publish(config_loaded_event("test"));
    assert!(result2.is_err());

    // The duplicate was neither logged nor queued.
    assert_eq!(bus.log_len(), 1);
    let first = bus.next_event();
    assert!(first.is_some());
    assert!(bus.next_event().is_none());
}

#[test]
fn stop_loss_exit_fires_first() {
    // Entry 100.00, stop 70.00: a drop to 69.50 exits with the stop.
    let mut pm = PositionManager::new(true, 1_000, 500);
    let mut b = bus();
    pm.open_position(make_position("p1", 10_000, 7_000, None), &mut b, 0, "n0".to_string())
        .unwrap();

    let exit = pm.update_position("p1", 6_950, &mut b, 1, "n1".to_string()).unwrap();
    assert_eq!(exit.as_deref(), Some("STOP_LOSS"));
    // The stop publishes its event.
    let last = b.get_event(b.log_len() - 1);
    assert!(matches!(last.event_type, EventType::StopLossTriggered));

    let idx = pm
        .close_position("p1", 6_950, "STOP_LOSS".to_string(), "t1".to_string(), &mut b,
            1_700_000_100_000, "n2".to_string())
        .unwrap();
    let trade = pm.get_trade(idx);
    assert_eq!(trade.pnl_gross, (6_950 - 10_000) * 50);
    assert_eq!(pm.get_daily_pnl(), trade.pnl_net);
    let last = b.get_event(b.log_len() - 1);
    assert!(matches!(last.event_type, EventType::PositionClosed));
}

#[test]
fn trailing_stop_ratchets_and_exits() {
    // Activation at +10%, gap 5%: 105 no trail, 110 activates at 104.50,
    // 120 ratchets to 114.00, 118 holds, 113.90 exits.
    let mut pm = PositionManager::new(true, 1_000, 500);
    let mut b = bus();
    pm.open_position(make_position("p1", 10_000, 1, None), &mut b, 0, "n0".to_string())
        .unwrap();

    assert_eq!(pm.update_position("p1", 10_500, &mut b, 1, "n1".to_string()).unwrap(), None);
    assert!(!pm.get_position("p1").unwrap().trailing_active);

    assert_eq!(pm.update_position("p1", 11_000, &mut b, 2, "n2".to_string()).unwrap(), None);
    let pos = pm.get_position("p1").unwrap();
    assert!(pos.trailing_active);
    assert_eq!(pos.trailing_stop, Some(10_450));
    // Activation published its event before the routine update.
    let act = b.get_event(b.log_len() - 2);
    assert!(matches!(act.event_type, EventType::TrailingStopActivated));

    assert_eq!(pm.update_position("p1", 12_000, &mut b, 3, "n3".to_string()).unwrap(), None);
    assert_eq!(pm.get_position("p1").unwrap().trailing_stop, Some(11_400));
    let upd = b.get_event(b.log_len() - 2);
    assert!(matches!(upd.event_type, EventType::TrailingStopUpdated));

    assert_eq!(pm.update_position("p1", 11_800, &mut b, 4, "n4".to_string()).unwrap(), None);
    assert_eq!(pm.get_position("p1").unwrap().trailing_stop, Some(11_400));

    let exit = pm.update_position("p1", 11_390, &mut b, 5, "n5".to_string()).unwrap();
    assert_eq!(exit.as_deref(), Some("TRAILING_STOP"));
}

#[test]
fn target_exit_fires() {
    let mut pm = PositionManager::new(false, 1_000, 500);
    let mut b = bus();
    pm.open_position(make_position("p1", 10_000, 7_000, Some(13_000)), &mut b, 0,
        "n0".to_string()).unwrap();

    assert_eq!(pm.update_position("p1", 12_000, &mut b, 1, "n1".to_string()).unwrap(), None);
    let exit = pm.update_position("p1", 13_100, &mut b, 2, "n2".to_string()).unwrap();
    assert_eq!(exit.as_deref(), Some("TARGET"));
    let last = b.get_event(b.log_len() - 1);
    assert!(matches!(last.event_type, EventType::TargetReached));
}

#[test]
fn eod_flatten_sums_daily_pnl() {
    // Two open positions flattened at EOD: two trades, and the daily PnL
    // is the sum of their net PnL.
    let mut pm = PositionManager::new(false, 1_000, 500);
    let mut b = bus();
    pm.open_position(make_position("p1", 10_000, 1, None), &mut b, 0, "n0".to_string())
        .unwrap();
    pm.open_position(make_position("p2", 20_000, 1, None), &mut b, 0, "n1".to_string())
        .unwrap();
    pm.update_position("p1", 10_500, &mut b, 1, "n2".to_string()).unwrap();
    pm.update_position("p2", 19_000, &mut b, 2, "n3".to_string()).unwrap();

    let log_before = b.log_len();
    let closed = pm.close_all_positions("EOD_MANDATORY_EXIT", &mut b, 1_700_000_200_000,
        "n4".to_string()).unwrap();
    // One close record per position.
    assert_eq!(b.log_len(), log_before + 2);
    assert!(matches!(b.get_event(log_before).event_type, EventType::PositionClosed));
    assert_eq!(closed, 2);
    assert_eq!(pm.get_open_positions().len(), 0);
    assert_eq!(pm.trades_len(), 2);

    let sum = pm.get_trade(0).pnl_net + pm.get_trade(1).pnl_net;
    assert_eq!(pm.get_daily_pnl(), sum);
    assert_eq!(pm.get_trade(0).exit_reason, "EOD_MANDATORY_EXIT");
}

#[test]
fn duplicate_position_rejected() {
    let mut pm = PositionManager::new(false, 1_000, 500);
    let mut b = bus();
    pm.open_position(make_position("p1", 10_000, 7_000, None), &mut b, 0, "n0".to_string())
        .unwrap();
    assert!(pm.open_position(make_position("p1", 10_000, 7_000, None), &mut b, 0,
        "n1".to_string()).is_err());
}

fn make_risk() -> RiskManager {
    RiskManager::new(
        2_500,
        2_000,
        300,
        3,
        2,
        1_000,
        VixMultipliers {
            vix_12_or_below: 12_000,
            vix_20: 10_000,
            vix_30: 6_000,
            vix_30_or_above: 4_000,
        },
        DteMultipliers { gte_5_days: 10_000, days_2_to_4: 8_000, day_1: 5_000 },
        1_000_000,
    )
}

#[test]
fn vix_breaker_hysteresis() {
    // Rising through the band leaves the breaker off until the spike
    // threshold; falling leaves it on until below the resume threshold.
    let mut risk = make_risk();
    let mut b = bus();
    let ids = vec!["p1".to_string()];
    assert_eq!(risk.update_vix(1_800, &ids, &mut b, 0, "n0".to_string()),
        VixAction::NoChange);
    assert_eq!(risk.update_vix(2_200, &ids, &mut b, 1, "n1".to_string()),
        VixAction::NoChange);
    assert!(!risk.is_circuit_breaker_active());
    let log_before = b.log_len();
    assert_eq!(risk.update_vix(3_200, &ids, &mut b, 2, "n2".to_string()),
        VixAction::SpikeTriggered);
    assert!(risk.is_circuit_breaker_active());
    // The spike published VixDataReceived, VixSpike, then one mandatory
    // exit signal per open position.
    assert_eq!(b.log_len(), log_before + 3);
    assert!(matches!(b.get_event(log_before + 1).event_type, EventType::VixSpike));
    assert!(matches!(b.get_event(log_before + 2).event_type,
        EventType::ExitSignalGenerated));
    assert_eq!(risk.update_vix(2_300, &ids, &mut b, 3, "n3".to_string()),
        VixAction::NoChange);
    assert!(risk.is_circuit_breaker_active());
    assert_eq!(risk.update_vix(1_900, &ids, &mut b, 4, "n4".to_string()),
        VixAction::Resumed);
    assert!(!risk.is_circuit_breaker_active());
    let last = b.get_event(b.log_len() - 1);
    assert!(matches!(last.event_type, EventType::VixNormalResumed));
}

#[test]
fn vix_spike_blocks_entries() {
    let mut risk = make_risk();
    let mut b = bus();
    let ids: Vec<String> = vec![];
    risk.update_vix(3_200, &ids, &mut b, 0, "n0".to_string());
    assert!(risk.pre_entry_risk_check(0, 0, &mut b, 1, "n1".to_string()).is_err());
    risk.update_vix(1_900, &ids, &mut b, 2, "n2".to_string());
    assert!(risk.pre_entry_risk_check(0, 0, &mut b, 3, "n3".to_string()).is_ok());
    let last = b.get_event(b.log_len() - 1);
    assert!(matches!(last.event_type, EventType::RiskCheckPassed));
}

#[test]
fn daily_loss_limit_blocks_entries() {
    let risk = make_risk();
    let mut b = bus();
    let ids = vec!["p1".to_string(), "p2".to_string()];
    // Capital 1,000,000 with a 3% limit: a 40,000 loss breaches it.
    assert!(!risk.check_daily_loss_limit(-20_000, &ids, &mut b, 0, "n0".to_string()));
    assert_eq!(b.log_len(), 0);
    assert!(risk.check_daily_loss_limit(-40_000, &ids, &mut b, 1, "n1".to_string()));
    // The breach record plus one mandatory exit per position.
    assert_eq!(b.log_len(), 3);
    assert!(matches!(b.get_event(0).event_type, EventType::DailyLossLimitBreached));
    assert!(risk.pre_entry_risk_check(-40_000, 0, &mut b, 2, "n2".to_string()).is_err());
}

#[test]
fn consecutive_losses_cap_entries() {
    let mut risk = make_risk();
    assert!(!risk.check_consecutive_losses(false));
    assert!(!risk.check_consecutive_losses(false));
    assert!(risk.check_consecutive_losses(false));
    let mut b = bus();
    assert!(risk.pre_entry_risk_check(0, 0, &mut b, 0, "n0".to_string()).is_err());
    assert!(!risk.check_consecutive_losses(true));
    assert!(risk.pre_entry_risk_check(0, 0, &mut b, 1, "n1".to_string()).is_ok());
}

#[test]
fn position_size_is_whole_lots() {
    let risk = make_risk();
    let qty = risk.calculate_position_size(1_000_000, 1_800, 5, 50);
    assert!(qty >= 50);
    assert_eq!(qty % 50, 0);
    // The lot size is the instrument's: BANKNIFTY's lot of 15 gives a
    // multiple of 15.
    let qty_bn = risk.calculate_position_size(1_000_000, 1_800, 5, 15);
    assert_eq!(qty_bn % 15, 0);
    // Low VIX and long expiry size at the full base: 10% of capital,
    // floored to a lot.
    let qty_low_vix = risk.calculate_position_size(1_000_000, 1_000, 6, 50);
    assert_eq!(qty_low_vix, 120_000 / 50 * 50);
}

#[test]
fn position_size_floors_the_real_product_once() {
    let risk = RiskManager::new(
        4_500,
        2_000,
        300,
        3,
        5,
        100,
        VixMultipliers {
            vix_12_or_below: 100_000,
            vix_20: 100_000,
            vix_30: 100_000,
            vix_30_or_above: 100_000,
        },
        DteMultipliers { gte_5_days: 10_000, days_2_to_4: 7_000, day_1: 5_000 },
        1_000_000,
    );
    // 999 rupees at 1% and a x10 multiplier is 99.9: flooring the real
    // product once gives 99 lots of one, not the 90 of staged flooring.
    assert_eq!(risk.calculate_position_size(999, 1_000, 5, 1), 99);
}

#[test]
fn duplicate_order_intent_returns_same_id() {
    // The same idempotency key placed twice reaches the broker once and
    // returns the same order id.
    let mut om = OrderManager::new(vec![25, 50, 100], 3, vec![1, 2, 4]);
    let mut b = bus();

    let r1 = om.place_order_start("NIFTY25JAN23550CE".to_string(), Side::Buy, 50, 10_000,
        "key-1".to_string(), "order-1".to_string(), &mut b, 1_700_000_000_000,
        "n0".to_string());
    assert!(matches!(r1, StartOutcome::Proceed));
    assert!(matches!(b.get_event(b.log_len() - 1).event_type,
        EventType::OrderIntentCreated));

    // The caller performed one broker call and it succeeded.
    om.record_attempt_success("order-1", "broker-77".to_string(), 0, &mut b,
        1_700_000_001_000, "n1".to_string()).unwrap();
    assert!(matches!(b.get_event(b.log_len() - 1).event_type, EventType::OrderPlaced));

    let r2 = om.place_order_start("NIFTY25JAN23550CE".to_string(), Side::Buy, 50, 10_000,
        "key-1".to_string(), "order-2".to_string(), &mut b, 1_700_000_002_000,
        "n2".to_string());
    match r2 {
        StartOutcome::Existing(id) => assert_eq!(id, "order-1"),
        _ => panic!("expected the recorded order id"),
    }
    // No second order was created for the replayed intent.
    let order = om.get_order("order-2");
    assert!(order.is_none());
}

#[test]
fn order_retry_ladder_walks_price_then_fails() {
    let mut om = OrderManager::new(vec![25, 50, 100], 2, vec![1, 2]);
    let mut b = bus();
    let r = om.place_order_start("NIFTY25JAN23550CE".to_string(), Side::Buy, 50, 10_000,
        "key-2".to_string(), "order-9".to_string(), &mut b, 0, "n0".to_string());
    assert!(matches!(r, StartOutcome::Proceed));

    assert_eq!(om.next_attempt_price(10_000, 0), 10_000);
    assert_eq!(om.next_attempt_price(10_000, 1), 10_025);
    assert_eq!(om.next_attempt_price(10_000, 2), 10_050);

    // The retry decisions carry the scheduled backoffs exactly.
    assert!(matches!(om.record_attempt_failure("order-9", 0, &mut b, 1, "n1".to_string()),
        RetryDecision::Retry(1)));
    assert!(matches!(b.get_event(b.log_len() - 1).event_type, EventType::OrderRetrying));
    assert!(matches!(om.record_attempt_failure("order-9", 1, &mut b, 2, "n2".to_string()),
        RetryDecision::Retry(2)));
    assert!(matches!(om.record_attempt_failure("order-9", 2, &mut b, 3, "n3".to_string()),
        RetryDecision::GiveUp));
    assert!(matches!(b.get_event(b.log_len() - 1).event_type, EventType::OrderFailed));
    // Past the schedule the fallback backoff is eight seconds.
    assert_eq!(om.backoff_for(3), 8);

    let order = om.get_order("order-9").unwrap();
    assert!(matches!(order.status, rustro::types::OrderStatus::Filled)
        == false);
}

#[test]
fn fan_out_routes_by_symbol_or_token() {
    let mut multi = MultiBarAggregator::new();
    multi.add_aggregator("NIFTY".to_string(), Timeframe::OneHour, 100);
    multi.add_aggregator("99926000".to_string(), Timeframe::OneHour, 100);
    multi.add_aggregator("BANKNIFTY".to_string(), Timeframe::OneHour, 100);
    let mut b = bus();
    // The tick matches the first lane by symbol and the second by token.
    let t = tick_at(ist_ms(2025, 1, 15, 10, 30, 0), 2_354_000, 10);
    let routed = multi.process_tick(&mut b, &t, "n0".to_string()).unwrap();
    assert_eq!(routed, 2);
    let finalized = multi.finalize_all(&mut b, ist_ms(2025, 1, 15, 15, 30, 0),
        "n1".to_string()).unwrap();
    assert_eq!(finalized, 3);
    // The two touched lanes completed a bar each.
    assert_eq!(b.log_len(), 2);
}

#[test]
fn sync_planning_decisions() {
    assert!(has_sufficient_data(20, 20, 14, 14));
    assert!(!has_sufficient_data(10, 20, 14, 14));

    let assets = UnderlyingAsset::all();
    assert_eq!(assets.len(), 3);
    assert_eq!(assets[0].as_str(), "NIFTY");
    assert_eq!(UnderlyingAsset::BankNifty.strike_increment(), 100);
    assert_eq!(UnderlyingAsset::FinNifty.lot_size(), 40);

    let mk = |strike: i64, symbol: &str| rustro::types::Instrument {
        token: "1".to_string(),
        symbol: symbol.to_string(),
        name: "NIFTY".to_string(),
        expiry: "16JAN2025".to_string(),
        strike,
        lotsize: 50,
        instrument_type: "OPTIDX".to_string(),
        exch_seg: "NFO".to_string(),
        tick_size: 5,
    };
    let instruments = vec![
        mk(2_360_000, "NIFTY23600CE"),
        mk(2_350_000, "NIFTY23500CE"),
        mk(2_990_000, "NIFTY29900CE"),
        mk(2_355_000, "NIFTY23550PE"),
    ];
    // Around an ATM near 23,550 with a 200-rupee range, the far strike
    // falls out and the rest come back ordered.
    let strikes = identify_relevant_strikes(&instruments, "NIFTY", 2_354_750, 50, 200, 9);
    assert_eq!(strikes.len(), 3);
    assert!(strikes[0].strike <= strikes[1].strike && strikes[1].strike <= strikes[2].strike);

    // 9:31 IST with daily analysis pending: run it; EOD not yet.
    let now = ist_ms(2025, 1, 15, 9, 31, 0);
    let plan = plan_cycle(now, false, None);
    assert!(plan.run_daily_analysis);
    assert!(!plan.run_eod_exit);
    let plan_done = plan_cycle(now, true, None);
    assert!(!plan_done.run_daily_analysis);
    let eod = plan_cycle(ist_ms(2025, 1, 15, 15, 21, 0), true, None);
    assert!(eod.run_eod_exit);
}

#[test]
fn expiry_filter_keeps_nearest() {
    let mk = |expiry: &str| rustro::types::Instrument {
        token: "1".to_string(),
        symbol: "NIFTY23500CE".to_string(),
        name: "NIFTY".to_string(),
        expiry: expiry.to_string(),
        strike: 2_350_000,
        lotsize: 50,
        instrument_type: "OPTIDX".to_string(),
        exch_seg: "NFO".to_string(),
        tick_size: 5,
    };
    let options = vec![mk("16JAN2025"), mk("23JAN2025"), mk("30JAN2025")];
    let today = days_from_civil(2025, 1, 10);
    let weekly = apply_expiry_filter(options.clone(), ExpiryFilter::NearestWeekly, today);
    assert!(weekly.iter().all(|o| o.expiry == "16JAN2025"));
    assert_eq!(weekly.len(), 1);
    let monthly = apply_expiry_filter(options.clone(), ExpiryFilter::NearestMonthly, today);
    assert!(monthly.iter().all(|o| o.expiry == "30JAN2025"));
    let all = apply_expiry_filter(options, ExpiryFilter::AllActive, today);
    assert_eq!(all.len(), 3);
}

#[test]
fn tick_buffer_evicts_oldest() {
    let mut buffer = TickBuffer::new(2);
    buffer.push(tick_at(1, 100, 1));
    buffer.push(tick_at(2, 200, 1));
    buffer.push(tick_at(3, 300, 1));
    let all = buffer.get_all("NIFTY");
    assert_eq!(all.len(), 2);
    assert_eq!(all[0].ltp, 200);
    assert_eq!(all[1].ltp, 300);
    assert_eq!(buffer.get_last("NIFTY").unwrap().ltp, 300);
    buffer.clear("NIFTY");
    assert!(buffer.get_all("NIFTY").is_empty());
}

#[test]
fn validator_error_variants() {
    let cfg = crate_test_config();
    let validator = OrderValidator::new(cfg);
    assert!(matches!(validator.check_freeze_quantity(40_000, "NIFTY"),
        Err(TradingError::FreezeQuantityBreach(_))));
    assert!(validator.check_freeze_quantity(1_800, "NIFTY").is_ok());
    assert!(matches!(validator.check_positive_quantity(0),
        Err(TradingError::InvalidParameter(_))));
    assert!(matches!(validator.check_positive_price(0),
        Err(TradingError::InvalidParameter(_))));
    assert!(matches!(validator.check_margin(100, 10_000, 100),
        Err(TradingError::InsufficientMargin(_))));
    assert!(validator.check_margin(100, 10_000, 2_000_000).is_ok());
}

fn crate_test_config() -> rustro::types::Config {
    rustro::types::Config {
        entry_window_start: "10:00:00".to_string(),
        entry_window_end: "15:00:00".to_string(),
        eod_exit_time: "15:20:00".to_string(),
        market_close_time: "15:30:00".to_string(),
        bar_ready_grace_sec: 30,
        option_stop_loss_pct: 3000,
        trail_activate_pnl_pct: 1000,
        trail_gap_pct: 500,
        max_positions: 2,
        daily_loss_limit_pct: 300,
        consecutive_loss_limit: 3,
        vix_threshold: 2200,
        vix_spike_threshold: 2500,
        vix_resume_threshold: 2000,
        base_position_size_pct: 1000,
        vix_mult_anchors: VixMultipliers {
            vix_12_or_below: 12_000,
            vix_20: 10_000,
            vix_30: 6_000,
            vix_30_or_above: 4_000,
        },
        dte_mult: DteMultipliers { gte_5_days: 10_000, days_2_to_4: 8_000, day_1: 5_000 },
        order_retry_steps_pct: vec![25, 50, 100],
        order_max_retries: 3,
        order_retry_backoffs_sec: vec![1, 2, 4],
        retry_cap_sec: 8,
        token_expiry_warning_min: 30,
        token_grace_to_flatten_sec: 300,
        token_check_interval_sec: 60,
        data_gap_threshold_sec: 120,
        data_gap_check_interval_sec: 30,
        recovery_timeout_sec: 300,
        freeze_quantity: BrokerLimits { nifty: 36_000, banknifty: 24_000, finnifty: 36_000 },
        lot_size: LotSizes { nifty: 50, banknifty: 15, finnifty: 40 },
        tick_size: 5,
        price_band_pct: 200_000,
        rate_limit_orders: 10,
        rate_limit_market_data: 10,
        rate_limit_historical: 3,
        ws_ping_interval_sec: 30,
        ws_pong_timeout_sec: 10,
        ws_reconnect_backoff_sec: vec![1, 2, 4, 8, 16],
        ws_max_reconnects_per_minute: 5,
        daily_adx_period: 14,
        daily_adx_threshold: 2000,
        hourly_adx_period: 14,
        hourly_adx_threshold: 2000,
        rsi_period: 14,
        rsi_oversold: 3000,
        rsi_overbought: 7000,
        ema_period: 20,
        strike_increment: 50,
        initial_strike_range: 200,
        strike_subscription_count: 9,
        strategy_invalidate_on_recompute: false,
        use_trailing_stop: true,
        use_underlying_soft_check: false,
        enable_paper_trading: true,
        log_level: "info".to_string(),
        log_rotation: "daily".to_string(),
        log_retention_days: 7,
        audit_trail_enabled: true,
        angel_one_client_code: "SECRET-REDACTED".to_string(),
        angel_one_password: "SECRET-REDACTED".to_string(),
        angel_one_mpin: None,
        angel_one_totp_secret: "SECRET-REDACTED".to_string(),
        angel_one_api_key: "SECRET-REDACTED".to_string(),
        angel_one_secret_key: "SECRET-REDACTED".to_string(),
    }
}

#[test]
fn mark_executed_fills_order() {
    let mut om = OrderManager::new(vec![], 0, vec![]);
    let mut b = bus();
    om.place_order_start("SYM".to_string(), Side::Buy, 50, 10_000, "k".to_string(),
        "o1".to_string(), &mut b, 0, "n0".to_string());
    om.record_attempt_success("o1", "b1".to_string(), 0, &mut b, 1, "n1".to_string())
        .unwrap();
    om.mark_executed("o1", 10_050, 50, &mut b, 2, "n2".to_string()).unwrap();
    let order = om.get_order("o1").unwrap();
    assert!(matches!(order.status, rustro::types::OrderStatus::Filled));
    assert_eq!(order.fill_price, Some(10_050));
    assert!(matches!(b.get_event(b.log_len() - 1).event_type, EventType::OrderExecuted));
    // The success recorded the attempt it happened on.
    assert_eq!(order.attempts, 0);
}
