//! Ports of the component-level tests: indicators, aggregation, storage,
//! extraction, validation, session timing and utilities.

use rustro::aggregator::PartialBar;
use rustro::holidays;
use rustro::indicators::{calculate_ema, calculate_rsi, round_to_strike};
use rustro::premarket::{atm_strike_for, days_from_civil, TokenExtractor};
use rustro::store::HybridBarStore;
use rustro::strategy::{BiasDirection, DailyBiasCalculator, HourlyCrossoverMonitor};
use rustro::timeutil::{is_in_entry_window, is_market_open, Timeframe};
use rustro::types::{Bar, Config, Instrument, BrokerLimits, LotSizes, VixMultipliers,
    DteMultipliers};
use rustro::util::{generate_idempotency_key, PaperTradingBroker, RateLimiter};
use rustro::types::{OrderType, Side};
use rustro::orders::OrderValidator;

fn make_test_bars(count: usize) -> Vec<Bar> {
    (0..count)
        .map(|i| Bar {
            timestamp_ms: 1_700_000_000_000 + i as i64 * 3_600_000,
            open: 1_900_000 + i as i64 * 1000,
            high: 1_910_000 + i as i64 * 1000,
            low: 1_890_000 + i as i64 * 1000,
            close: 1_905_000 + i as i64 * 1000,
            volume: 1_000_000,
            bar_complete: true,
        })
        .collect()
}

fn make_test_config() -> Config {
    Config {
        entry_window_start: "10:00:00".to_string(),
        entry_window_end: "15:00:00".to_string(),
        eod_exit_time: "15:20:00".to_string(),
        market_close_time: "15:30:00".to_string(),
        bar_ready_grace_sec: 30,
        option_stop_loss_pct: 3000,
        trail_activate_pnl_pct: 1000,
        trail_gap_pct: 500,
        max_positions: 2,
        daily_loss_limit_pct: 300,
        consecutive_loss_limit: 3,
        vix_threshold: 2200,
        vix_spike_threshold: 2500,
        vix_resume_threshold: 2000,
        base_position_size_pct: 1000,
        vix_mult_anchors: VixMultipliers {
            vix_12_or_below: 12_000,
            vix_20: 10_000,
            vix_30: 6_000,
            vix_30_or_above: 4_000,
        },
        dte_mult: DteMultipliers { gte_5_days: 10_000, days_2_to_4: 8_000, day_1: 5_000 },
        order_retry_steps_pct: vec![25, 50, 100],
        order_max_retries: 3,
        order_retry_backoffs_sec: vec![1, 2, 4],
        retry_cap_sec: 8,
        token_expiry_warning_min: 30,
        token_grace_to_flatten_sec: 300,
        token_check_interval_sec: 60,
        data_gap_threshold_sec: 120,
        data_gap_check_interval_sec: 30,
        recovery_timeout_sec: 300,
        freeze_quantity: BrokerLimits { nifty: 36_000, banknifty: 24_000, finnifty: 36_000 },
        lot_size: LotSizes { nifty: 50, banknifty: 15, finnifty: 40 },
        tick_size: 5,
        price_band_pct: 200_000,
        rate_limit_orders: 10,
        rate_limit_market_data: 10,
        rate_limit_historical: 3,
        ws_ping_interval_sec: 30,
        ws_pong_timeout_sec: 10,
        ws_reconnect_backoff_sec: vec![1, 2, 4, 8, 16],
        ws_max_reconnects_per_minute: 5,
        daily_adx_period: 14,
        daily_adx_threshold: 2000,
        hourly_adx_period: 14,
        hourly_adx_threshold: 2000,
        rsi_period: 14,
        rsi_oversold: 3000,
        rsi_overbought: 7000,
        ema_period: 20,
        strike_increment: 50,
        initial_strike_range: 200,
        strike_subscription_count: 9,
        strategy_invalidate_on_recompute: false,
        use_trailing_stop: true,
        use_underlying_soft_check: false,
        enable_paper_trading: true,
        log_level: "info".to_string(),
        log_rotation: "daily".to_string(),
        log_retention_days: 7,
        audit_trail_enabled: true,
        angel_one_client_code: "SECRET-REDACTED".to_string(),
        angel_one_password: "SECRET-REDACTED".to_string(),
        angel_one_mpin: None,
        angel_one_totp_secret: "SECRET-REDACTED".to_string(),
        angel_one_api_key: "SECRET-REDACTED".to_string(),
        angel_one_secret_key: "SECRET-REDACTED".to_string(),
    }
}

fn make_test_instruments() -> Vec<Instrument> {
    vec![
        Instrument {
            token: "99926000".to_string(),
            symbol: "NIFTY 50".to_string(),
            name: "NIFTY".to_string(),
            expiry: "".to_string(),
            strike: 0,
            lotsize: 50,
            instrument_type: "INDEX".to_string(),
            exch_seg: "NSE".to_string(),
            tick_size: 5,
        },
        Instrument {
            token: "12345".to_string(),
            symbol: "NIFTY23DEC2350000CE".to_string(),
            name: "NIFTY".to_string(),
            expiry: "28DEC2023".to_string(),
            strike: 2_350_000,
            lotsize: 50,
            instrument_type: "OPTIDX".to_string(),
            exch_seg: "NFO".to_string(),
            tick_size: 5,
        },
    ]
}

#[test]
fn test_rsi() {
    let bars = make_test_bars(30);
    let rsi = calculate_rsi(&bars, 14);
    assert!(rsi.is_some());
    let rsi_val = rsi.unwrap();
    assert!(rsi_val >= 0 && rsi_val <= 10_000);
}

#[test]
fn test_ema() {
    let bars = make_test_bars(30);
    let ema = calculate_ema(&bars, 20);
    assert!(ema.is_some());
}

#[test]
fn test_round_to_strike() {
    assert_eq!(round_to_strike(1_934_500, 50), 19_300);
    assert_eq!(round_to_strike(1_937_500, 50), 19_350);
    assert_eq!(round_to_strike(1_939_999, 50), 19_350);
}

#[test]
fn test_timeframe_boundary() {
    let time_ms: i64 = 1_736_932_800_123;
    let boundary = Timeframe::FiveMinute.get_bar_boundary(time_ms);
    // Rounded to a five-minute boundary: whole minutes, minute multiple
    // of five (the IST offset is itself a multiple of five minutes).
    assert_eq!(boundary % 300_000, 0);
    assert!(boundary <= time_ms);
}

#[test]
fn test_partial_bar_update() {
    let mut bar = PartialBar::new(1_700_000_000_000, 10_000, 1000);

    bar.update(10_200, 500);
    assert_eq!(bar.high, 10_200);
    assert_eq!(bar.close, 10_200);

    bar.update(9_800, 300);
    assert_eq!(bar.low, 9_800);
    assert_eq!(bar.close, 9_800);
    assert_eq!(bar.volume, 1_800);
}

#[test]
fn test_hybrid_bar_store() {
    let mut store = HybridBarStore::new("NIFTY".to_string(), "1h".to_string(), 100);

    for i in 0..150i64 {
        let bar = Bar {
            timestamp_ms: 1_700_000_000_000 + i * 3_600_000,
            open: 1_900_000 + i * 100,
            high: 1_910_000 + i * 100,
            low: 1_890_000 + i * 100,
            close: 1_905_000 + i * 100,
            volume: 1_000_000,
            bar_complete: true,
        };
        store.append(bar).unwrap();
    }

    assert_eq!(store.memory_count(), 100);
    assert_eq!(store.total_count(), 150);

    let recent = store.get_recent(50);
    assert_eq!(recent.len(), 50);

    let last = store.get_last().unwrap();
    assert_eq!(last.close, 1_905_000 + 149 * 100);
}

#[test]
fn test_extract_spot_token() {
    let extractor = TokenExtractor::new(make_test_instruments());
    let (token, _symbol) = extractor.find_spot_token("NIFTY");
    assert!(token.is_some());
    assert_eq!(token.unwrap(), "99926000");
}

#[test]
fn test_extract_options() {
    let extractor = TokenExtractor::new(make_test_instruments());
    let options = extractor.find_options("NIFTY");
    assert_eq!(options.len(), 1);
    assert_eq!(options[0].strike, 2_350_000);
    assert_eq!(options[0].option_type, "CE");
}

#[test]
fn test_lot_size_validation() {
    let validator = OrderValidator::new(make_test_config());
    assert!(validator.check_lot_size(50, 50).is_ok());
    assert!(validator.check_lot_size(75, 50).is_err());
}

#[test]
fn test_tick_size_validation() {
    let validator = OrderValidator::new(make_test_config());
    // 125.50 is a multiple of 0.05; 125.53 is not.
    assert!(validator.check_tick_size(12_550, 5).is_ok());
    assert!(validator.check_tick_size(12_553, 5).is_err());
}

#[test]
fn test_bias_calculation() {
    let calculator = DailyBiasCalculator::new(14, 2_500);
    let bars = make_test_bars(2);

    // Needs at least fifteen bars for the fourteen-period trend.
    if bars.len() >= 15 {
        let bias = calculator.calculate_bias("TEST", "12345", &bars);
        assert!(bias.is_some());
    }
}

#[test]
fn test_crossover_detection() {
    let monitor = HourlyCrossoverMonitor::new(14, 2_500);

    let crossover = monitor.detect_crossover(2_000, 2_500, 2_600, 2_400);
    assert_eq!(crossover, Some(BiasDirection::CE));

    let crossover = monitor.detect_crossover(2_500, 2_000, 2_400, 2_600);
    assert_eq!(crossover, Some(BiasDirection::PE));

    let crossover = monitor.detect_crossover(2_500, 2_000, 2_600, 2_100);
    assert_eq!(crossover, None);
}

#[test]
fn test_alignment_check() {
    let monitor = HourlyCrossoverMonitor::new(14, 2_500);

    assert!(monitor.is_aligned_with_daily(BiasDirection::CE, BiasDirection::CE));
    assert!(monitor.is_aligned_with_daily(BiasDirection::PE, BiasDirection::PE));
    assert!(!monitor.is_aligned_with_daily(BiasDirection::CE, BiasDirection::PE));
    assert!(!monitor.is_aligned_with_daily(BiasDirection::PE, BiasDirection::CE));
}

#[test]
fn test_republic_day_holiday() {
    assert!(!holidays::is_trading_day(2025, 1, 26));
}

#[test]
fn test_weekend() {
    let sat = (2025, 1, 4);
    let sun = (2025, 1, 5);
    assert!(!holidays::is_trading_day(sat.0, sat.1, sat.2));
    assert!(!holidays::is_trading_day(sun.0, sun.1, sun.2));
}

#[test]
fn test_regular_weekday() {
    assert!(holidays::is_trading_day(2025, 1, 6));
}

#[test]
fn test_atm_calculation() {
    // NIFTY at 23,547.50 with increment 50 rounds to 23,550.
    let atm = atm_strike_for(2_354_750, 50);
    assert_eq!(atm, 23_550);

    // BANKNIFTY at 48,923.75 with increment 100 rounds to 48,900.
    let atm = atm_strike_for(4_892_375, 100);
    assert_eq!(atm, 48_900);
}

#[test]
fn test_idempotency_key() {
    let key1 = generate_idempotency_key(&vec!["session1".to_string(), "NIFTY".to_string(),
        "CE".to_string(), "19000".to_string()]);
    let key2 = generate_idempotency_key(&vec!["session1".to_string(), "NIFTY".to_string(),
        "CE".to_string(), "19000".to_string()]);
    let key3 = generate_idempotency_key(&vec!["session1".to_string(), "NIFTY".to_string(),
        "PE".to_string(), "19000".to_string()]);

    assert_eq!(key1, key2);
    assert_ne!(key1, key3);
}

#[test]
fn test_rate_limiter() {
    let mut limiter = RateLimiter::new(2, 0);

    assert!(limiter.try_acquire(0));
    assert!(limiter.try_acquire(0));
    assert!(!limiter.try_acquire(0));

    // One second later the bucket has refilled by one token.
    assert!(limiter.try_acquire(1_000));
    assert!(!limiter.try_acquire(1_000));
}

fn ist_ms(y: i64, m: i64, d: i64, hh: i64, mm: i64, ss: i64) -> i64 {
    let day = days_from_civil(y, m, d);
    day * 86_400_000 + ((hh * 60 + mm) * 60 + ss) * 1000 - 19_800_000
}

#[test]
fn test_entry_window() {
    // 10:30 IST on 2025-01-15.
    let test_time = ist_ms(2025, 1, 15, 10, 30, 0);

    assert!(is_in_entry_window(test_time, "10:00:00", "15:00:00"));
    assert!(!is_in_entry_window(test_time, "11:00:00", "15:00:00"));
}

#[test]
fn test_market_open() {
    let market_time = ist_ms(2025, 1, 15, 10, 30, 0);
    assert!(is_market_open(market_time));

    let before_market = ist_ms(2025, 1, 15, 9, 0, 0);
    assert!(!is_market_open(before_market));
}

#[test]
fn test_paper_trading() {
    let mut broker = PaperTradingBroker::new(true, 5);

    broker
        .place_order("PAPER_1".to_string(), "NIFTY19500CE".to_string(), Side::Buy, 50,
            OrderType::Limit, Some(12_500))
        .unwrap();

    assert!(broker.get_order_status("PAPER_1").unwrap());

    let fill_price = broker.get_fill_price("PAPER_1").unwrap();
    assert!(fill_price > 12_500);
}
