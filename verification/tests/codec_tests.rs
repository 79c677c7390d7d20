//! Round trips of the line codec, log replay, indicators on edge cases,
//! session arithmetic, errors and strategy decisions.

use rustro::bus::EventBus;
use rustro::config::validate_config;
use rustro::analytics::PerformanceAnalyzer;
use rustro::codec::{decode_bar, decode_trade, encode_bar, encode_trade, r_i64, r_str, w_i64,
    w_str};
use rustro::error::TradingError;
use rustro::events::{Event, EventPayload, EventType};
use rustro::indicators::{calculate_adx, calculate_rsi, calculate_sma, calculate_vwap,
    percentage_change};
use rustro::premarket::{days_from_civil, parse_expiry_date, PremarketSelector, TokenExtractor};
use rustro::replay::rebuild_open_positions;
use rustro::strategy::AdxStrategy;
use rustro::timeutil::{get_market_timings, parse_time_of_day, Timeframe};
use rustro::types::{Bar, Direction, OptionType, Trade};

fn flat_bars(count: usize, close: i64) -> Vec<Bar> {
    (0..count)
        .map(|i| Bar {
            timestamp_ms: 1_700_000_000_000 + i as i64 * 3_600_000,
            open: close,
            high: close,
            low: close,
            close,
            volume: 1_000,
            bar_complete: true,
        })
        .collect()
}

fn rising_bars(count: usize) -> Vec<Bar> {
    (0..count)
        .map(|i| Bar {
            timestamp_ms: 1_700_000_000_000 + i as i64 * 3_600_000,
            open: 1_900_000 + i as i64 * 2_000,
            high: 1_905_000 + i as i64 * 2_000,
            low: 1_898_000 + i as i64 * 2_000,
            close: 1_903_000 + i as i64 * 2_000,
            volume: 1_000,
            bar_complete: true,
        })
        .collect()
}

#[test]
fn rsi_on_flat_prices_is_hundred() {
    let bars = flat_bars(30, 1_900_000);
    assert_eq!(calculate_rsi(&bars, 14), Some(10_000));
}

#[test]
fn adx_needs_period_plus_one_bars() {
    let bars = rising_bars(14);
    assert!(calculate_adx(&bars, 14).is_none());
    let enough = rising_bars(15);
    assert!(calculate_adx(&enough, 14).is_some());
}

#[test]
fn adx_without_directional_movement_is_absent() {
    // Ranging bars that share every high and every low: the true range
    // is nonzero but both directional movements vanish, so the DX
    // denominator is zero and no reading is owed.
    let bars: Vec<rustro::types::Bar> = (0..20)
        .map(|i| rustro::types::Bar {
            timestamp_ms: 1_700_000_000_000 + i as i64 * 3_600_000,
            open: 1_900_000,
            high: 1_910_000,
            low: 1_890_000,
            close: 1_900_000,
            volume: 1_000,
            bar_complete: true,
        })
        .collect();
    assert!(calculate_adx(&bars, 14).is_none());
}

#[test]
fn sma_and_vwap_values() {
    let bars = flat_bars(10, 1_900_000);
    assert_eq!(calculate_sma(&bars, 5), Some(1_900_000));
    // All typical prices equal the close, so VWAP is the close.
    assert_eq!(calculate_vwap(&bars), Some(1_900_000));
    let empty: Vec<Bar> = vec![];
    assert_eq!(calculate_vwap(&empty), None);
}

#[test]
fn percentage_change_basis_points() {
    assert_eq!(percentage_change(10_000, 11_000), 1_000);
    assert_eq!(percentage_change(10_000, 9_000), -1_000);
    assert_eq!(percentage_change(0, 9_000), 0);
}

#[test]
fn bar_line_round_trip() {
    let bar = Bar {
        timestamp_ms: 1_700_000_123_456,
        open: 1_900_000,
        high: 1_912_345,
        low: 1_890_001,
        close: 1_905_550,
        volume: 123_456_789,
        bar_complete: true,
    };
    let line = encode_bar(&bar);
    let decoded = decode_bar(&line).unwrap();
    assert_eq!(decoded, bar);
}

#[test]
fn bar_decode_rejects_junk() {
    let junk: Vec<u8> = vec![1, 2, 3];
    assert!(decode_bar(&junk).is_none());
}

#[test]
fn trade_line_round_trip() {
    let trade = Trade {
        trade_id: "t-1".to_string(),
        position_id: "p-1".to_string(),
        symbol: "NIFTY25JAN23550CE".to_string(),
        underlying: "NIFTY".to_string(),
        strike: 23_550,
        option_type: OptionType::PE,
        quantity: 50,
        entry_time_ms: 1_700_000_000_000,
        entry_price: 10_000,
        entry_reason: "entry signal".to_string(),
        exit_time_ms: 1_700_003_600_000,
        exit_price: 9_000,
        exit_reason: "STOP_LOSS".to_string(),
        secondary_reasons: vec!["VIX: 32.00".to_string(), "EOD".to_string()],
        pnl_gross: -50_000,
        pnl_gross_pct: -1_000,
        pnl_net: -52_000,
        brokerage: 2_000,
        duration_sec: 3_600,
        high_price: 10_000,
        low_price: 9_000,
        vix_at_entry: 1_800,
        vix_at_exit: 3_200,
    };
    let line = encode_trade(&trade);
    let decoded = decode_trade(&line).unwrap();
    assert_eq!(decoded.trade_id, trade.trade_id);
    assert_eq!(decoded.position_id, trade.position_id);
    assert_eq!(decoded.symbol, trade.symbol);
    assert_eq!(decoded.underlying, trade.underlying);
    assert_eq!(decoded.strike, trade.strike);
    assert_eq!(decoded.option_type, trade.option_type);
    assert_eq!(decoded.quantity, trade.quantity);
    assert_eq!(decoded.entry_price, trade.entry_price);
    assert_eq!(decoded.entry_reason, trade.entry_reason);
    assert_eq!(decoded.exit_price, trade.exit_price);
    assert_eq!(decoded.exit_reason, trade.exit_reason);
    assert_eq!(decoded.secondary_reasons, trade.secondary_reasons);
    assert_eq!(decoded.pnl_gross, trade.pnl_gross);
    assert_eq!(decoded.pnl_net, trade.pnl_net);
    assert_eq!(decoded.brokerage, trade.brokerage);
    assert_eq!(decoded.vix_at_exit, trade.vix_at_exit);
}

#[test]
fn position_event_line_round_trip() {
    let opened = position_event(EventType::PositionOpened, "p1", "k1");
    let line = rustro::codec::encode_position_event(&opened);
    let decoded = rustro::codec::decode_position_event(&line).unwrap();
    assert!(matches!(decoded.event_type, EventType::PositionOpened));
    assert_eq!(decoded.idempotency_key, "k1");
    match decoded.payload {
        EventPayload::PositionOpened { position_id, symbol, quantity, entry_price,
            entry_reason } => {
            assert_eq!(position_id, "p1");
            assert_eq!(symbol, "S");
            assert_eq!(quantity, 50);
            assert_eq!(entry_price, 10_000);
            assert_eq!(entry_reason, "entry");
        },
        _ => panic!("expected an open event"),
    }

    let closed = position_event(EventType::PositionClosed, "p2", "k2");
    let line = rustro::codec::encode_position_event(&closed);
    let decoded = rustro::codec::decode_position_event(&line).unwrap();
    assert!(matches!(decoded.event_type, EventType::PositionClosed));
    match decoded.payload {
        EventPayload::PositionClosed { position_id, exit_price, exit_reason, .. } => {
            assert_eq!(position_id, "p2");
            assert_eq!(exit_price, 9_000);
            assert_eq!(exit_reason, "STOP_LOSS");
        },
        _ => panic!("expected a close event"),
    }
}

#[test]
fn primitive_codec_round_trips() {
    let mut buf: Vec<u8> = Vec::new();
    w_i64(&mut buf, -42);
    w_str(&mut buf, &"hello world".to_string());
    let (v, p) = r_i64(&buf, 0).unwrap();
    assert_eq!(v, -42);
    let (s, _p2) = r_str(&buf, p).unwrap();
    assert_eq!(s, "hello world");
}

fn position_event(kind: EventType, id: &str, key: &str) -> Event {
    let payload = match kind {
        EventType::PositionOpened => EventPayload::PositionOpened {
            position_id: id.to_string(),
            symbol: "S".to_string(),
            quantity: 50,
            entry_price: 10_000,
            entry_reason: "entry".to_string(),
        },
        _ => EventPayload::PositionClosed {
            position_id: id.to_string(),
            exit_price: 9_000,
            exit_reason: "STOP_LOSS".to_string(),
            pnl_gross: -50_000,
            pnl_gross_pct: -1_000,
        },
    };
    Event {
        event_type: kind,
        timestamp_ms: 1_700_000_000_000,
        idempotency_key: key.to_string(),
        payload,
    }
}

#[test]
fn replay_rebuilds_open_positions() {
    // Open p1, open p2, close p1: the rebuilt set is exactly {p2}.
    let mut bus = EventBus::new("log".to_string());
    bus.publish(position_event(EventType::PositionOpened, "p1", "k1")).unwrap();
    bus.publish(position_event(EventType::PositionOpened, "p2", "k2")).unwrap();
    bus.publish(position_event(EventType::PositionClosed, "p1", "k3")).unwrap();

    let open = rebuild_open_positions(&bus);
    assert_eq!(open, vec!["p2".to_string()]);
}

#[test]
fn replay_filters_by_timestamp() {
    let mut bus = EventBus::new("log".to_string());
    let mut e1 = position_event(EventType::PositionOpened, "p1", "k1");
    e1.timestamp_ms = 100;
    let mut e2 = position_event(EventType::PositionOpened, "p2", "k2");
    e2.timestamp_ms = 200;
    bus.publish(e1).unwrap();
    bus.publish(e2).unwrap();

    let idxs = bus.replay_events(150);
    assert_eq!(idxs.len(), 1);
    assert_eq!(bus.get_event(idxs[0]).timestamp_ms, 200);
}

#[test]
fn strategy_daily_direction_and_entry() {
    let mut strategy = AdxStrategy::new(5, 2_000, 5, 2_000, 5, 3_000, 7_000, 5, 2_200, 50);
    let bars = rising_bars(30);

    // A steady uptrend gives a call day.
    let direction = strategy.analyze_daily(&bars, 1_700_000_000_000).unwrap();
    assert_eq!(direction, Direction::CE);
    let aligned = strategy.analyze_hourly(&bars, 1_700_000_000_000).unwrap();
    assert!(aligned);

    // A flat RSI of 100 fails the call-side filter, so no signal.
    let signal = strategy.evaluate_entry(&bars, 2_354_750, 1_800).unwrap();
    assert!(signal.is_none());

    strategy.reset();
    assert!(strategy.get_daily_direction().is_none());
}

#[test]
fn strategy_requires_daily_direction_first() {
    let mut strategy = AdxStrategy::new(5, 2_000, 5, 2_000, 5, 3_000, 7_000, 5, 2_200, 50);
    let bars = rising_bars(30);
    assert!(strategy.analyze_hourly(&bars, 0).is_err());
}

#[test]
fn market_timings_are_ist_session() {
    let day = days_from_civil(2025, 1, 15);
    let noon_ist = day * 86_400_000 + 12 * 3_600_000 - 19_800_000;
    let (open, close) = get_market_timings(noon_ist);
    // 9:15 and 15:30 IST.
    assert_eq!(open, day * 86_400_000 + (9 * 60 + 15) * 60_000 - 19_800_000);
    assert_eq!(close, day * 86_400_000 + (15 * 60 + 30) * 60_000 - 19_800_000);
}

#[test]
fn time_of_day_parsing() {
    assert_eq!(parse_time_of_day("10:00:00"), Some(36_000_000));
    assert_eq!(parse_time_of_day("15:30"), Some(55_800_000));
    assert_eq!(parse_time_of_day("25:00:00"), None);
    assert_eq!(parse_time_of_day("bad"), None);
}

#[test]
fn expiry_parsing_and_day_numbers() {
    assert_eq!(parse_expiry_date("14NOV2024"), Some((2024, 11, 14)));
    assert_eq!(parse_expiry_date("XXNOV2024"), None);
    assert_eq!(days_from_civil(1970, 1, 1), 0);
    assert_eq!(days_from_civil(1970, 1, 2), 1);
    assert_eq!(days_from_civil(2000, 3, 1), 11_017);
}

#[test]
fn daily_timeframe_boundary_is_ist_midnight() {
    let day = days_from_civil(2025, 1, 15);
    let ts = day * 86_400_000 + 12 * 3_600_000 - 19_800_000;
    let boundary = Timeframe::OneDay.get_bar_boundary(ts);
    assert_eq!(boundary, day * 86_400_000 - 19_800_000);
}

#[test]
fn error_codes_and_classes() {
    let dup = TradingError::DuplicateEvent("k".to_string());
    assert_eq!(dup.error_code(), "IDEM_001");
    assert!(!dup.is_recoverable());

    let vix = TradingError::VixSpike("32".to_string());
    assert_eq!(vix.error_code(), "RISK_002");
    assert!(vix.requires_exit());

    let net = TradingError::NetworkTimeout("t".to_string());
    assert!(net.is_recoverable());
    assert!(!net.is_fatal());

    let fatal = TradingError::TokenRefreshFailed("x".to_string());
    assert!(fatal.is_fatal());
}

#[test]
fn validate_config_rejects_bad_hysteresis() {
    // A configuration whose spike threshold does not exceed the resume
    // threshold is refused at load time.
    let mut cfg = test_config();
    assert!(validate_config(&cfg).is_ok());
    cfg.vix_spike_threshold = cfg.vix_resume_threshold;
    assert!(validate_config(&cfg).is_err());
}

fn test_config() -> rustro::types::Config {
    rustro::types::Config {
        entry_window_start: "10:00:00".to_string(),
        entry_window_end: "15:00:00".to_string(),
        eod_exit_time: "15:20:00".to_string(),
        market_close_time: "15:30:00".to_string(),
        bar_ready_grace_sec: 30,
        option_stop_loss_pct: 3000,
        trail_activate_pnl_pct: 1000,
        trail_gap_pct: 500,
        max_positions: 2,
        daily_loss_limit_pct: 300,
        consecutive_loss_limit: 3,
        vix_threshold: 2200,
        vix_spike_threshold: 2500,
        vix_resume_threshold: 2000,
        base_position_size_pct: 1000,
        vix_mult_anchors: rustro::types::VixMultipliers {
            vix_12_or_below: 12_000,
            vix_20: 10_000,
            vix_30: 6_000,
            vix_30_or_above: 4_000,
        },
        dte_mult: rustro::types::DteMultipliers {
            gte_5_days: 10_000,
            days_2_to_4: 8_000,
            day_1: 5_000,
        },
        order_retry_steps_pct: vec![25, 50, 100],
        order_max_retries: 3,
        order_retry_backoffs_sec: vec![1, 2, 4],
        retry_cap_sec: 8,
        token_expiry_warning_min: 30,
        token_grace_to_flatten_sec: 300,
        token_check_interval_sec: 60,
        data_gap_threshold_sec: 120,
        data_gap_check_interval_sec: 30,
        recovery_timeout_sec: 300,
        freeze_quantity: rustro::types::BrokerLimits {
            nifty: 36_000,
            banknifty: 24_000,
            finnifty: 36_000,
        },
        lot_size: rustro::types::LotSizes { nifty: 50, banknifty: 15, finnifty: 40 },
        tick_size: 5,
        price_band_pct: 200_000,
        rate_limit_orders: 10,
        rate_limit_market_data: 10,
        rate_limit_historical: 3,
        ws_ping_interval_sec: 30,
        ws_pong_timeout_sec: 10,
        ws_reconnect_backoff_sec: vec![1, 2, 4, 8, 16],
        ws_max_reconnects_per_minute: 5,
        daily_adx_period: 14,
        daily_adx_threshold: 2000,
        hourly_adx_period: 14,
        hourly_adx_threshold: 2000,
        rsi_period: 14,
        rsi_oversold: 3000,
        rsi_overbought: 7000,
        ema_period: 20,
        strike_increment: 50,
        initial_strike_range: 200,
        strike_subscription_count: 9,
        strategy_invalidate_on_recompute: false,
        use_trailing_stop: true,
        use_underlying_soft_check: false,
        enable_paper_trading: true,
        log_level: "info".to_string(),
        log_rotation: "daily".to_string(),
        log_retention_days: 7,
        audit_trail_enabled: true,
        angel_one_client_code: "SECRET-REDACTED".to_string(),
        angel_one_password: "SECRET-REDACTED".to_string(),
        angel_one_mpin: None,
        angel_one_totp_secret: "SECRET-REDACTED".to_string(),
        angel_one_api_key: "SECRET-REDACTED".to_string(),
        angel_one_secret_key: "SECRET-REDACTED".to_string(),
    }
}

#[test]
fn premarket_selection_picks_far_enough_expiry() {
    let instruments = vec![
        rustro::types::Instrument {
            token: "111".to_string(),
            symbol: "NIFTY25JAN23550CE".to_string(),
            name: "NIFTY".to_string(),
            expiry: "16JAN2025".to_string(),
            strike: 2_355_000,
            lotsize: 50,
            instrument_type: "OPTIDX".to_string(),
            exch_seg: "NFO".to_string(),
            tick_size: 5,
        },
        rustro::types::Instrument {
            token: "112".to_string(),
            symbol: "NIFTY25JAN23550PE".to_string(),
            name: "NIFTY".to_string(),
            expiry: "16JAN2025".to_string(),
            strike: 2_355_000,
            lotsize: 50,
            instrument_type: "OPTIDX".to_string(),
            exch_seg: "NFO".to_string(),
            tick_size: 5,
        },
    ];
    let selector = PremarketSelector::new(TokenExtractor::new(instruments));
    let bias = rustro::strategy::DailyBias {
        underlying: "NIFTY".to_string(),
        spot_token: "99926000".to_string(),
        bias: rustro::strategy::BiasDirection::CE,
        adx: 2_800,
        plus_di: 3_000,
        minus_di: 2_000,
        close_price: 2_354_750,
        timestamp_ms: 0,
    };
    let today = days_from_civil(2025, 1, 10);
    let picked = selector.select_premarket_option(&bias, today).unwrap();
    assert_eq!(picked.atm_strike.strike, 23_550);
    assert_eq!(picked.expiry, "16JAN2025");
    assert_eq!(picked.ce_token.as_deref(), Some("111"));
    let tradeable = PremarketSelector::get_tradeable_option(&picked).unwrap();
    assert_eq!(tradeable.0, "111");
}

#[test]
fn analytics_counts_and_drawdown() {
    let mut positions = Vec::new();
    for (i, pnl) in [5_000i64, -2_000, -3_000, 4_000].iter().enumerate() {
        let mut p = rustro::types::Position {
            position_id: format!("p{}", i),
            symbol: "S".to_string(),
            underlying: "NIFTY".to_string(),
            strike: 23_550,
            option_type: if i % 2 == 0 { OptionType::CE } else { OptionType::PE },
            side: rustro::types::Side::Buy,
            quantity: 50,
            entry_price: 10_000,
            entry_time_ms: 1_000,
            underlying_entry: 0,
            stop_loss: 1,
            target: None,
            trailing_stop: None,
            trailing_active: false,
            current_price: 10_000,
            pnl: 0,
            pnl_pct: 0,
            status: rustro::types::PositionStatus::Open,
            entry_reason: "e".to_string(),
            idempotency_key: "k".to_string(),
        };
        p.pnl = *pnl;
        positions.push(p);
    }
    let m = PerformanceAnalyzer::calculate_metrics(&positions, 1_000_000);
    assert_eq!(m.total_trades, 4);
    assert_eq!(m.winning_trades, 2);
    assert_eq!(m.losing_trades, 2);
    assert_eq!(m.total_pnl, 4_000);
    assert_eq!(m.gross_profit, 9_000);
    assert_eq!(m.gross_loss, 5_000);
    // Peak 5,000 after the first trade, trough at 0 after the third.
    assert_eq!(m.max_drawdown, 5_000);
    assert_eq!(m.win_rate, 5_000);
}
