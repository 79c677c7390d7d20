//! Event model: every state transition of interest is published as one
//! of these records.
//!
//! Prices and PnL figures inside payloads are hundredths of a rupee, VIX
//! levels hundredths of a point, percentages basis points, timestamps
//! epoch milliseconds.

use vstd::prelude::*;
use vstd::string::StringExecFns;
use crate::types::{Direction, OptionType, SessionState, Side};
use crate::store::clone_string;

verus! {

/// The closed set of event kinds.
#[derive(Debug, Clone, Copy, PartialEq, Eq, Structural, Hash)]
pub enum EventType {
    // Initialization.
    LogInitialized,
    ConfigLoaded,
    StorageReady,
    CredentialsLoaded,
    LoginApiCalled,
    TokenLoaded,
    TokenNotFound,
    TokensStored,
    TokenMonitorActive,
    BrokerClientReady,
    // Session management.
    TradingDayCheck,
    CalendarValidated,
    MarketSessionDetermined,
    MarketOpen,
    EntryWindowOpen,
    SessionRevalidationRequired,
    NoTradeModeActive,
    // Token management.
    TokenExpiryWarning,
    TokenInvalid,
    TokenRefreshStarted,
    TokenRefreshSuccess,
    TokenRefreshFailed,
    // Data collection.
    InstrumentMasterDownloaded,
    SubscriptionsInitialized,
    WebSocketConnected,
    WebSocketDisconnected,
    TickReceived,
    BarReady,
    DataGapDetected,
    DataGapRecoveryRequired,
    RecoveryStarted,
    RecoveryCompleted,
    RecoveryFailed,
    // Analysis and strategy.
    DailyAnalysisRequired,
    DailyDirectionDetermined,
    HourlyAnalysisRequired,
    HourlyAlignmentConfirmed,
    AlignmentLost,
    EntryFiltersEvaluated,
    SignalGenerated,
    NoTradeSignal,
    // Risk management.
    VixDataReceived,
    VixSpike,
    VixNormalResumed,
    DailyLossLimitBreached,
    RiskCheckPassed,
    RiskCheckFailed,
    // Orders and positions.
    OrderIntentCreated,
    OrderPlaced,
    OrderExecuted,
    OrderPartiallyFilled,
    OrderRejected,
    OrderFailed,
    OrderRetrying,
    PositionOpened,
    PositionUpdated,
    // Exit management.
    ExitSignalGenerated,
    StopLossTriggered,
    TrailingStopActivated,
    TrailingStopUpdated,
    TargetReached,
    EodMandatoryExit,
    PositionClosed,
    PositionsClosed,
    // System events.
    GracefulShutdownInitiated,
    ShutdownCompleted,
    FatalError,
    KillSwitchActivated,
}

/// Per-kind payload.
#[derive(Debug, Clone)]
pub enum EventPayload {
    LogInitialized { log_level: String },
    ConfigLoaded { config_hash: String, data_paths: Vec<String> },
    StorageReady { data_root: String },
    CredentialsLoaded { user_id: String },
    LoginApiCalled { attempt_id: String },
    TokenLoaded { jwt_expiry_ms: i64, feed_expiry_ms: i64 },
    TokensStored { stored_at_ms: i64 },
    TokenMonitorActive { check_interval_sec: u64 },
    BrokerClientReady { session_id: String },
    TradingDayCheck { date: String },
    CalendarValidated { is_trading_day: bool, holidays: Vec<String> },
    MarketSessionDetermined { session_state: SessionState, open_time: String, close_time: String },
    MarketOpen { market_open_time_ms: i64 },
    EntryWindowOpen { window_start_ms: i64, window_end_ms: i64 },
    SessionRevalidationRequired { reason: String },
    NoTradeModeActive { reason: String },
    TokenExpiryWarning { expires_at_ms: i64, minutes_remaining: i64 },
    TokenInvalid { reason: String },
    TokenRefreshStarted { attempt: u32 },
    TokenRefreshSuccess { new_expiry_ms: i64 },
    TokenRefreshFailed { reason: String, attempts: u32 },
    InstrumentMasterDownloaded { instrument_count: usize, file_path: String },
    SubscriptionsInitialized { symbols: Vec<String>, token_count: usize },
    WebSocketConnected { connection_id: String },
    WebSocketDisconnected { reason: String, reconnect_attempt: u32 },
    TickReceived { symbol: String, ltp: i64, volume: i64 },
    BarReady { symbol: String, timeframe: String, bar_time_ms: i64, bar_complete: bool },
    DataGapDetected { symbol: String, timeframe: String, gap_start_ms: i64, gap_end_ms: i64,
        missing_bars: usize },
    DataGapRecoveryRequired { symbol: String, timeframe: String },
    RecoveryStarted { symbol: String, timeframe: String, bars_to_fetch: usize },
    RecoveryCompleted { symbol: String, timeframe: String, bars_recovered: usize },
    RecoveryFailed { symbol: String, reason: String },
    DailyAnalysisRequired { symbol: String, bar_time_ms: i64 },
    DailyDirectionDetermined { symbol: String, direction: Direction, daily_adx: i64,
        daily_plus_di: i64, daily_minus_di: i64, reason: String },
    HourlyAnalysisRequired { symbol: String, bar_time_ms: i64 },
    HourlyAlignmentConfirmed { symbol: String, hourly_adx: i64, hourly_plus_di: i64,
        hourly_minus_di: i64, alignment_score: i64 },
    AlignmentLost { symbol: String, reason: String },
    EntryFiltersEvaluated { symbol: String, passed: bool, filter_results: Vec<(String, bool)> },
    SignalGenerated { symbol: String, underlying: String, direction: Direction, strike: i64,
        option_type: OptionType, side: Side, reason: String, underlying_ltp: i64,
        option_ltp: i64, vix: i64 },
    NoTradeSignal { symbol: String, reason: String },
    VixDataReceived { vix: i64, timestamp_ms: i64 },
    VixSpike { vix: i64, threshold: i64, positions_to_exit: Vec<String> },
    VixNormalResumed { vix: i64, threshold: i64 },
    DailyLossLimitBreached { daily_pnl: i64, limit: i64, positions_to_close: Vec<String> },
    RiskCheckPassed { check_type: String },
    RiskCheckFailed { check_type: String, reason: String },
    OrderIntentCreated { order_id: String, symbol: String, side: Side, quantity: i64,
        intent_reason: String },
    OrderPlaced { order_id: String, broker_order_id: String, symbol: String, quantity: i64,
        price: i64 },
    OrderExecuted { order_id: String, broker_order_id: String, fill_price: i64,
        fill_quantity: i64, fill_time_ms: i64 },
    OrderPartiallyFilled { order_id: String, filled_quantity: i64, remaining_quantity: i64 },
    OrderRejected { order_id: String, reason: String, broker_message: String },
    OrderFailed { order_id: String, reason: String, retry_count: u32 },
    OrderRetrying { order_id: String, attempt: u32, max_retries: u32, backoff_sec: u64 },
    PositionOpened { position_id: String, symbol: String, quantity: i64, entry_price: i64,
        entry_reason: String },
    PositionUpdated { position_id: String, current_price: i64, pnl: i64, pnl_pct: i64 },
    ExitSignalGenerated { position_id: String, primary_reason: String,
        secondary_reasons: Vec<String>, priority: u8 },
    StopLossTriggered { position_id: String, stop_loss: i64, current_price: i64 },
    TrailingStopActivated { position_id: String, activation_pnl_pct: i64, trail_stop: i64 },
    TrailingStopUpdated { position_id: String, new_trail_stop: i64, high_price: i64 },
    TargetReached { position_id: String, target: i64, current_price: i64 },
    EodMandatoryExit { time_ms: i64, positions_to_close: Vec<String> },
    PositionClosed { position_id: String, exit_price: i64, exit_reason: String, pnl_gross: i64,
        pnl_gross_pct: i64 },
    PositionsClosed { position_ids: Vec<String>, reason: String },
    GracefulShutdownInitiated { reason: String },
    ShutdownCompleted { duration_sec: u64 },
    FatalError { error_code: String, message: String },
    KillSwitchActivated { reason: String, manual: bool },
    Empty,
}

/// One published event.
#[derive(Debug, Clone)]
pub struct Event {
    pub event_type: EventType,
    pub timestamp_ms: i64,
    pub idempotency_key: String,
    pub payload: EventPayload,
}


/// The stable wire name of each event kind.
pub open spec fn spec_wire_name(et: EventType) -> Seq<char> {
    match et {
        EventType::LogInitialized => "LOG_INITIALIZED"@,
        EventType::ConfigLoaded => "CONFIG_LOADED"@,
        EventType::StorageReady => "STORAGE_READY"@,
        EventType::CredentialsLoaded => "CREDENTIALS_LOADED"@,
        EventType::LoginApiCalled => "LOGIN_API_CALLED"@,
        EventType::TokenLoaded => "TOKEN_LOADED"@,
        EventType::TokenNotFound => "TOKEN_NOT_FOUND"@,
        EventType::TokensStored => "TOKENS_STORED"@,
        EventType::TokenMonitorActive => "TOKEN_MONITOR_ACTIVE"@,
        EventType::BrokerClientReady => "BROKER_CLIENT_READY"@,
        EventType::TradingDayCheck => "TRADING_DAY_CHECK"@,
        EventType::CalendarValidated => "CALENDAR_VALIDATED"@,
        EventType::MarketSessionDetermined => "MARKET_SESSION_DETERMINED"@,
        EventType::MarketOpen => "MARKET_OPEN"@,
        EventType::EntryWindowOpen => "ENTRY_WINDOW_OPEN"@,
        EventType::SessionRevalidationRequired => "SESSION_REVALIDATION_REQUIRED"@,
        EventType::NoTradeModeActive => "NO_TRADE_MODE_ACTIVE"@,
        EventType::TokenExpiryWarning => "TOKEN_EXPIRY_WARNING"@,
        EventType::TokenInvalid => "TOKEN_INVALID"@,
        EventType::TokenRefreshStarted => "TOKEN_REFRESH_STARTED"@,
        EventType::TokenRefreshSuccess => "TOKEN_REFRESH_SUCCESS"@,
        EventType::TokenRefreshFailed => "TOKEN_REFRESH_FAILED"@,
        EventType::InstrumentMasterDownloaded => "INSTRUMENT_MASTER_DOWNLOADED"@,
        EventType::SubscriptionsInitialized => "SUBSCRIPTIONS_INITIALIZED"@,
        EventType::WebSocketConnected => "WEBSOCKET_CONNECTED"@,
        EventType::WebSocketDisconnected => "WEBSOCKET_DISCONNECTED"@,
        EventType::TickReceived => "TICK_RECEIVED"@,
        EventType::BarReady => "BAR_READY"@,
        EventType::DataGapDetected => "DATA_GAP_DETECTED"@,
        EventType::DataGapRecoveryRequired => "DATA_GAP_RECOVERY_REQUIRED"@,
        EventType::RecoveryStarted => "RECOVERY_STARTED"@,
        EventType::RecoveryCompleted => "RECOVERY_COMPLETED"@,
        EventType::RecoveryFailed => "RECOVERY_FAILED"@,
        EventType::DailyAnalysisRequired => "DAILY_ANALYSIS_REQUIRED"@,
        EventType::DailyDirectionDetermined => "DAILY_DIRECTION_DETERMINED"@,
        EventType::HourlyAnalysisRequired => "HOURLY_ANALYSIS_REQUIRED"@,
        EventType::HourlyAlignmentConfirmed => "HOURLY_ALIGNMENT_CONFIRMED"@,
        EventType::AlignmentLost => "ALIGNMENT_LOST"@,
        EventType::EntryFiltersEvaluated => "ENTRY_FILTERS_EVALUATED"@,
        EventType::SignalGenerated => "SIGNAL_GENERATED"@,
        EventType::NoTradeSignal => "NO_TRADE_SIGNAL"@,
        EventType::VixDataReceived => "VIX_DATA_RECEIVED"@,
        EventType::VixSpike => "VIX_SPIKE"@,
        EventType::VixNormalResumed => "VIX_NORMAL_RESUMED"@,
        EventType::DailyLossLimitBreached => "DAILY_LOSS_LIMIT_BREACHED"@,
        EventType::RiskCheckPassed => "RISK_CHECK_PASSED"@,
        EventType::RiskCheckFailed => "RISK_CHECK_FAILED"@,
        EventType::OrderIntentCreated => "ORDER_INTENT_CREATED"@,
        EventType::OrderPlaced => "ORDER_PLACED"@,
        EventType::OrderExecuted => "ORDER_EXECUTED"@,
        EventType::OrderPartiallyFilled => "ORDER_PARTIALLY_FILLED"@,
        EventType::OrderRejected => "ORDER_REJECTED"@,
        EventType::OrderFailed => "ORDER_FAILED"@,
        EventType::OrderRetrying => "ORDER_RETRYING"@,
        EventType::PositionOpened => "POSITION_OPENED"@,
        EventType::PositionUpdated => "POSITION_UPDATED"@,
        EventType::ExitSignalGenerated => "EXIT_SIGNAL_GENERATED"@,
        EventType::StopLossTriggered => "STOP_LOSS_TRIGGERED"@,
        EventType::TrailingStopActivated => "TRAILING_STOP_ACTIVATED"@,
        EventType::TrailingStopUpdated => "TRAILING_STOP_UPDATED"@,
        EventType::TargetReached => "TARGET_REACHED"@,
        EventType::EodMandatoryExit => "EOD_MANDATORY_EXIT"@,
        EventType::PositionClosed => "POSITION_CLOSED"@,
        EventType::PositionsClosed => "POSITIONS_CLOSED"@,
        EventType::GracefulShutdownInitiated => "GRACEFUL_SHUTDOWN_INITIATED"@,
        EventType::ShutdownCompleted => "SHUTDOWN_COMPLETED"@,
        EventType::FatalError => "FATAL_ERROR"@,
        EventType::KillSwitchActivated => "KILL_SWITCH_ACTIVATED"@,
    }
}

/// The idempotency key `Event::new` builds for a kind and a nonce.
pub open spec fn event_key(et: EventType, nonce: Seq<char>) -> Seq<char> {
    spec_wire_name(et) + ":"@ + nonce
}

/// The length of a key: the wire name, the separator, the nonce.
pub proof fn lemma_event_key_len(et: EventType, n: Seq<char>)
    ensures
        event_key(et, n).len() == spec_wire_name(et).len() + 1 + n.len(),
{
    reveal_strlit(":");
}

/// A derived nonce is strictly longer than its base nonce.
pub proof fn lemma_derived_nonce_len(n: Seq<char>, item: int)
    requires
        0 <= item,
    ensures
        derived_nonce(n, item).len() >= n.len() + 2,
{
    reveal_strlit("#");
    if item < 10 {
    } else {
        vstd::arithmetic::div_mod::lemma_div_pos_is_pos(item, 10);
        assert(spec_dec_digits(item).len() >= 1);
    }
}

/// Distinct wire names give one nonce distinct keys.
pub proof fn lemma_event_key_kind_differs(a: EventType, b: EventType, n: Seq<char>)
    requires
        spec_wire_name(a) != spec_wire_name(b),
    ensures
        event_key(a, n) != event_key(b, n),
{
    reveal_strlit(":");
    let wa = spec_wire_name(a);
    let wb = spec_wire_name(b);
    if event_key(a, n) == event_key(b, n) {
        assert(event_key(a, n).len() == wa.len() + 1 + n.len());
        assert(event_key(b, n).len() == wb.len() + 1 + n.len());
        assert(wa.len() == wb.len());
        assert forall|j: int| 0 <= j < wa.len() implies wa[j] == wb[j] by {
            assert(event_key(a, n)[j] == wa[j]);
            assert(event_key(b, n)[j] == wb[j]);
        }
        assert(wa =~= wb);
    }
}

/// Distinct nonces give one kind distinct keys.
pub proof fn lemma_event_key_nonce_injective(et: EventType, n1: Seq<char>, n2: Seq<char>)
    requires
        n1 != n2,
    ensures
        event_key(et, n1) != event_key(et, n2),
{
    reveal_strlit(":");
    let w = spec_wire_name(et).len() as int;
    if event_key(et, n1) == event_key(et, n2) {
        assert(event_key(et, n1).len() == w + 1 + n1.len());
        assert(event_key(et, n2).len() == w + 1 + n2.len());
        assert(n1.len() == n2.len());
        assert forall|j: int| 0 <= j < n1.len() implies n1[j] == n2[j] by {
            assert(event_key(et, n1)[w + 1 + j] == n1[j]);
            assert(event_key(et, n2)[w + 1 + j] == n2[j]);
        }
        assert(n1 =~= n2);
    }
}

impl Event {
    /// Build an event stamped `now_ms`; its idempotency key is the kind's
    /// wire name, a colon, and the caller-supplied nonce.
    pub fn new(event_type: EventType, payload: EventPayload, now_ms: i64, nonce: String) -> (
        r: Event)
        ensures
            r.event_type == event_type,
            r.payload == payload,
            r.timestamp_ms == now_ms,
            r.idempotency_key@ == event_key(event_type, nonce@),
    {
        let key = String::from_str(event_type.as_str()).concat(":").concat(nonce.as_str());
        Event { event_type, timestamp_ms: now_ms, idempotency_key: key, payload }
    }
}

impl EventType {
    /// The stable wire name of each kind.
    pub fn as_str(&self) -> (r: &str)
        ensures
            r@ == spec_wire_name(*self),
    {
        match self {
            EventType::LogInitialized => "LOG_INITIALIZED",
            EventType::ConfigLoaded => "CONFIG_LOADED",
            EventType::StorageReady => "STORAGE_READY",
            EventType::CredentialsLoaded => "CREDENTIALS_LOADED",
            EventType::LoginApiCalled => "LOGIN_API_CALLED",
            EventType::TokenLoaded => "TOKEN_LOADED",
            EventType::TokenNotFound => "TOKEN_NOT_FOUND",
            EventType::TokensStored => "TOKENS_STORED",
            EventType::TokenMonitorActive => "TOKEN_MONITOR_ACTIVE",
            EventType::BrokerClientReady => "BROKER_CLIENT_READY",
            EventType::TradingDayCheck => "TRADING_DAY_CHECK",
            EventType::CalendarValidated => "CALENDAR_VALIDATED",
            EventType::MarketSessionDetermined => "MARKET_SESSION_DETERMINED",
            EventType::MarketOpen => "MARKET_OPEN",
            EventType::EntryWindowOpen => "ENTRY_WINDOW_OPEN",
            EventType::SessionRevalidationRequired => "SESSION_REVALIDATION_REQUIRED",
            EventType::NoTradeModeActive => "NO_TRADE_MODE_ACTIVE",
            EventType::TokenExpiryWarning => "TOKEN_EXPIRY_WARNING",
            EventType::TokenInvalid => "TOKEN_INVALID",
            EventType::TokenRefreshStarted => "TOKEN_REFRESH_STARTED",
            EventType::TokenRefreshSuccess => "TOKEN_REFRESH_SUCCESS",
            EventType::TokenRefreshFailed => "TOKEN_REFRESH_FAILED",
            EventType::InstrumentMasterDownloaded => "INSTRUMENT_MASTER_DOWNLOADED",
            EventType::SubscriptionsInitialized => "SUBSCRIPTIONS_INITIALIZED",
            EventType::WebSocketConnected => "WEBSOCKET_CONNECTED",
            EventType::WebSocketDisconnected => "WEBSOCKET_DISCONNECTED",
            EventType::TickReceived => "TICK_RECEIVED",
            EventType::BarReady => "BAR_READY",
            EventType::DataGapDetected => "DATA_GAP_DETECTED",
            EventType::DataGapRecoveryRequired => "DATA_GAP_RECOVERY_REQUIRED",
            EventType::RecoveryStarted => "RECOVERY_STARTED",
            EventType::RecoveryCompleted => "RECOVERY_COMPLETED",
            EventType::RecoveryFailed => "RECOVERY_FAILED",
            EventType::DailyAnalysisRequired => "DAILY_ANALYSIS_REQUIRED",
            EventType::DailyDirectionDetermined => "DAILY_DIRECTION_DETERMINED",
            EventType::HourlyAnalysisRequired => "HOURLY_ANALYSIS_REQUIRED",
            EventType::HourlyAlignmentConfirmed => "HOURLY_ALIGNMENT_CONFIRMED",
            EventType::AlignmentLost => "ALIGNMENT_LOST",
            EventType::EntryFiltersEvaluated => "ENTRY_FILTERS_EVALUATED",
            EventType::SignalGenerated => "SIGNAL_GENERATED",
            EventType::NoTradeSignal => "NO_TRADE_SIGNAL",
            EventType::VixDataReceived => "VIX_DATA_RECEIVED",
            EventType::VixSpike => "VIX_SPIKE",
            EventType::VixNormalResumed => "VIX_NORMAL_RESUMED",
            EventType::DailyLossLimitBreached => "DAILY_LOSS_LIMIT_BREACHED",
            EventType::RiskCheckPassed => "RISK_CHECK_PASSED",
            EventType::RiskCheckFailed => "RISK_CHECK_FAILED",
            EventType::OrderIntentCreated => "ORDER_INTENT_CREATED",
            EventType::OrderPlaced => "ORDER_PLACED",
            EventType::OrderExecuted => "ORDER_EXECUTED",
            EventType::OrderPartiallyFilled => "ORDER_PARTIALLY_FILLED",
            EventType::OrderRejected => "ORDER_REJECTED",
            EventType::OrderFailed => "ORDER_FAILED",
            EventType::OrderRetrying => "ORDER_RETRYING",
            EventType::PositionOpened => "POSITION_OPENED",
            EventType::PositionUpdated => "POSITION_UPDATED",
            EventType::ExitSignalGenerated => "EXIT_SIGNAL_GENERATED",
            EventType::StopLossTriggered => "STOP_LOSS_TRIGGERED",
            EventType::TrailingStopActivated => "TRAILING_STOP_ACTIVATED",
            EventType::TrailingStopUpdated => "TRAILING_STOP_UPDATED",
            EventType::TargetReached => "TARGET_REACHED",
            EventType::EodMandatoryExit => "EOD_MANDATORY_EXIT",
            EventType::PositionClosed => "POSITION_CLOSED",
            EventType::PositionsClosed => "POSITIONS_CLOSED",
            EventType::GracefulShutdownInitiated => "GRACEFUL_SHUTDOWN_INITIATED",
            EventType::ShutdownCompleted => "SHUTDOWN_COMPLETED",
            EventType::FatalError => "FATAL_ERROR",
            EventType::KillSwitchActivated => "KILL_SWITCH_ACTIVATED",
        }
    }
}

/// A per-item nonce derived from a caller's nonce: the nonce, a
/// separator, then the item index in decimal.  Distinct indices give
/// distinct nonces, so one fresh nonce covers a whole batch of events.
pub open spec fn derived_nonce(nonce: Seq<char>, item: int) -> Seq<char> {
    nonce + "#"@ + spec_dec_digits(item)
}

/// Decimal digits of a non-negative index (empty for negatives, which
/// no item has).
pub open spec fn spec_dec_digits(v: int) -> Seq<char>
    decreases v,
{
    if v < 0 {
        Seq::empty()
    } else if v < 10 {
        seq![(48 + v) as u8 as char]
    } else {
        spec_dec_digits(v / 10).push((48 + v % 10) as u8 as char)
    }
}

/// Build the idempotency key `Event::new` would build (so callers can
/// test a key's freshness before an operation that must publish).
pub fn make_event_key(event_type: EventType, nonce: &String) -> (r: String)
    ensures
        r@ == event_key(event_type, nonce@),
{
    String::from_str(event_type.as_str()).concat(":").concat(nonce.as_str())
}

/// Distinct items derive distinct nonces.
pub proof fn lemma_derived_nonce_injective(nonce: Seq<char>, a: int, b: int)
    requires
        0 <= a,
        0 <= b,
        a != b,
    ensures
        derived_nonce(nonce, a) != derived_nonce(nonce, b),
{
    reveal_strlit("#");
    lemma_dec_digits_injective(a, b);
    assert(derived_nonce(nonce, a).len() == nonce.len() + 1 + spec_dec_digits(a).len());
    assert(derived_nonce(nonce, b).len() == nonce.len() + 1 + spec_dec_digits(b).len());
    if spec_dec_digits(a).len() == spec_dec_digits(b).len() {
        let i = choose|i: int| 0 <= i < spec_dec_digits(a).len()
            && spec_dec_digits(a)[i] != spec_dec_digits(b)[i];
        assert(derived_nonce(nonce, a)[nonce.len() + 1 + i] == spec_dec_digits(a)[i]);
        assert(derived_nonce(nonce, b)[nonce.len() + 1 + i] == spec_dec_digits(b)[i]);
    }
}

/// Distinct non-negative indices have distinct digit strings.
proof fn lemma_dec_digits_injective(a: int, b: int)
    requires
        0 <= a,
        0 <= b,
        a != b,
    ensures
        spec_dec_digits(a).len() != spec_dec_digits(b).len()
            || exists|i: int| 0 <= i < spec_dec_digits(a).len()
                && spec_dec_digits(a)[i] != spec_dec_digits(b)[i],
    decreases a + b,
{
    let da = spec_dec_digits(a);
    let db = spec_dec_digits(b);
    if a < 10 && b < 10 {
        assert(da[0] != db[0]);
    } else if a < 10 {
        assert(da.len() == 1);
        lemma_dec_digits_len(b);
        assert(db.len() >= 2);
    } else if b < 10 {
        assert(db.len() == 1);
        lemma_dec_digits_len(a);
        assert(da.len() >= 2);
    } else {
        vstd::arithmetic::div_mod::lemma_fundamental_div_mod(a, 10);
        vstd::arithmetic::div_mod::lemma_fundamental_div_mod(b, 10);
        vstd::arithmetic::div_mod::lemma_mod_division_less_than_divisor(a, 10);
        vstd::arithmetic::div_mod::lemma_mod_division_less_than_divisor(b, 10);
        vstd::arithmetic::div_mod::lemma_div_pos_is_pos(a, 10);
        vstd::arithmetic::div_mod::lemma_div_pos_is_pos(b, 10);
        vstd::arithmetic::div_mod::lemma_div_decreases(a, 10);
        vstd::arithmetic::div_mod::lemma_div_decreases(b, 10);
        if a % 10 != b % 10 {
            assert(da.last() != db.last());
            if da.len() == db.len() {
                assert(da[da.len() - 1] != db[da.len() - 1]);
            }
        } else {
            assert(a / 10 != b / 10) by {
                if a / 10 == b / 10 {
                    assert(a == 10 * (a / 10) + a % 10);
                    assert(b == 10 * (b / 10) + b % 10);
                }
            }
            lemma_dec_digits_injective(a / 10, b / 10);
            let pa = spec_dec_digits(a / 10);
            let pb = spec_dec_digits(b / 10);
            if pa.len() != pb.len() {
                assert(da.len() != db.len());
            } else {
                let i = choose|i: int| 0 <= i < pa.len() && pa[i] != pb[i];
                assert(da[i] == pa[i] && db[i] == pb[i]);
            }
        }
    }
}

/// At least two digits from ten upward.
proof fn lemma_dec_digits_len(v: int)
    requires
        v >= 10,
    ensures
        spec_dec_digits(v).len() >= 2,
{
    vstd::arithmetic::div_mod::lemma_div_pos_is_pos(v, 10);
    assert(v / 10 >= 1) by {
        vstd::arithmetic::div_mod::lemma_fundamental_div_mod(v, 10);
        vstd::arithmetic::div_mod::lemma_mod_division_less_than_divisor(v, 10);
        if v / 10 == 0 {
            assert(v == 10 * 0 + v % 10);
        }
    }
    assert(spec_dec_digits(v / 10).len() >= 1);
}

/// Build an item's derived nonce.
pub fn make_derived_nonce(nonce: &String, item: usize) -> (r: String)
    requires
        item <= 1_000_000,
    ensures
        r@ == derived_nonce(nonce@, item as int),
{
    let digits = dec_string(item as u64);
    let r = clone_string(nonce).concat("#").concat(digits.as_str());
    proof {
        reveal_strlit("#");
        assert(r@ =~= derived_nonce(nonce@, item as int));
    }
    r
}

/// Decimal rendering of a small number.
fn dec_string(v: u64) -> (r: String)
    requires
        v <= 1_000_000,
    ensures
        r@ == spec_dec_digits(v as int),
    decreases v,
{
    if v < 10 {
        let b: u8 = 48 + v as u8;
        let mut bytes: Vec<u8> = Vec::new();
        bytes.push(b);
        let s = crate::codec::bytes_to_string(&bytes);
        proof {
            assert(s@ =~= spec_dec_digits(v as int));
        }
        s
    } else {
        proof {
            vstd::arithmetic::div_mod::lemma_div_pos_is_pos(v as int, 10);
            vstd::arithmetic::div_mod::lemma_div_decreases(v as int, 10);
            vstd::arithmetic::div_mod::lemma_mod_division_less_than_divisor(v as int, 10);
        }
        let prefix = dec_string(v / 10);
        let d: u8 = 48 + (v % 10) as u8;
        let mut bytes: Vec<u8> = Vec::new();
        bytes.push(d);
        let tail = crate::codec::bytes_to_string(&bytes);
        let r = prefix.concat(tail.as_str());
        proof {
            assert(r@ =~= spec_dec_digits(v as int));
        }
        r
    }
}


} // verus!
