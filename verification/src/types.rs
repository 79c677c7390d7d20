//! Core data model of the trading engine.
//!
//! Prices, premiums and PnL are integer hundredths of a rupee; percentage
//! parameters are basis points (hundredths of a percent); VIX levels are
//! hundredths of a point; times are Unix epoch milliseconds.

use vstd::prelude::*;
use vstd::string::StringExecFns;

verus! {

/// Upper bound on any price this engine handles, in hundredths of a rupee
/// (ten billion rupees).  Keeps all indicator arithmetic inside `i64`.
pub const MAX_PRICE: i64 = 1_000_000_000_000;

/// Upper bound on any single bar's volume.
pub const MAX_VOLUME: i64 = 1_000_000_000_000;

/// Upper bound on an option premium, in hundredths of a rupee.
pub const MAX_PREMIUM: i64 = 10_000_000_000;

/// Upper bound on a position's quantity.
pub const MAX_QUANTITY: i64 = 100_000;

/// Compare two string slices by contents.
pub fn str_eq(a: &str, b: &str) -> (r: bool)
    ensures
        r == (a@ == b@),
{
    let sa = String::from_str(a);
    let sb = String::from_str(b);
    sa == sb
}

/// One OHLCV bar.  A bar is identified by its boundary timestamp; once
/// `bar_complete` is set it is never mutated again.
#[derive(Debug, Clone, Copy, PartialEq, Eq, Structural)]
pub struct Bar {
    pub timestamp_ms: i64,
    pub open: i64,
    pub high: i64,
    pub low: i64,
    pub close: i64,
    pub volume: i64,
    pub bar_complete: bool,
}

impl Bar {
    /// Prices ordered and inside the engine's fixed bounds.
    pub open spec fn well_formed(self) -> bool {
        0 <= self.low <= self.open <= self.high
            && self.low <= self.close <= self.high
            && self.high <= MAX_PRICE
            && 0 <= self.volume <= MAX_VOLUME
            && 0 <= self.timestamp_ms
    }
}

/// Live tick from the market-data feed.
#[derive(Debug, Clone)]
pub struct Tick {
    pub symbol: String,
    pub token: String,
    pub ltp: i64,
    pub bid: i64,
    pub ask: i64,
    pub volume: i64,
    pub timestamp_ms: i64,
}

impl Tick {
    pub open spec fn well_formed(self) -> bool {
        0 <= self.ltp <= MAX_PRICE && 0 <= self.volume <= MAX_VOLUME && 0 <= self.timestamp_ms
    }
}

/// Option type (call or put, European style).
#[derive(Debug, Clone, Copy, PartialEq, Eq, Structural)]
pub enum OptionType {
    CE,
    PE,
}

impl OptionType {
    pub fn as_str(&self) -> (r: &str)
        ensures
            r@ == (match *self {
                OptionType::CE => "CE"@,
                OptionType::PE => "PE"@,
            }),
    {
        match self {
            OptionType::CE => "CE",
            OptionType::PE => "PE",
        }
    }
}

/// Trade side.
#[derive(Debug, Clone, Copy, PartialEq, Eq, Structural)]
pub enum Side {
    Buy,
    Sell,
}

impl Side {
    pub fn as_str(&self) -> (r: &str)
        ensures
            r@ == (match *self {
                Side::Buy => "BUY"@,
                Side::Sell => "SELL"@,
            }),
    {
        match self {
            Side::Buy => "BUY",
            Side::Sell => "SELL",
        }
    }
}

/// Order type.
#[derive(Debug, Clone, Copy, PartialEq, Eq, Structural)]
pub enum OrderType {
    Limit,
    Market,
}

impl OrderType {
    pub fn as_str(&self) -> (r: &str)
        ensures
            r@ == (match *self {
                OrderType::Limit => "LIMIT"@,
                OrderType::Market => "MARKET"@,
            }),
    {
        match self {
            OrderType::Limit => "LIMIT",
            OrderType::Market => "MARKET",
        }
    }
}

/// Order status; `Filled`, `Rejected`, `Cancelled` and `Failed` are
/// terminal.
#[derive(Debug, Clone, Copy, PartialEq, Eq, Structural)]
pub enum OrderStatus {
    Pending,
    Submitted,
    PartiallyFilled,
    Filled,
    Rejected,
    Cancelled,
    Failed,
}

/// Position status.
#[derive(Debug, Clone, Copy, PartialEq, Eq, Structural)]
pub enum PositionStatus {
    Open,
    Closing,
    Closed,
}

/// Daily direction decided by the strategy.
#[derive(Debug, Clone, Copy, PartialEq, Eq, Structural)]
pub enum Direction {
    CE,
    PE,
    NoTrade,
}

impl Direction {
    pub fn as_str(&self) -> (r: &str)
        ensures
            r@ == (match *self {
                Direction::CE => "CE"@,
                Direction::PE => "PE"@,
                Direction::NoTrade => "NO_TRADE"@,
            }),
    {
        match self {
            Direction::CE => "CE",
            Direction::PE => "PE",
            Direction::NoTrade => "NO_TRADE",
        }
    }

    pub fn from_str(s: &str) -> (r: Option<Direction>)
        ensures
            r == (if s@ == "CE"@ {
                Some(Direction::CE)
            } else if s@ == "PE"@ {
                Some(Direction::PE)
            } else if s@ == "NO_TRADE"@ {
                Some(Direction::NoTrade)
            } else {
                None::<Direction>
            }),
    {
        if str_eq(s, "CE") {
            Some(Direction::CE)
        } else if str_eq(s, "PE") {
            Some(Direction::PE)
        } else if str_eq(s, "NO_TRADE") {
            Some(Direction::NoTrade)
        } else {
            None
        }
    }
}

/// Market session state.
#[derive(Debug, Clone, Copy, PartialEq, Eq, Structural)]
pub enum SessionState {
    PreOpen,
    Open,
    Closed,
    PostMarket,
}

impl SessionState {
    pub fn as_str(&self) -> (r: &str)
        ensures
            r@ == (match *self {
                SessionState::PreOpen => "PREOPEN"@,
                SessionState::Open => "OPEN"@,
                SessionState::Closed => "CLOSED"@,
                SessionState::PostMarket => "POST_MARKET"@,
            }),
    {
        match self {
            SessionState::PreOpen => "PREOPEN",
            SessionState::Open => "OPEN",
            SessionState::Closed => "CLOSED",
            SessionState::PostMarket => "POST_MARKET",
        }
    }
}

/// Exit priority classes; a smaller rank wins when several exit reasons
/// fire for one position.
#[derive(Debug, Clone, Copy, PartialEq, Eq, Structural)]
pub enum ExitPriority {
    Mandatory,
    Risk,
    Profit,
    Technical,
}

impl ExitPriority {
    /// Numeric rank: mandatory exits dominate risk exits, which dominate
    /// profit-taking, which dominates technical exits.
    pub fn rank(&self) -> (r: u8)
        ensures
            r == (match *self {
                ExitPriority::Mandatory => 1u8,
                ExitPriority::Risk => 2u8,
                ExitPriority::Profit => 3u8,
                ExitPriority::Technical => 4u8,
            }),
    {
        match self {
            ExitPriority::Mandatory => 1,
            ExitPriority::Risk => 2,
            ExitPriority::Profit => 3,
            ExitPriority::Technical => 4,
        }
    }
}

/// A live option position.
#[derive(Debug, Clone)]
pub struct Position {
    pub position_id: String,
    pub symbol: String,
    pub underlying: String,
    pub strike: i64,
    pub option_type: OptionType,
    pub side: Side,
    pub quantity: i64,
    pub entry_price: i64,
    pub entry_time_ms: i64,
    pub underlying_entry: i64,
    pub stop_loss: i64,
    pub target: Option<i64>,
    pub trailing_stop: Option<i64>,
    pub trailing_active: bool,
    pub current_price: i64,
    pub pnl: i64,
    pub pnl_pct: i64,
    pub status: PositionStatus,
    pub entry_reason: String,
    pub idempotency_key: String,
}

impl Position {
    pub open spec fn well_formed(self) -> bool {
        &&& 0 < self.entry_price <= MAX_PREMIUM
        &&& 0 <= self.current_price <= MAX_PREMIUM
        &&& 0 < self.quantity <= MAX_QUANTITY
        &&& 0 <= self.stop_loss <= MAX_PREMIUM
        &&& (match self.target {
            Some(t) => 0 <= t <= MAX_PREMIUM,
            None => true,
        })
        &&& (match self.trailing_stop {
            Some(t) => 0 <= t <= MAX_PREMIUM,
            None => true,
        })
        &&& (self.trailing_active ==> self.trailing_stop is Some)
        &&& 0 <= self.entry_time_ms
    }
}

/// A tracked order.
#[derive(Debug, Clone)]
pub struct Order {
    pub order_id: String,
    pub broker_order_id: Option<String>,
    pub position_id: String,
    pub symbol: String,
    pub side: Side,
    pub order_type: OrderType,
    pub quantity: i64,
    pub limit_price: Option<i64>,
    pub fill_price: Option<i64>,
    pub fill_quantity: i64,
    pub fill_time_ms: Option<i64>,
    pub status: OrderStatus,
    pub attempts: u32,
    pub retry_count: u32,
    pub idempotency_key: String,
    pub created_at_ms: i64,
    pub updated_at_ms: i64,
}

/// A completed trade (snapshot of a closed position).
#[derive(Debug, Clone)]
pub struct Trade {
    pub trade_id: String,
    pub position_id: String,
    pub symbol: String,
    pub underlying: String,
    pub strike: i64,
    pub option_type: OptionType,
    pub quantity: i64,
    pub entry_time_ms: i64,
    pub entry_price: i64,
    pub entry_reason: String,
    pub exit_time_ms: i64,
    pub exit_price: i64,
    pub exit_reason: String,
    pub secondary_reasons: Vec<String>,
    pub pnl_gross: i64,
    pub pnl_gross_pct: i64,
    pub pnl_net: i64,
    pub brokerage: i64,
    pub duration_sec: i64,
    pub high_price: i64,
    pub low_price: i64,
    pub vix_at_entry: i64,
    pub vix_at_exit: i64,
}

/// One instrument row of the instrument master.  `strike` and `tick_size`
/// are hundredths of a rupee.
#[derive(Debug, Clone)]
pub struct Instrument {
    pub token: String,
    pub symbol: String,
    pub name: String,
    pub expiry: String,
    pub strike: i64,
    pub lotsize: i64,
    pub instrument_type: String,
    pub exch_seg: String,
    pub tick_size: i64,
}

/// Position-sizing multipliers anchored at VIX levels, in basis points of
/// the base size (10000 = x1).
#[derive(Debug, Clone)]
pub struct VixMultipliers {
    pub vix_12_or_below: i64,
    pub vix_20: i64,
    pub vix_30: i64,
    pub vix_30_or_above: i64,
}

/// Position-sizing multipliers by days to expiry, in basis points.
#[derive(Debug, Clone)]
pub struct DteMultipliers {
    pub gte_5_days: i64,
    pub days_2_to_4: i64,
    pub day_1: i64,
}

/// Exchange freeze-quantity limits per underlying.
#[derive(Debug, Clone)]
pub struct BrokerLimits {
    pub nifty: i64,
    pub banknifty: i64,
    pub finnifty: i64,
}

/// Lot sizes per underlying.
#[derive(Debug, Clone)]
pub struct LotSizes {
    pub nifty: i64,
    pub banknifty: i64,
    pub finnifty: i64,
}

/// Engine configuration.  Percentage fields are basis points, VIX fields
/// hundredths of a point, price fields hundredths of a rupee.
#[derive(Debug, Clone)]
pub struct Config {
    // Time windows, as "HH:MM:SS" local strings.
    pub entry_window_start: String,
    pub entry_window_end: String,
    pub eod_exit_time: String,
    pub market_close_time: String,
    // Bar processing.
    pub bar_ready_grace_sec: u64,
    // Risk parameters.
    pub option_stop_loss_pct: i64,
    pub trail_activate_pnl_pct: i64,
    pub trail_gap_pct: i64,
    pub max_positions: usize,
    pub daily_loss_limit_pct: i64,
    pub consecutive_loss_limit: usize,
    // VIX circuit breaker.
    pub vix_threshold: i64,
    pub vix_spike_threshold: i64,
    pub vix_resume_threshold: i64,
    // Position sizing.
    pub base_position_size_pct: i64,
    pub vix_mult_anchors: VixMultipliers,
    pub dte_mult: DteMultipliers,
    // Order retry ladder.
    pub order_retry_steps_pct: Vec<i64>,
    pub order_max_retries: u32,
    pub order_retry_backoffs_sec: Vec<u64>,
    pub retry_cap_sec: u64,
    // Token management.
    pub token_expiry_warning_min: i64,
    pub token_grace_to_flatten_sec: u64,
    pub token_check_interval_sec: u64,
    // Data quality.
    pub data_gap_threshold_sec: u64,
    pub data_gap_check_interval_sec: u64,
    pub recovery_timeout_sec: u64,
    // Broker constraints.
    pub freeze_quantity: BrokerLimits,
    pub lot_size: LotSizes,
    pub tick_size: i64,
    pub price_band_pct: i64,
    // Rate limiting.
    pub rate_limit_orders: u32,
    pub rate_limit_market_data: u32,
    pub rate_limit_historical: u32,
    // WebSocket.
    pub ws_ping_interval_sec: u64,
    pub ws_pong_timeout_sec: u64,
    pub ws_reconnect_backoff_sec: Vec<u64>,
    pub ws_max_reconnects_per_minute: u32,
    // Strategy parameters (ADX / RSI thresholds in hundredths).
    pub daily_adx_period: usize,
    pub daily_adx_threshold: i64,
    pub hourly_adx_period: usize,
    pub hourly_adx_threshold: i64,
    pub rsi_period: usize,
    pub rsi_oversold: i64,
    pub rsi_overbought: i64,
    pub ema_period: usize,
    // Strike selection.
    pub strike_increment: i64,
    pub initial_strike_range: i64,
    pub strike_subscription_count: usize,
    // Feature flags.
    pub strategy_invalidate_on_recompute: bool,
    pub use_trailing_stop: bool,
    pub use_underlying_soft_check: bool,
    pub enable_paper_trading: bool,
    // Logging.
    pub log_level: String,
    pub log_rotation: String,
    pub log_retention_days: u32,
    pub audit_trail_enabled: bool,
    // Broker credentials.
    pub angel_one_client_code: String,
    pub angel_one_password: String,
    pub angel_one_mpin: Option<String>,
    pub angel_one_totp_secret: String,
    pub angel_one_api_key: String,
    pub angel_one_secret_key: String,
}

impl Config {
    /// The bounds the rest of the engine relies on; established by
    /// `validate_config` at load time.
    pub open spec fn valid(self) -> bool {
        0 < self.option_stop_loss_pct <= 10_000
            && 0 < self.daily_loss_limit_pct <= 10_000
            && 0 <= self.trail_gap_pct < 10_000
            && 0 <= self.trail_activate_pnl_pct <= 1_000_000
            && self.vix_spike_threshold > self.vix_resume_threshold
            && 2 <= self.daily_adx_period <= 1000
            && 2 <= self.hourly_adx_period <= 1000
            && 2 <= self.rsi_period <= 1000
            && 1 <= self.ema_period <= 1000
            && 0 < self.strike_increment <= 100_000
            && 0 < self.tick_size <= 1_000_000
            && 0 <= self.price_band_pct <= 1_000_000
            && 0 < self.base_position_size_pct <= 1_000_000
            && 0 < self.lot_size.nifty <= 1_000_000
            && 0 < self.lot_size.banknifty <= 1_000_000
            && 0 < self.lot_size.finnifty <= 1_000_000
            && 0 < self.freeze_quantity.nifty <= 10_000_000
            && 0 < self.freeze_quantity.banknifty <= 10_000_000
            && 0 < self.freeze_quantity.finnifty <= 10_000_000
            && 0 <= self.vix_mult_anchors.vix_12_or_below <= 100_000
            && 0 <= self.vix_mult_anchors.vix_20 <= 100_000
            && 0 <= self.vix_mult_anchors.vix_30 <= 100_000
            && 0 <= self.vix_mult_anchors.vix_30_or_above <= 100_000
            && 0 <= self.dte_mult.gte_5_days <= 100_000
            && 0 <= self.dte_mult.days_2_to_4 <= 100_000
            && 0 <= self.dte_mult.day_1 <= 100_000
            && self.max_positions <= 1000
            && self.order_retry_steps_pct.len() <= 100
            && (forall|i: int| 0 <= i < self.order_retry_steps_pct.len()
                ==> 0 <= #[trigger] self.order_retry_steps_pct[i] <= 100_000)
    }

    /// Lot size for an underlying; unknown names fall back to the NIFTY
    /// lot.
    pub fn get_lot_size(&self, underlying: &str) -> (r: i64)
        ensures
            r == (if underlying@ == "BANKNIFTY"@ {
                self.lot_size.banknifty
            } else if underlying@ == "FINNIFTY"@ {
                self.lot_size.finnifty
            } else if underlying@ == "NIFTY"@ {
                self.lot_size.nifty
            } else {
                50int as i64
            }),
    {
        if str_eq(underlying, "BANKNIFTY") {
            self.lot_size.banknifty
        } else if str_eq(underlying, "FINNIFTY") {
            self.lot_size.finnifty
        } else if str_eq(underlying, "NIFTY") {
            self.lot_size.nifty
        } else {
            50
        }
    }

    /// Freeze-quantity limit for an underlying; unknown names fall back to
    /// the NIFTY limit.
    pub fn get_freeze_quantity(&self, underlying: &str) -> (r: i64)
        ensures
            r == (if underlying@ == "BANKNIFTY"@ {
                self.freeze_quantity.banknifty
            } else if underlying@ == "FINNIFTY"@ {
                self.freeze_quantity.finnifty
            } else if underlying@ == "NIFTY"@ {
                self.freeze_quantity.nifty
            } else {
                36_000int as i64
            }),
    {
        if str_eq(underlying, "BANKNIFTY") {
            self.freeze_quantity.banknifty
        } else if str_eq(underlying, "FINNIFTY") {
            self.freeze_quantity.finnifty
        } else if str_eq(underlying, "NIFTY") {
            self.freeze_quantity.nifty
        } else {
            36_000
        }
    }
}

} // verus!
