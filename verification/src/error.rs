//! Error taxonomy of the engine, each kind mapped to a stable short code
//! and classified by its recovery policy.

use vstd::prelude::*;

verus! {

/// Every failure the engine reports.
#[derive(Debug)]
pub enum TradingError {
    // Authentication.
    AuthenticationFailed(String),
    TokenExpired(String),
    TokenRefreshFailed(String),
    // Network.
    HttpError(String),
    WebSocketError(String),
    WebSocketDisconnected(String),
    NetworkTimeout(String),
    // Data.
    DataGap(String),
    InvalidBarData(String),
    MissingData(String),
    DeserializationError(String),
    // Orders.
    OrderPlacementFailed(String),
    OrderNotFound(String),
    OrderRejected(String),
    InsufficientMargin(String),
    FreezeQuantityBreach(String),
    PriceBandBreach(String),
    // Positions.
    PositionNotFound(String),
    PositionLimitExceeded(String),
    DuplicatePosition(String),
    // Risk.
    DailyLossLimit(String),
    VixSpike(String),
    RiskCheckFailed(String),
    // Strategy.
    InvalidStrategyState(String),
    NoTradeSignal(String),
    AlignmentLost(String),
    // Configuration.
    ConfigError(String),
    InvalidParameter(String),
    // File I/O.
    FileError(String),
    FileNotFound(String),
    FileWriteFailed(String),
    // Market session.
    MarketClosed(String),
    OutsideEntryWindow(String),
    NonTradingDay(String),
    // Broker.
    BrokerApiError { code: String, message: String },
    RateLimitExceeded(String),
    InstrumentNotFound(String),
    // System.
    SystemShutdown(String),
    FatalError(String),
    GracefulExit(String),
    // Event bus.
    EventDispatchFailed(String),
    EventHandlerError(String),
    // Idempotency.
    DuplicateEvent(String),
    IdempotencyCollision(String),
    // Recovery.
    RecoveryFailed(String),
    RecoveryTimeout(String),
    // Generic.
    InternalError(String),
    Other(String),
}

impl TradingError {
    /// A transient failure the caller may retry.
    pub open spec fn spec_is_recoverable(&self) -> bool {
        match self {
            TradingError::NetworkTimeout(_) => true,
            TradingError::WebSocketDisconnected(_) => true,
            TradingError::DataGap(_) => true,
            TradingError::OrderPlacementFailed(_) => true,
            TradingError::RateLimitExceeded(_) => true,
            _ => false,
        }
    }

    pub fn is_recoverable(&self) -> (r: bool)
        ensures
            r == self.spec_is_recoverable(),
    {
        match self {
            TradingError::NetworkTimeout(_)
            | TradingError::WebSocketDisconnected(_)
            | TradingError::DataGap(_)
            | TradingError::OrderPlacementFailed(_)
            | TradingError::RateLimitExceeded(_) => true,
            _ => false,
        }
    }

    /// A failure that must halt the whole engine.
    pub open spec fn spec_is_fatal(&self) -> bool {
        match self {
            TradingError::FatalError(_) => true,
            TradingError::TokenRefreshFailed(_) => true,
            TradingError::SystemShutdown(_) => true,
            _ => false,
        }
    }

    pub fn is_fatal(&self) -> (r: bool)
        ensures
            r == self.spec_is_fatal(),
    {
        match self {
            TradingError::FatalError(_)
            | TradingError::TokenRefreshFailed(_)
            | TradingError::SystemShutdown(_) => true,
            _ => false,
        }
    }

    /// A failure on which all open positions must be flattened.
    pub open spec fn spec_requires_exit(&self) -> bool {
        match self {
            TradingError::VixSpike(_) => true,
            TradingError::DailyLossLimit(_) => true,
            TradingError::TokenExpired(_) => true,
            TradingError::MarketClosed(_) => true,
            _ => false,
        }
    }

    pub fn requires_exit(&self) -> (r: bool)
        ensures
            r == self.spec_requires_exit(),
    {
        match self {
            TradingError::VixSpike(_)
            | TradingError::DailyLossLimit(_)
            | TradingError::TokenExpired(_)
            | TradingError::MarketClosed(_) => true,
            _ => false,
        }
    }

    /// The stable short code of each kind, for logs and monitoring.
    pub fn error_code(&self) -> (r: &str)
        ensures
            self is DuplicateEvent ==> r@ == "IDEM_001"@,
            self is DailyLossLimit ==> r@ == "RISK_001"@,
            self is VixSpike ==> r@ == "RISK_002"@,
            self is OrderPlacementFailed ==> r@ == "ORDER_001"@,
    {
        match self {
            TradingError::AuthenticationFailed(_) => "AUTH_001",
            TradingError::TokenExpired(_) => "AUTH_002",
            TradingError::TokenRefreshFailed(_) => "AUTH_003",
            TradingError::HttpError(_) => "NET_001",
            TradingError::WebSocketError(_) => "NET_002",
            TradingError::WebSocketDisconnected(_) => "NET_003",
            TradingError::NetworkTimeout(_) => "NET_004",
            TradingError::DataGap(_) => "DATA_001",
            TradingError::InvalidBarData(_) => "DATA_002",
            TradingError::MissingData(_) => "DATA_003",
            TradingError::DeserializationError(_) => "DATA_004",
            TradingError::OrderPlacementFailed(_) => "ORDER_001",
            TradingError::OrderNotFound(_) => "ORDER_002",
            TradingError::OrderRejected(_) => "ORDER_003",
            TradingError::InsufficientMargin(_) => "ORDER_004",
            TradingError::FreezeQuantityBreach(_) => "ORDER_005",
            TradingError::PriceBandBreach(_) => "ORDER_006",
            TradingError::PositionNotFound(_) => "POS_001",
            TradingError::PositionLimitExceeded(_) => "POS_002",
            TradingError::DuplicatePosition(_) => "POS_003",
            TradingError::DailyLossLimit(_) => "RISK_001",
            TradingError::VixSpike(_) => "RISK_002",
            TradingError::RiskCheckFailed(_) => "RISK_003",
            TradingError::InvalidStrategyState(_) => "STRAT_001",
            TradingError::NoTradeSignal(_) => "STRAT_002",
            TradingError::AlignmentLost(_) => "STRAT_003",
            TradingError::ConfigError(_) => "CFG_001",
            TradingError::InvalidParameter(_) => "CFG_002",
            TradingError::FileError(_) => "FILE_001",
            TradingError::FileNotFound(_) => "FILE_002",
            TradingError::FileWriteFailed(_) => "FILE_003",
            TradingError::MarketClosed(_) => "MKT_001",
            TradingError::OutsideEntryWindow(_) => "MKT_002",
            TradingError::NonTradingDay(_) => "MKT_003",
            TradingError::BrokerApiError { .. } => "BROKER_001",
            TradingError::RateLimitExceeded(_) => "BROKER_002",
            TradingError::InstrumentNotFound(_) => "BROKER_003",
            TradingError::SystemShutdown(_) => "SYS_001",
            TradingError::FatalError(_) => "SYS_002",
            TradingError::GracefulExit(_) => "SYS_003",
            TradingError::EventDispatchFailed(_) => "EVENT_001",
            TradingError::EventHandlerError(_) => "EVENT_002",
            TradingError::DuplicateEvent(_) => "IDEM_001",
            TradingError::IdempotencyCollision(_) => "IDEM_002",
            TradingError::RecoveryFailed(_) => "REC_001",
            TradingError::RecoveryTimeout(_) => "REC_002",
            TradingError::InternalError(_) => "INT_001",
            TradingError::Other(_) => "GEN_001",
        }
    }
}

} // verus!
