//! Configuration validation.  Parsing the configuration file is the
//! caller's job; the decoded value passes through `validate_config`,
//! which establishes every bound the engine's components rely on.

use vstd::prelude::*;
use vstd::string::StringExecFns;
use crate::types::Config;
use crate::error::TradingError;

verus! {

/// All bounds of `Config::valid`, checked one by one; the error names
/// the first violated group.
pub fn validate_config(config: &Config) -> (r: Result<(), TradingError>)
    ensures
        r is Ok <==> config.valid(),
        r matches Err(e) ==> e is ConfigError,
{
    if !(0 < config.option_stop_loss_pct && config.option_stop_loss_pct <= 10_000) {
        return Err(TradingError::ConfigError(String::from_str("option_stop_loss_pct")));
    }
    if !(0 < config.daily_loss_limit_pct && config.daily_loss_limit_pct <= 10_000) {
        return Err(TradingError::ConfigError(String::from_str("daily_loss_limit_pct")));
    }
    if !(0 <= config.trail_gap_pct && config.trail_gap_pct < 10_000) {
        return Err(TradingError::ConfigError(String::from_str("trail_gap_pct")));
    }
    if !(0 <= config.trail_activate_pnl_pct && config.trail_activate_pnl_pct <= 1_000_000) {
        return Err(TradingError::ConfigError(String::from_str("trail_activate_pnl_pct")));
    }
    if !(config.vix_spike_threshold > config.vix_resume_threshold) {
        return Err(TradingError::ConfigError(String::from_str(
            "vix_spike_threshold must exceed vix_resume_threshold")));
    }
    if !(2 <= config.daily_adx_period && config.daily_adx_period <= 1000) {
        return Err(TradingError::ConfigError(String::from_str("daily_adx_period")));
    }
    if !(2 <= config.hourly_adx_period && config.hourly_adx_period <= 1000) {
        return Err(TradingError::ConfigError(String::from_str("hourly_adx_period")));
    }
    if !(2 <= config.rsi_period && config.rsi_period <= 1000) {
        return Err(TradingError::ConfigError(String::from_str("rsi_period")));
    }
    if !(1 <= config.ema_period && config.ema_period <= 1000) {
        return Err(TradingError::ConfigError(String::from_str("ema_period")));
    }
    if !(0 < config.strike_increment && config.strike_increment <= 100_000) {
        return Err(TradingError::ConfigError(String::from_str("strike_increment")));
    }
    if !(0 < config.tick_size && config.tick_size <= 1_000_000) {
        return Err(TradingError::ConfigError(String::from_str("tick_size")));
    }
    if !(0 <= config.price_band_pct && config.price_band_pct <= 1_000_000) {
        return Err(TradingError::ConfigError(String::from_str("price_band_pct")));
    }
    if !(0 < config.base_position_size_pct && config.base_position_size_pct <= 1_000_000) {
        return Err(TradingError::ConfigError(String::from_str("base_position_size_pct")));
    }
    if !(0 < config.lot_size.nifty && config.lot_size.nifty <= 1_000_000
        && 0 < config.lot_size.banknifty && config.lot_size.banknifty <= 1_000_000
        && 0 < config.lot_size.finnifty && config.lot_size.finnifty <= 1_000_000) {
        return Err(TradingError::ConfigError(String::from_str("lot_size")));
    }
    if !(0 < config.freeze_quantity.nifty && config.freeze_quantity.nifty <= 10_000_000
        && 0 < config.freeze_quantity.banknifty && config.freeze_quantity.banknifty <= 10_000_000
        && 0 < config.freeze_quantity.finnifty && config.freeze_quantity.finnifty <= 10_000_000) {
        return Err(TradingError::ConfigError(String::from_str("freeze_quantity")));
    }
    if !(0 <= config.vix_mult_anchors.vix_12_or_below
        && config.vix_mult_anchors.vix_12_or_below <= 100_000
        && 0 <= config.vix_mult_anchors.vix_20 && config.vix_mult_anchors.vix_20 <= 100_000
        && 0 <= config.vix_mult_anchors.vix_30 && config.vix_mult_anchors.vix_30 <= 100_000
        && 0 <= config.vix_mult_anchors.vix_30_or_above
        && config.vix_mult_anchors.vix_30_or_above <= 100_000) {
        return Err(TradingError::ConfigError(String::from_str("vix_mult_anchors")));
    }
    if !(0 <= config.dte_mult.gte_5_days && config.dte_mult.gte_5_days <= 100_000
        && 0 <= config.dte_mult.days_2_to_4 && config.dte_mult.days_2_to_4 <= 100_000
        && 0 <= config.dte_mult.day_1 && config.dte_mult.day_1 <= 100_000) {
        return Err(TradingError::ConfigError(String::from_str("dte_mult")));
    }
    if !(config.max_positions <= 1000) {
        return Err(TradingError::ConfigError(String::from_str("max_positions")));
    }
    if !(config.order_retry_steps_pct.len() <= 100) {
        return Err(TradingError::ConfigError(String::from_str("order_retry_steps_pct")));
    }
    let mut i: usize = 0;
    while i < config.order_retry_steps_pct.len()
        invariant
            0 <= i <= config.order_retry_steps_pct@.len(),
            forall|j: int| 0 <= j < i
                ==> 0 <= #[trigger] config.order_retry_steps_pct@[j] <= 100_000,
        decreases config.order_retry_steps_pct@.len() - i,
    {
        let step = config.order_retry_steps_pct[i];
        if !(0 <= step && step <= 100_000) {
            return Err(TradingError::ConfigError(String::from_str(
                "order_retry_steps_pct entry")));
        }
        i = i + 1;
    }
    Ok(())
}

} // verus!
