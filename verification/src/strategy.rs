//! The ADX strategy: daily direction, hourly alignment, entry filters and
//! the technical exit; the daily bias calculator and the hourly DI
//! crossover monitor.

use vstd::prelude::*;
use vstd::string::StringExecFns;
use crate::types::{Bar, Direction, OptionType, Side, MAX_PRICE, str_eq};
use crate::indicators::{calculate_adx, calculate_rsi, calculate_ema, round_to_strike,
    spec_adx, spec_rsi, spec_ema, bars_well_formed, MAX_BARS};
use crate::error::TradingError;
use crate::store::clone_string;

verus! {

/// The daily direction rule: a weak trend is no trade; otherwise the
/// dominant directional indicator decides.
pub open spec fn spec_daily_direction(adx: int, pdi: int, mdi: int, threshold: int)
    -> Direction {
    if adx < threshold {
        Direction::NoTrade
    } else if pdi > mdi {
        Direction::CE
    } else if mdi > pdi {
        Direction::PE
    } else {
        Direction::NoTrade
    }
}

/// Hourly alignment: trend strong enough and DI asymmetry matching the
/// daily direction.
pub open spec fn spec_aligned(dir: Direction, adx: int, pdi: int, mdi: int, threshold: int)
    -> bool {
    match dir {
        Direction::CE => adx >= threshold && pdi > mdi,
        Direction::PE => adx >= threshold && mdi > pdi,
        Direction::NoTrade => false,
    }
}

/// The RSI entry filter for a direction.
pub open spec fn spec_rsi_ok(dir: Direction, rsi: int, oversold: int, overbought: int) -> bool {
    match dir {
        Direction::CE => rsi < overbought,
        Direction::PE => rsi > oversold,
        Direction::NoTrade => false,
    }
}

/// The EMA entry filter for a direction.
pub open spec fn spec_ema_ok(dir: Direction, last_close: int, ema: int) -> bool {
    match dir {
        Direction::CE => last_close > ema,
        Direction::PE => last_close < ema,
        Direction::NoTrade => false,
    }
}

/// An entry signal: always a long option at the floored ATM strike.
#[derive(Debug, Clone)]
pub struct EntrySignal {
    pub direction: Direction,
    pub underlying_ltp: i64,
    pub strike: i64,
    pub option_type: OptionType,
    pub side: Side,
    pub reason: String,
    pub confidence: i64,
}

/// The ADX strategy state machine.
pub struct AdxStrategy {
    daily_direction: Option<Direction>,
    last_daily_analysis_ms: Option<i64>,
    last_hourly_analysis_ms: Option<i64>,
    daily_adx_period: usize,
    daily_adx_threshold: i64,
    hourly_adx_period: usize,
    hourly_adx_threshold: i64,
    rsi_period: usize,
    rsi_oversold: i64,
    rsi_overbought: i64,
    ema_period: usize,
    vix_threshold: i64,
    strike_increment: i64,
}

impl AdxStrategy {
    pub closed spec fn direction(&self) -> Option<Direction> {
        self.daily_direction
    }

    pub closed spec fn daily_period(&self) -> int {
        self.daily_adx_period as int
    }

    pub closed spec fn daily_threshold(&self) -> int {
        self.daily_adx_threshold as int
    }

    pub closed spec fn hourly_period(&self) -> int {
        self.hourly_adx_period as int
    }

    pub closed spec fn hourly_threshold(&self) -> int {
        self.hourly_adx_threshold as int
    }

    pub closed spec fn rsi_cfg(&self) -> (int, int, int) {
        (self.rsi_period as int, self.rsi_oversold as int, self.rsi_overbought as int)
    }

    pub closed spec fn ema_cfg(&self) -> int {
        self.ema_period as int
    }

    pub closed spec fn vix_cfg(&self) -> int {
        self.vix_threshold as int
    }

    pub closed spec fn strike_inc(&self) -> int {
        self.strike_increment as int
    }

    pub open spec fn inv(&self) -> bool {
        &&& 1 <= self.daily_period() <= 1000
        &&& 1 <= self.hourly_period() <= 1000
        &&& 1 <= self.rsi_cfg().0 <= 1000
        &&& 1 <= self.ema_cfg() <= 1000
        &&& 0 < self.strike_inc() <= 100_000
    }

    pub fn new(daily_adx_period: usize, daily_adx_threshold: i64, hourly_adx_period: usize,
        hourly_adx_threshold: i64, rsi_period: usize, rsi_oversold: i64, rsi_overbought: i64,
        ema_period: usize, vix_threshold: i64, strike_increment: i64) -> (r: AdxStrategy)
        requires
            1 <= daily_adx_period <= 1000,
            1 <= hourly_adx_period <= 1000,
            1 <= rsi_period <= 1000,
            1 <= ema_period <= 1000,
            0 < strike_increment <= 100_000,
        ensures
            r.inv(),
            r.direction() is None,
    {
        AdxStrategy {
            daily_direction: None,
            last_daily_analysis_ms: None,
            last_hourly_analysis_ms: None,
            daily_adx_period,
            daily_adx_threshold,
            hourly_adx_period,
            hourly_adx_threshold,
            rsi_period,
            rsi_oversold,
            rsi_overbought,
            ema_period,
            vix_threshold,
            strike_increment,
        }
    }

    /// Daily direction analysis: ADX on daily bars decides call bias, put
    /// bias or no trade for the day, and the result is stored.
    pub fn analyze_daily(&mut self, daily_bars: &Vec<Bar>, now_ms: i64) -> (r: Result<Direction,
        TradingError>)
        requires
            old(self).inv(),
            daily_bars@.len() <= MAX_BARS,
            bars_well_formed(daily_bars@),
        ensures
            final(self).inv(),
            match spec_adx(daily_bars@, old(self).daily_period()) {
                Some((adx, pdi, mdi)) => {
                    &&& r == Ok::<Direction, TradingError>(spec_daily_direction(adx, pdi, mdi,
                        old(self).daily_threshold()))
                    &&& final(self).direction() == Some(spec_daily_direction(adx, pdi, mdi,
                        old(self).daily_threshold()))
                },
                None => (r matches Err(e) && e is MissingData
                    && final(self).direction() == old(self).direction()),
            },
    {
        let triple = match calculate_adx(daily_bars, self.daily_adx_period) {
            Some(t) => t,
            None => {
                return Err(TradingError::MissingData(String::from_str(
                    "insufficient bars for daily ADX")));
            },
        };
        let (daily_adx, daily_plus_di, daily_minus_di) = triple;
        let direction = if daily_adx < self.daily_adx_threshold {
            Direction::NoTrade
        } else if daily_plus_di > daily_minus_di {
            Direction::CE
        } else if daily_minus_di > daily_plus_di {
            Direction::PE
        } else {
            Direction::NoTrade
        };
        self.daily_direction = Some(direction);
        self.last_daily_analysis_ms = Some(now_ms);
        Ok(direction)
    }

    /// Hourly alignment: requires a stored daily direction; no-trade days
    /// are never aligned.
    pub fn analyze_hourly(&mut self, hourly_bars: &Vec<Bar>, now_ms: i64) -> (r: Result<bool,
        TradingError>)
        requires
            old(self).inv(),
            hourly_bars@.len() <= MAX_BARS,
            bars_well_formed(hourly_bars@),
        ensures
            final(self).inv(),
            final(self).direction() == old(self).direction(),
            old(self).direction() is None ==> (r matches Err(e) && e is InvalidStrategyState),
            old(self).direction() == Some(Direction::NoTrade)
                ==> r == Ok::<bool, TradingError>(false),
            old(self).direction() matches Some(dir) ==> (dir != Direction::NoTrade ==> (
                match spec_adx(hourly_bars@, old(self).hourly_period()) {
                    Some((adx, pdi, mdi)) => r == Ok::<bool, TradingError>(spec_aligned(dir,
                        adx, pdi, mdi, old(self).hourly_threshold())),
                    None => r matches Err(e) && e is MissingData,
                })),
    {
        let daily_direction = match self.daily_direction {
            Some(d) => d,
            None => {
                return Err(TradingError::InvalidStrategyState(String::from_str(
                    "daily direction not set")));
            },
        };
        if daily_direction == Direction::NoTrade {
            return Ok(false);
        }
        let triple = match calculate_adx(hourly_bars, self.hourly_adx_period) {
            Some(t) => t,
            None => {
                return Err(TradingError::MissingData(String::from_str(
                    "insufficient bars for hourly ADX")));
            },
        };
        let (hourly_adx, hourly_plus_di, hourly_minus_di) = triple;
        let aligned = match daily_direction {
            Direction::CE => hourly_adx >= self.hourly_adx_threshold
                && hourly_plus_di > hourly_minus_di,
            Direction::PE => hourly_adx >= self.hourly_adx_threshold
                && hourly_minus_di > hourly_plus_di,
            Direction::NoTrade => false,
        };
        self.last_hourly_analysis_ms = Some(now_ms);
        Ok(aligned)
    }

    /// The entry filters, in order and short-circuiting: RSI, EMA, VIX.
    /// When all pass, the signal is a long option at the floored ATM
    /// strike in the daily direction.
    pub fn evaluate_entry(&self, hourly_bars: &Vec<Bar>, underlying_ltp: i64, vix: i64) -> (
        r: Result<Option<EntrySignal>, TradingError>)
        requires
            self.inv(),
            hourly_bars@.len() <= MAX_BARS,
            bars_well_formed(hourly_bars@),
            0 <= underlying_ltp <= MAX_PRICE,
        ensures
            (self.direction() is None || self.direction() == Some(Direction::NoTrade))
                ==> (r matches Ok(o) && o is None),
            self.direction() matches Some(dir) ==> (dir != Direction::NoTrade ==> ({
                let rsi = spec_rsi(hourly_bars@, self.rsi_cfg().0);
                let ema = spec_ema(hourly_bars@, self.ema_cfg());
                &&& (rsi is None ==> (r matches Err(e) && e is MissingData))
                &&& (rsi matches Some(rv)
                    && !spec_rsi_ok(dir, rv, self.rsi_cfg().1, self.rsi_cfg().2)
                    ==> (r matches Ok(o) && o is None))
                &&& (rsi matches Some(rv)
                    && spec_rsi_ok(dir, rv, self.rsi_cfg().1, self.rsi_cfg().2) ==> {
                    &&& (ema is None ==> (r matches Err(e) && e is MissingData))
                    &&& (ema matches Some(ev) ==> {
                        let close = hourly_bars@.last().close as int;
                        &&& (!spec_ema_ok(dir, close, ev) ==> (r matches Ok(o) && o is None))
                        &&& (spec_ema_ok(dir, close, ev) && vix as int > self.vix_cfg()
                            ==> (r matches Ok(o) && o is None))
                        &&& (spec_ema_ok(dir, close, ev) && vix as int <= self.vix_cfg()
                            ==> (r matches Ok(o) && o matches Some(sig)
                                && sig.direction == dir
                                && sig.underlying_ltp == underlying_ltp
                                && sig.strike as int == (underlying_ltp as int
                                    / (self.strike_inc() * 100)) * self.strike_inc()
                                && sig.option_type == (if dir is CE {
                                    OptionType::CE
                                } else {
                                    OptionType::PE
                                })
                                && sig.side == Side::Buy))
                    })
                })
            })),
    {
        let daily_direction = match self.daily_direction {
            Some(d) => d,
            None => {
                return Ok(None);
            },
        };
        if daily_direction == Direction::NoTrade {
            return Ok(None);
        }
        let rsi = match calculate_rsi(hourly_bars, self.rsi_period) {
            Some(v) => v,
            None => {
                return Err(TradingError::MissingData(String::from_str(
                    "insufficient bars for RSI")));
            },
        };
        let rsi_ok = match daily_direction {
            Direction::CE => rsi < self.rsi_overbought,
            Direction::PE => rsi > self.rsi_oversold,
            Direction::NoTrade => false,
        };
        if !rsi_ok {
            return Ok(None);
        }
        let ema = match calculate_ema(hourly_bars, self.ema_period) {
            Some(v) => v,
            None => {
                return Err(TradingError::MissingData(String::from_str(
                    "insufficient bars for EMA")));
            },
        };
        let last_close = hourly_bars[hourly_bars.len() - 1].close;
        let ema_ok = match daily_direction {
            Direction::CE => last_close > ema,
            Direction::PE => last_close < ema,
            Direction::NoTrade => false,
        };
        if !ema_ok {
            return Ok(None);
        }
        if vix > self.vix_threshold {
            return Ok(None);
        }
        let strike = round_to_strike(underlying_ltp, self.strike_increment);
        let (option_type, side) = match daily_direction {
            Direction::CE => (OptionType::CE, Side::Buy),
            Direction::PE => (OptionType::PE, Side::Buy),
            Direction::NoTrade => {
                return Ok(None);
            },
        };
        let signal = EntrySignal {
            direction: daily_direction,
            underlying_ltp,
            strike,
            option_type,
            side,
            reason: String::from_str("daily and hourly aligned; filters passed"),
            confidence: 8000,
        };
        Ok(Some(signal))
    }

    /// Technical exit: alignment by DI asymmetry alone is lost on the
    /// latest hourly bars.
    pub fn check_technical_exit(&self, entry_direction: Direction, current_bars: &Vec<Bar>)
        -> (r: bool)
        requires
            self.inv(),
            current_bars@.len() <= MAX_BARS,
            bars_well_formed(current_bars@),
        ensures
            r == (match spec_adx(current_bars@, self.hourly_period()) {
                Some((adx, pdi, mdi)) => !(match entry_direction {
                    Direction::CE => pdi > mdi,
                    Direction::PE => mdi > pdi,
                    Direction::NoTrade => false,
                }),
                None => false,
            }),
    {
        match calculate_adx(current_bars, self.hourly_adx_period) {
            Some((_adx, pdi, mdi)) => {
                let aligned = match entry_direction {
                    Direction::CE => pdi > mdi,
                    Direction::PE => mdi > pdi,
                    Direction::NoTrade => false,
                };
                !aligned
            },
            None => false,
        }
    }

    /// The stored daily direction.
    pub fn get_daily_direction(&self) -> (r: Option<Direction>)
        ensures
            r == self.direction(),
    {
        self.daily_direction
    }

    /// Clear all strategy state (end of day).
    pub fn reset(&mut self)
        requires
            old(self).inv(),
        ensures
            final(self).inv(),
            final(self).direction() is None,
    {
        self.daily_direction = None;
        self.last_daily_analysis_ms = None;
        self.last_hourly_analysis_ms = None;
    }
}

/// Daily bias per underlying.
#[derive(Debug, Clone, Copy, PartialEq, Eq, Structural)]
pub enum BiasDirection {
    CE,
    PE,
    NoTrade,
}

impl BiasDirection {
    pub fn as_str(&self) -> (r: &str)
        ensures
            r@ == (match *self {
                BiasDirection::CE => "CE"@,
                BiasDirection::PE => "PE"@,
                BiasDirection::NoTrade => "NO_TRADE"@,
            }),
    {
        match self {
            BiasDirection::CE => "CE",
            BiasDirection::PE => "PE",
            BiasDirection::NoTrade => "NO_TRADE",
        }
    }
}

/// Spot token naming for the bias scan.
#[derive(Debug, Clone)]
pub struct DailyBiasToken {
    pub underlying: String,
    pub spot_token: String,
    pub spot_symbol: String,
    pub asset_type: String,
}

/// Bias result for one underlying; indicator values in hundredths.
#[derive(Debug, Clone)]
pub struct DailyBias {
    pub underlying: String,
    pub spot_token: String,
    pub bias: BiasDirection,
    pub adx: i64,
    pub plus_di: i64,
    pub minus_di: i64,
    pub close_price: i64,
    pub timestamp_ms: i64,
}

/// Counts of a bias scan.
#[derive(Debug, Clone, Copy, PartialEq, Eq, Structural)]
pub struct BiasSummary {
    pub total: usize,
    pub ce_count: usize,
    pub pe_count: usize,
    pub no_trade_count: usize,
}

/// The bias rule: weak trend is no trade; otherwise the dominant DI
/// decides, with ties going to the put side.
pub open spec fn spec_bias(adx: int, pdi: int, mdi: int, threshold: int) -> BiasDirection {
    if adx < threshold {
        BiasDirection::NoTrade
    } else if pdi > mdi {
        BiasDirection::CE
    } else {
        BiasDirection::PE
    }
}

pub struct DailyBiasCalculator {
    adx_period: usize,
    adx_threshold: i64,
}

impl DailyBiasCalculator {
    pub closed spec fn period(&self) -> int {
        self.adx_period as int
    }

    pub closed spec fn threshold(&self) -> int {
        self.adx_threshold as int
    }

    pub open spec fn inv(&self) -> bool {
        1 <= self.period() <= 1000
    }

    pub fn new(adx_period: usize, adx_threshold: i64) -> (r: DailyBiasCalculator)
        requires
            1 <= adx_period <= 1000,
        ensures
            r.inv(),
            r.period() == adx_period,
            r.threshold() == adx_threshold,
    {
        DailyBiasCalculator { adx_period, adx_threshold }
    }

    /// Bias for one underlying from its daily bars; absent when the bars
    /// are too few or the trend arithmetic degenerates.
    pub fn calculate_bias(&self, underlying: &str, spot_token: &str, daily_bars: &Vec<Bar>)
        -> (r: Option<DailyBias>)
        requires
            self.inv(),
            daily_bars@.len() <= MAX_BARS,
            bars_well_formed(daily_bars@),
        ensures
            daily_bars@.len() < self.period() + 1 ==> r is None,
            match spec_adx(daily_bars@, self.period()) {
                Some((adx, pdi, mdi)) => r matches Some(b)
                    && b.bias == spec_bias(adx, pdi, mdi, self.threshold())
                    && b.adx == adx && b.plus_di == pdi && b.minus_di == mdi
                    && b.underlying@ == underlying@
                    && b.spot_token@ == spot_token@
                    && b.close_price == daily_bars@.last().close,
                None => r is None,
            },
    {
        if daily_bars.len() < self.adx_period + 1 {
            return None;
        }
        let triple = match calculate_adx(daily_bars, self.adx_period) {
            Some(t) => t,
            None => {
                return None;
            },
        };
        let (latest_adx, latest_plus_di, latest_minus_di) = triple;
        let last = &daily_bars[daily_bars.len() - 1];
        let bias = if latest_adx < self.adx_threshold {
            BiasDirection::NoTrade
        } else if latest_plus_di > latest_minus_di {
            BiasDirection::CE
        } else {
            BiasDirection::PE
        };
        Some(DailyBias {
            underlying: String::from_str(underlying),
            spot_token: String::from_str(spot_token),
            bias,
            adx: latest_adx,
            plus_di: latest_plus_di,
            minus_di: latest_minus_di,
            close_price: last.close,
            timestamp_ms: last.timestamp_ms,
        })
    }

    /// Bias for every underlying that has bars, in token order.
    pub fn calculate_all_bias(&self, tokens: &Vec<DailyBiasToken>,
        bars_by_token: &Vec<(String, Vec<Bar>)>) -> (r: Vec<DailyBias>)
        requires
            self.inv(),
            forall|i: int| 0 <= i < bars_by_token@.len()
                ==> (#[trigger] bars_by_token@[i]).1@.len() <= MAX_BARS
                    && bars_well_formed(bars_by_token@[i].1@),
        ensures
            r@.len() <= tokens@.len(),
    {
        let mut results: Vec<DailyBias> = Vec::new();
        let mut i: usize = 0;
        while i < tokens.len()
            invariant
                0 <= i <= tokens@.len(),
                results@.len() <= i,
                self.inv(),
                forall|k: int| 0 <= k < bars_by_token@.len()
                    ==> (#[trigger] bars_by_token@[k]).1@.len() <= MAX_BARS
                        && bars_well_formed(bars_by_token@[k].1@),
            decreases tokens@.len() - i,
        {
            let token = &tokens[i];
            let mut j: usize = 0;
            let n = bars_by_token.len();
            let mut found: Option<usize> = None;
            while j < n
                invariant
                    0 <= j <= n,
                    n == bars_by_token@.len(),
                    match found {
                        Some(fj) => fj < n,
                        None => true,
                    },
                decreases n - j,
            {
                if str_eq(bars_by_token[j].0.as_str(), token.spot_token.as_str()) {
                    found = Some(j);
                    break;
                }
                j = j + 1;
            }
            match found {
                Some(fj) => {
                    match self.calculate_bias(token.underlying.as_str(),
                        token.spot_token.as_str(), &bars_by_token[fj].1) {
                        Some(b) => {
                            results.push(b);
                        },
                        None => {},
                    }
                },
                None => {},
            }
            i = i + 1;
        }
        results
    }

    /// The biases pointing one way.
    pub fn filter_by_bias(biases: &Vec<DailyBias>, direction: BiasDirection) -> (r: Vec<
        DailyBias>)
        ensures
            r@.len() <= biases@.len(),
            forall|i: int| 0 <= i < r@.len() ==> (#[trigger] r@[i]).bias == direction,
    {
        let mut out: Vec<DailyBias> = Vec::new();
        let mut i: usize = 0;
        while i < biases.len()
            invariant
                0 <= i <= biases@.len(),
                out@.len() <= i,
                forall|j: int| 0 <= j < out@.len() ==> (#[trigger] out@[j]).bias == direction,
            decreases biases@.len() - i,
        {
            if biases[i].bias == direction {
                out.push(clone_daily_bias(&biases[i]));
            }
            i = i + 1;
        }
        out
    }

    /// Counts per direction; the three counts partition the total.
    pub fn get_summary(biases: &Vec<DailyBias>) -> (r: BiasSummary)
        ensures
            r.total == biases@.len(),
            r.ce_count + r.pe_count + r.no_trade_count == biases@.len(),
    {
        let mut ce: usize = 0;
        let mut pe: usize = 0;
        let mut nt: usize = 0;
        let mut i: usize = 0;
        while i < biases.len()
            invariant
                0 <= i <= biases@.len(),
                ce + pe + nt == i,
            decreases biases@.len() - i,
        {
            match biases[i].bias {
                BiasDirection::CE => { ce = ce + 1; },
                BiasDirection::PE => { pe = pe + 1; },
                BiasDirection::NoTrade => { nt = nt + 1; },
            }
            i = i + 1;
        }
        BiasSummary { total: biases.len(), ce_count: ce, pe_count: pe, no_trade_count: nt }
    }
}

/// Field-for-field copy of a bias record.
pub fn clone_daily_bias(b: &DailyBias) -> (r: DailyBias)
    ensures
        r == *b,
{
    DailyBias {
        underlying: clone_string(&b.underlying),
        spot_token: clone_string(&b.spot_token),
        bias: b.bias,
        adx: b.adx,
        plus_di: b.plus_di,
        minus_di: b.minus_di,
        close_price: b.close_price,
        timestamp_ms: b.timestamp_ms,
    }
}

/// A DI crossover aligned (or not) with the daily bias.
#[derive(Debug, Clone)]
pub struct CrossoverSignal {
    pub underlying: String,
    pub spot_token: String,
    pub timestamp_ms: i64,
    pub direction: BiasDirection,
    pub adx: i64,
    pub plus_di: i64,
    pub minus_di: i64,
    pub close_price: i64,
    pub aligned_with_daily: bool,
}

/// Last seen DI values per token.
#[derive(Debug, Clone, Copy, PartialEq, Eq, Structural)]
pub struct CrossoverState {
    pub last_plus_di: i64,
    pub last_minus_di: i64,
    pub last_adx: i64,
}

/// The crossover rule: the dominant DI changed sides since the previous
/// reading.
pub open spec fn spec_crossover(prev_pdi: int, prev_mdi: int, curr_pdi: int, curr_mdi: int)
    -> Option<BiasDirection> {
    if prev_pdi <= prev_mdi && curr_pdi > curr_mdi {
        Some(BiasDirection::CE)
    } else if prev_mdi <= prev_pdi && curr_mdi > curr_pdi {
        Some(BiasDirection::PE)
    } else {
        None
    }
}

/// The recorded DI state of a token: the first entry that carries it.
pub open spec fn spec_state_of(s: Seq<(String, CrossoverState)>, token: Seq<char>)
    -> Option<CrossoverState>
    decreases s.len(),
{
    if s.len() == 0 {
        None
    } else if s[0].0@ == token {
        Some(s[0].1)
    } else {
        spec_state_of(s.drop_first(), token)
    }
}

/// A first-match scan agrees with `spec_state_of`: when no entry before
/// `i` carries the token, the entry at `i` (or the list's end) decides.
pub proof fn lemma_state_of_prefix(s: Seq<(String, CrossoverState)>, token: Seq<char>, i: int)
    requires
        0 <= i <= s.len(),
        forall|j: int| 0 <= j < i ==> (#[trigger] s[j]).0@ != token,
    ensures
        i < s.len() && s[i].0@ == token ==> spec_state_of(s, token) == Some(s[i].1),
        i == s.len() ==> spec_state_of(s, token) is None,
    decreases s.len(),
{
    if s.len() == 0 {
    } else if i == 0 {
    } else {
        assert forall|j: int| 0 <= j < i - 1
            implies (#[trigger] s.drop_first()[j]).0@ != token by {
            assert(s.drop_first()[j] == s[j + 1]);
        }
        lemma_state_of_prefix(s.drop_first(), token, i - 1);
        if i < s.len() {
            assert(s.drop_first()[i - 1] == s[i]);
        }
    }
}

/// Hourly DI crossover monitor.
pub struct HourlyCrossoverMonitor {
    adx_period: usize,
    adx_threshold: i64,
    crossover_states: Vec<(String, CrossoverState)>,
}

impl HourlyCrossoverMonitor {
    pub closed spec fn period(&self) -> int {
        self.adx_period as int
    }

    pub closed spec fn threshold(&self) -> int {
        self.adx_threshold as int
    }

    /// The per-token DI states, in recording order.
    pub closed spec fn states(&self) -> Seq<(String, CrossoverState)> {
        self.crossover_states@
    }

    pub open spec fn inv(&self) -> bool {
        1 <= self.period() <= 1000
    }

    pub fn new(adx_period: usize, adx_threshold: i64) -> (r: HourlyCrossoverMonitor)
        requires
            1 <= adx_period <= 1000,
        ensures
            r.inv(),
            r.period() == adx_period,
            r.threshold() == adx_threshold,
            r.states() == Seq::<(String, CrossoverState)>::empty(),
    {
        HourlyCrossoverMonitor { adx_period, adx_threshold, crossover_states: Vec::new() }
    }

    /// Detect a crossover between the previous and current DI pair.
    pub fn detect_crossover(&self, prev_plus_di: i64, prev_minus_di: i64, curr_plus_di: i64,
        curr_minus_di: i64) -> (r: Option<BiasDirection>)
        ensures
            r == spec_crossover(prev_plus_di as int, prev_minus_di as int, curr_plus_di as int,
                curr_minus_di as int),
    {
        if prev_plus_di <= prev_minus_di && curr_plus_di > curr_minus_di {
            Some(BiasDirection::CE)
        } else if prev_minus_di <= prev_plus_di && curr_minus_di > curr_plus_di {
            Some(BiasDirection::PE)
        } else {
            None
        }
    }

    /// A crossover counts only when it points the same way as the daily
    /// bias.
    pub fn is_aligned_with_daily(&self, hourly_direction: BiasDirection,
        daily_bias: BiasDirection) -> (r: bool)
        ensures
            r == (hourly_direction == daily_bias),
    {
        hourly_direction == daily_bias
    }

    /// Index of the first recorded state that carries the token.
    fn find_state(&self, token: &str) -> (r: Option<usize>)
        ensures
            match r {
                Some(ix) => ix < self.states().len()
                    && self.states()[ix as int].0@ == token@
                    && forall|j: int| 0 <= j < ix
                        ==> (#[trigger] self.states()[j]).0@ != token@,
                None => forall|j: int| 0 <= j < self.states().len()
                    ==> (#[trigger] self.states()[j]).0@ != token@,
            },
    {
        let mut i: usize = 0;
        while i < self.crossover_states.len()
            invariant
                0 <= i <= self.states().len(),
                forall|j: int| 0 <= j < i ==> (#[trigger] self.states()[j]).0@ != token@,
            decreases self.states().len() - i,
        {
            if str_eq(self.crossover_states[i].0.as_str(), token) {
                return Some(i);
            }
            i = i + 1;
        }
        None
    }

    /// Check the latest hourly bars of one underlying for an aligned
    /// crossover.  Too few bars give no signal and touch nothing; an
    /// uncomputable ADX is an error; a reading below the threshold gives
    /// no signal and touches nothing.  Above the threshold the token's
    /// DI state advances to the current reading, and a signal is owed
    /// exactly when a previous state was recorded and the DI pair
    /// crossed sides toward the daily bias since it.
    #[verifier::rlimit(50)]
    pub fn check_crossover(&mut self, underlying: &str, spot_token: &str,
        daily_bias: BiasDirection, hourly_bars: &Vec<Bar>) -> (r: Result<Option<
        CrossoverSignal>, TradingError>)
        requires
            old(self).inv(),
            hourly_bars@.len() <= MAX_BARS,
            bars_well_formed(hourly_bars@),
        ensures
            final(self).inv(),
            final(self).period() == old(self).period(),
            final(self).threshold() == old(self).threshold(),
            hourly_bars@.len() < old(self).period() + 2 ==> (r matches Ok(o) && o is None)
                && final(self).states() == old(self).states(),
            hourly_bars@.len() >= old(self).period() + 2 ==> {
                &&& (r is Err <==> spec_adx(hourly_bars@, old(self).period()) is None)
                &&& r is Err ==> final(self).states() == old(self).states()
                &&& (spec_adx(hourly_bars@, old(self).period()) matches Some((a, p, m)) ==> {
                    &&& a < old(self).threshold() ==> (r matches Ok(o) && o is None)
                        && final(self).states() == old(self).states()
                    &&& a >= old(self).threshold() ==> {
                        let owed = (match spec_state_of(old(self).states(), spot_token@) {
                            Some(prev) => spec_crossover(prev.last_plus_di as int,
                                prev.last_minus_di as int, p, m) == Some(daily_bias),
                            None => false,
                        });
                        &&& spec_state_of(final(self).states(), spot_token@)
                            == Some((CrossoverState {
                                last_plus_di: p as i64,
                                last_minus_di: m as i64,
                                last_adx: a as i64,
                            }))
                        &&& (r matches Ok(o) && (o is Some <==> owed))
                        &&& (r matches Ok(o) ==> (o matches Some(sig) ==> {
                            &&& sig.underlying@ == underlying@
                            &&& sig.spot_token@ == spot_token@
                            &&& sig.direction == daily_bias
                            &&& sig.aligned_with_daily
                            &&& sig.adx as int == a
                            &&& sig.plus_di as int == p
                            &&& sig.minus_di as int == m
                            &&& sig.close_price == hourly_bars@.last().close
                            &&& sig.timestamp_ms == hourly_bars@.last().timestamp_ms
                        }))
                    }
                })
            },
            r matches Ok(o) ==> (o matches Some(sig) ==> {
                &&& sig.aligned_with_daily
                &&& sig.direction == daily_bias
                &&& hourly_bars@.len() > 0
                &&& sig.close_price == hourly_bars@.last().close
            }),
    {
        if hourly_bars.len() < self.adx_period + 2 {
            return Ok(None);
        }
        let triple = match calculate_adx(hourly_bars, self.adx_period) {
            Some(t) => t,
            None => {
                return Err(TradingError::InvalidBarData(String::from_str(
                    "ADX not computable")));
            },
        };
        let (current_adx, current_plus_di, current_minus_di) = triple;
        if current_adx < self.adx_threshold {
            return Ok(None);
        }
        // Previous state for this token, if any.
        let n = self.crossover_states.len();
        let found_idx = self.find_state(spot_token);
        let (found, found_at): (bool, usize) = match found_idx {
            Some(ix) => (true, ix),
            None => (false, 0),
        };
        let prev: Option<CrossoverState> = if found {
            Some(self.crossover_states[found_at].1)
        } else {
            None
        };
        proof {
            lemma_state_of_prefix(old(self).states(), spot_token@,
                if found { found_at as int } else { n as int });
            assert(spec_state_of(old(self).states(), spot_token@) == prev);
        }
        let new_state = CrossoverState {
            last_plus_di: current_plus_di,
            last_minus_di: current_minus_di,
            last_adx: current_adx,
        };
        if found {
            let mut entry = self.crossover_states.remove(found_at);
            entry.1 = new_state;
            self.crossover_states.insert(found_at, entry);
            proof {
                assert(self.crossover_states@ =~= old(self).states().update(found_at as int,
                    (old(self).states()[found_at as int].0, new_state)));
                assert forall|j: int| 0 <= j < found_at
                    implies (#[trigger] self.crossover_states@[j]).0@ != spot_token@ by {
                    assert(self.crossover_states@[j] == old(self).states()[j]);
                }
                lemma_state_of_prefix(self.crossover_states@, spot_token@, found_at as int);
            }
        } else {
            self.crossover_states.push((String::from_str(spot_token), new_state));
            proof {
                assert forall|j: int| 0 <= j < n
                    implies (#[trigger] self.crossover_states@[j]).0@ != spot_token@ by {
                    assert(self.crossover_states@[j] == old(self).states()[j]);
                }
                lemma_state_of_prefix(self.crossover_states@, spot_token@, n as int);
            }
        }
        proof {
            assert(spec_state_of(self.crossover_states@, spot_token@) == Some(new_state));
        }
        let crossover_direction = match prev {
            Some(p) => self.detect_crossover(p.last_plus_di, p.last_minus_di, current_plus_di,
                current_minus_di),
            None => None,
        };
        match crossover_direction {
            Some(direction) => {
                if self.is_aligned_with_daily(direction, daily_bias) {
                    let latest = &hourly_bars[hourly_bars.len() - 1];
                    Ok(Some(CrossoverSignal {
                        underlying: String::from_str(underlying),
                        spot_token: String::from_str(spot_token),
                        timestamp_ms: latest.timestamp_ms,
                        direction,
                        adx: current_adx,
                        plus_di: current_plus_di,
                        minus_di: current_minus_di,
                        close_price: latest.close,
                        aligned_with_daily: true,
                    }))
                } else {
                    Ok(None)
                }
            },
            None => Ok(None),
        }
    }

    /// Current ADX / DI values on the given bars, absent when too few.
    pub fn get_current_indicators(&self, hourly_bars: &Vec<Bar>) -> (r: Option<(i64, i64, i64)>)
        requires
            self.inv(),
            hourly_bars@.len() <= MAX_BARS,
            bars_well_formed(hourly_bars@),
        ensures
            r == (match spec_adx(hourly_bars@, self.period()) {
                Some((a, p, m)) => Some((a as i64, p as i64, m as i64)),
                None => None::<(i64, i64, i64)>,
            }),
    {
        calculate_adx(hourly_bars, self.adx_period)
    }

    /// Forget all per-token DI states (end of day).
    pub fn clear_states(&mut self)
        requires
            old(self).inv(),
        ensures
            final(self).inv(),
            final(self).period() == old(self).period(),
            final(self).threshold() == old(self).threshold(),
            final(self).states() == Seq::<(String, CrossoverState)>::empty(),
    {
        self.crossover_states = Vec::new();
    }
}

} // verus!
