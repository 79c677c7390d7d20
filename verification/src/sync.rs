//! Historical-sync planning: which assets, strikes and expiries to
//! download.  The downloads themselves are the caller's I/O; every
//! selection rule lives here.

use vstd::prelude::*;
use vstd::string::StringExecFns;
use vstd::string::StrSliceExecFns;
use crate::types::{Instrument, MAX_PRICE, str_eq};
use crate::store::clone_string;
use crate::premarket::{atm_strike_for, days_from_civil, parse_expiry_date};

verus! {

/// The index underlyings the engine syncs.
#[derive(Debug, Clone, Copy, PartialEq, Eq, Structural, Hash)]
pub enum UnderlyingAsset {
    Nifty,
    BankNifty,
    FinNifty,
}

impl UnderlyingAsset {
    pub fn as_str(&self) -> (r: &str)
        ensures
            r@ == (match *self {
                UnderlyingAsset::Nifty => "NIFTY"@,
                UnderlyingAsset::BankNifty => "BANKNIFTY"@,
                UnderlyingAsset::FinNifty => "FINNIFTY"@,
            }),
    {
        match self {
            UnderlyingAsset::Nifty => "NIFTY",
            UnderlyingAsset::BankNifty => "BANKNIFTY",
            UnderlyingAsset::FinNifty => "FINNIFTY",
        }
    }

    /// Strike spacing in whole rupees.
    pub fn strike_increment(&self) -> (r: i64)
        ensures
            r == (match *self {
                UnderlyingAsset::Nifty => 50int,
                UnderlyingAsset::BankNifty => 100int,
                UnderlyingAsset::FinNifty => 50int,
            }),
    {
        match self {
            UnderlyingAsset::Nifty => 50,
            UnderlyingAsset::BankNifty => 100,
            UnderlyingAsset::FinNifty => 50,
        }
    }

    /// A reasonable price level when no bar exists yet, in hundredths.
    pub fn default_price(&self) -> (r: i64)
        ensures
            r == (match *self {
                UnderlyingAsset::Nifty => 2_350_000int,
                UnderlyingAsset::BankNifty => 4_900_000int,
                UnderlyingAsset::FinNifty => 2_200_000int,
            }),
    {
        match self {
            UnderlyingAsset::Nifty => 2_350_000,
            UnderlyingAsset::BankNifty => 4_900_000,
            UnderlyingAsset::FinNifty => 2_200_000,
        }
    }

    pub fn lot_size(&self) -> (r: i64)
        ensures
            r == (match *self {
                UnderlyingAsset::Nifty => 50int,
                UnderlyingAsset::BankNifty => 15int,
                UnderlyingAsset::FinNifty => 40int,
            }),
    {
        match self {
            UnderlyingAsset::Nifty => 50,
            UnderlyingAsset::BankNifty => 15,
            UnderlyingAsset::FinNifty => 40,
        }
    }

    pub fn all() -> (r: Vec<UnderlyingAsset>)
        ensures
            r@.len() == 3,
            r@[0] == UnderlyingAsset::Nifty,
            r@[1] == UnderlyingAsset::BankNifty,
            r@[2] == UnderlyingAsset::FinNifty,
    {
        let mut v: Vec<UnderlyingAsset> = Vec::new();
        v.push(UnderlyingAsset::Nifty);
        v.push(UnderlyingAsset::BankNifty);
        v.push(UnderlyingAsset::FinNifty);
        v
    }
}

/// Which expiries a sync keeps.
#[derive(Debug, Clone, Copy, PartialEq, Eq, Structural)]
pub enum ExpiryFilter {
    NearestWeekly,
    NearestMonthly,
    AllActive,
    /// A specific (year, month, day).
    Specific(i64, i64, i64),
}

/// What the instrument scan keeps.
#[derive(Debug, Clone, Copy, PartialEq, Eq, Structural)]
pub struct FilterConfig {
    pub include_spot: bool,
    pub include_futures: bool,
    pub include_options: bool,
    /// Whole rupees either side of the ATM strike.
    pub strike_range: i64,
    pub max_strikes_per_side: usize,
    pub expiry_filter: ExpiryFilter,
}

/// Outcome counters of one underlying's sync (filled by the caller as it
/// downloads).
#[derive(Debug, Clone)]
pub struct SyncReport {
    pub underlying_bars_downloaded: usize,
    pub option_strikes_synced: usize,
    pub daily_bars_downloaded: usize,
    pub hourly_bars_downloaded: usize,
    pub errors: Vec<String>,
}

/// Outcome counters of one asset in a multi-asset sync.
#[derive(Debug, Clone)]
pub struct AssetSyncReport {
    pub asset: String,
    pub underlying_token: String,
    pub underlying_bars: usize,
    pub futures_synced: usize,
    pub options_synced: usize,
    pub total_daily_bars: usize,
    pub total_hourly_bars: usize,
    pub strikes_covered: Vec<i64>,
    pub errors: Vec<String>,
}

/// Field-for-field copy of an instrument row.
pub fn clone_instrument(i: &Instrument) -> (r: Instrument)
    ensures
        r == *i,
{
    Instrument {
        token: clone_string(&i.token),
        symbol: clone_string(&i.symbol),
        name: clone_string(&i.name),
        expiry: clone_string(&i.expiry),
        strike: i.strike,
        lotsize: i.lotsize,
        instrument_type: clone_string(&i.instrument_type),
        exch_seg: clone_string(&i.exch_seg),
        tick_size: i.tick_size,
    }
}

/// The option strikes worth downloading: options of the underlying
/// within the configured range around the ATM strike, ordered by strike,
/// capped at twice the per-side subscription count (calls and puts).
pub fn identify_relevant_strikes(instruments: &Vec<Instrument>, underlying: &str,
    current_price: i64, strike_increment: i64, strike_range: i64,
    strike_subscription_count: usize) -> (r: Vec<Instrument>)
    requires
        0 <= current_price <= MAX_PRICE,
        0 < strike_increment <= 100_000,
        0 <= strike_range <= 1_000_000,
        strike_subscription_count <= 1000,
    ensures
        r@.len() <= 2 * strike_subscription_count,
        forall|a: int, b: int| 0 <= a < b < r@.len()
            ==> (#[trigger] r@[a]).strike <= (#[trigger] r@[b]).strike,
{
    let atm_strike = atm_strike_for(current_price, strike_increment);
    let min_strike = atm_strike - strike_range;
    let max_strike = atm_strike + strike_range;
    let mut relevant: Vec<Instrument> = Vec::new();
    let mut i: usize = 0;
    let n = instruments.len();
    while i < n
        invariant
            0 <= i <= n,
            n == instruments@.len(),
            forall|a: int, b: int| 0 <= a < b < relevant@.len()
                ==> (#[trigger] relevant@[a]).strike <= (#[trigger] relevant@[b]).strike,
        decreases n - i,
    {
        let inst = &instruments[i];
        let in_range = min_strike <= i64::MAX / 100 && max_strike <= i64::MAX / 100
            && min_strike >= i64::MIN / 100 && max_strike >= i64::MIN / 100
            && min_strike * 100 <= inst.strike && inst.strike <= max_strike * 100;
        if in_range && str_eq(inst.name.as_str(), underlying)
            && str_eq(inst.exch_seg.as_str(), "NFO")
            && crate::premarket::has_option_suffix(inst.symbol.as_str()) {
            // Insert sorted by strike (stable: equal strikes keep their
            // scan order).
            let mut pos: usize = 0;
            while pos < relevant.len() && relevant[pos].strike <= inst.strike
                invariant
                    0 <= pos <= relevant@.len(),
                    forall|k: int| 0 <= k < pos
                        ==> (#[trigger] relevant@[k]).strike <= instruments@[i as int].strike,
                    forall|a: int, b: int| 0 <= a < b < relevant@.len()
                        ==> (#[trigger] relevant@[a]).strike <= (#[trigger] relevant@[b]).strike,
                    inst == &instruments@[i as int],
                decreases relevant@.len() - pos,
            {
                pos = pos + 1;
            }
            let ghost rel0 = relevant@;
            let copy = clone_instrument(inst);
            relevant.insert(pos, copy);
            proof {
                assert forall|a: int, b: int| 0 <= a < b < relevant@.len()
                    implies (#[trigger] relevant@[a]).strike
                        <= (#[trigger] relevant@[b]).strike by {
                    let a0 = if a < pos { a } else { a - 1 };
                    let b0 = if b < pos { b } else { b - 1 };
                    if a == pos as int {
                        assert(relevant@[a].strike == instruments@[i as int].strike);
                        assert(relevant@[b] == rel0[b0]);
                        assert((pos as int) < rel0.len());
                        assert(rel0[pos as int].strike > instruments@[i as int].strike);
                        if b0 > pos {
                            assert(rel0[pos as int].strike <= rel0[b0].strike);
                        }
                    } else if b == pos as int {
                        assert(relevant@[a] == rel0[a0]);
                        assert(rel0[a0].strike <= instruments@[i as int].strike);
                    } else {
                        assert(relevant@[a] == rel0[a0] && relevant@[b] == rel0[b0]);
                        if a0 < pos && b0 >= pos {
                            assert(rel0[a0].strike <= instruments@[i as int].strike);
                            assert(rel0[b0].strike > instruments@[i as int].strike);
                        }
                    }
                }
            }
        }
        i = i + 1;
    }
    // Cap the download set.
    let max_count = 2 * strike_subscription_count;
    let mut out: Vec<Instrument> = Vec::new();
    let mut k: usize = 0;
    while k < relevant.len() && k < max_count
        invariant
            0 <= k <= relevant@.len(),
            k <= max_count,
            out@ == relevant@.subrange(0, k as int),
            forall|a: int, b: int| 0 <= a < b < relevant@.len()
                ==> (#[trigger] relevant@[a]).strike <= (#[trigger] relevant@[b]).strike,
        decreases relevant@.len() - k,
    {
        out.push(clone_instrument(&relevant[k]));
        proof {
            assert(out@ =~= relevant@.subrange(0, k as int + 1));
        }
        k = k + 1;
    }
    proof {
        assert forall|a: int, b: int| 0 <= a < b < out@.len()
            implies (#[trigger] out@[a]).strike <= (#[trigger] out@[b]).strike by {
            assert(out@[a] == relevant@[a] && out@[b] == relevant@[b]);
        }
    }
    out
}

/// The expiry (by its literal text) with the fewest days to run among
/// those not yet past.
pub fn find_nearest_expiry(options: &Vec<Instrument>, today_epoch_day: i64) -> (r: Option<
    String>)
    requires
        0 <= today_epoch_day <= 4_000_000,
    ensures
        options@.len() == 0 ==> r is None,
{
    let mut best: Option<(usize, i64)> = None;
    let mut i: usize = 0;
    while i < options.len()
        invariant
            0 <= i <= options@.len(),
            0 <= today_epoch_day <= 4_000_000,
            match best {
                Some(b) => b.0 < options@.len(),
                None => true,
            },
        decreases options@.len() - i,
    {
        match parse_expiry_date(options[i].expiry.as_str()) {
            Some((y, m, d)) => {
                let day = days_from_civil(y, m, d);
                if day >= today_epoch_day {
                    let dte = day - today_epoch_day;
                    let better = match best {
                        Some(b) => dte < b.1,
                        None => true,
                    };
                    if better {
                        best = Some((i, dte));
                    }
                }
            },
            None => {},
        }
        i = i + 1;
    }
    match best {
        Some((bi, _)) => Some(clone_string(&options[bi].expiry)),
        None => None,
    }
}

/// The expiry with the most days to run among those not yet past (the
/// monthly contract outlives the weeklies).
pub fn find_nearest_monthly_expiry(options: &Vec<Instrument>, today_epoch_day: i64) -> (
    r: Option<String>)
    requires
        0 <= today_epoch_day <= 4_000_000,
    ensures
        options@.len() == 0 ==> r is None,
{
    let mut best: Option<(usize, i64)> = None;
    let mut i: usize = 0;
    while i < options.len()
        invariant
            0 <= i <= options@.len(),
            0 <= today_epoch_day <= 4_000_000,
            match best {
                Some(b) => b.0 < options@.len(),
                None => true,
            },
        decreases options@.len() - i,
    {
        match parse_expiry_date(options[i].expiry.as_str()) {
            Some((y, m, d)) => {
                let day = days_from_civil(y, m, d);
                if day >= today_epoch_day {
                    let dte = day - today_epoch_day;
                    let better = match best {
                        Some(b) => dte > b.1,
                        None => true,
                    };
                    if better {
                        best = Some((i, dte));
                    }
                }
            },
            None => {},
        }
        i = i + 1;
    }
    match best {
        Some((bi, _)) => Some(clone_string(&options[bi].expiry)),
        None => None,
    }
}

/// Keep only the options the expiry filter selects.
pub fn apply_expiry_filter(options: Vec<Instrument>, filter: ExpiryFilter,
    today_epoch_day: i64) -> (r: Vec<Instrument>)
    requires
        0 <= today_epoch_day <= 4_000_000,
    ensures
        r@.len() <= options@.len(),
{
    match filter {
        ExpiryFilter::AllActive => options,
        ExpiryFilter::Specific(y, m, d) => {
            let mut out: Vec<Instrument> = Vec::new();
            let mut i: usize = 0;
            while i < options.len()
                invariant
                    0 <= i <= options@.len(),
                    out@.len() <= i,
                decreases options@.len() - i,
            {
                match parse_expiry_date(options[i].expiry.as_str()) {
                    Some((ey, em, ed)) => {
                        if ey == y && em == m && ed == d {
                            out.push(clone_instrument(&options[i]));
                        }
                    },
                    None => {},
                }
                i = i + 1;
            }
            out
        },
        ExpiryFilter::NearestWeekly => {
            match find_nearest_expiry(&options, today_epoch_day) {
                Some(target) => retain_expiry(options, &target),
                None => options,
            }
        },
        ExpiryFilter::NearestMonthly => {
            match find_nearest_monthly_expiry(&options, today_epoch_day) {
                Some(target) => retain_expiry(options, &target),
                None => options,
            }
        },
    }
}

/// The rows whose expiry text equals `target`.
fn retain_expiry(options: Vec<Instrument>, target: &String) -> (r: Vec<Instrument>)
    ensures
        r@.len() <= options@.len(),
        forall|j: int| 0 <= j < r@.len() ==> (#[trigger] r@[j]).expiry@ == target@,
{
    let mut out: Vec<Instrument> = Vec::new();
    let mut i: usize = 0;
    while i < options.len()
        invariant
            0 <= i <= options@.len(),
            out@.len() <= i,
            forall|j: int| 0 <= j < out@.len() ==> (#[trigger] out@[j]).expiry@ == target@,
        decreases options@.len() - i,
    {
        if str_eq(options[i].expiry.as_str(), target.as_str()) {
            out.push(clone_instrument(&options[i]));
        }
        i = i + 1;
    }
    out
}

/// Readiness gate: enough daily and hourly bars for the configured trend
/// periods.
pub fn has_sufficient_data(daily_count: usize, hourly_count: usize, daily_adx_period: usize,
    hourly_adx_period: usize) -> (r: bool)
    ensures
        r == (daily_count >= daily_adx_period && hourly_count >= hourly_adx_period),
{
    daily_count >= daily_adx_period && hourly_count >= hourly_adx_period
}

/// What one sixty-second cycle should run.
#[derive(Debug, Clone, Copy, PartialEq, Eq, Structural)]
pub struct CyclePlan {
    pub run_daily_analysis: bool,
    pub run_hourly_analysis: bool,
    pub run_eod_exit: bool,
}

/// The cycle gates: daily analysis once after 9:30 IST, hourly analysis
/// at most once per hour after minute fifteen, the EOD flatten from
/// 15:20 IST.
pub fn plan_cycle(now_ms: i64, daily_analysis_done: bool, last_hourly_check_ms: Option<i64>)
    -> (r: CyclePlan)
    requires
        0 <= now_ms <= crate::timeutil::MAX_TS_MS,
        match last_hourly_check_ms {
            Some(last) => 0 <= last <= now_ms,
            None => true,
        },
    ensures
        ({
            let tod = crate::timeutil::spec_ist_time_of_day(now_ms as int);
            &&& r.run_daily_analysis == (tod >= 9 * 3_600_000 + 30 * 60_000
                && !daily_analysis_done)
            &&& r.run_hourly_analysis == (tod % 3_600_000 >= 15 * 60_000
                && (match last_hourly_check_ms {
                    Some(last) => now_ms - last >= 3_600_000,
                    None => true,
                }))
            &&& r.run_eod_exit == (tod >= 15 * 3_600_000 + 20 * 60_000)
        }),
{
    let tod = crate::timeutil::ist_time_of_day(now_ms);
    proof {
        vstd::arithmetic::div_mod::lemma_mod_division_less_than_divisor(tod as int, 3_600_000);
    }
    let minute_of_hour_ms = tod % 3_600_000;
    let run_daily = tod >= 9 * 3_600_000 + 30 * 60_000 && !daily_analysis_done;
    let run_hourly = minute_of_hour_ms >= 15 * 60_000 && (match last_hourly_check_ms {
        Some(last) => now_ms - last >= 3_600_000,
        None => true,
    });
    let run_eod = tod >= 15 * 3_600_000 + 20 * 60_000;
    CyclePlan {
        run_daily_analysis: run_daily,
        run_hourly_analysis: run_hourly,
        run_eod_exit: run_eod,
    }
}

} // verus!
