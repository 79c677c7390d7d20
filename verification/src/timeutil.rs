//! Market-session time arithmetic.
//!
//! All timestamps are Unix epoch milliseconds.  The exchange trades in
//! Indian Standard Time, a fixed offset of +5:30 from UTC for every
//! post-1970 instant, so calendar alignment is plain integer arithmetic
//! on `timestamp + IST_OFFSET_MS`.

use vstd::prelude::*;
use vstd::string::StrSliceExecFns;

verus! {

/// IST offset from UTC in milliseconds (5 h 30 min).
pub const IST_OFFSET_MS: i64 = 19_800_000;

/// Milliseconds per day.
pub const DAY_MS: i64 = 86_400_000;

/// Latest timestamp the engine accepts (year ~5000), so that offset
/// arithmetic cannot overflow.
pub const MAX_TS_MS: i64 = 100_000_000_000_000;

/// Bar timeframes.
#[derive(Debug, Clone, Copy, PartialEq, Eq, Structural, Hash)]
pub enum Timeframe {
    OneMinute,
    FiveMinute,
    FifteenMinute,
    OneHour,
    OneDay,
}

impl Timeframe {
    pub fn as_str(&self) -> (r: &str)
        ensures
            r@ == (match *self {
                Timeframe::OneMinute => "1m"@,
                Timeframe::FiveMinute => "5m"@,
                Timeframe::FifteenMinute => "15m"@,
                Timeframe::OneHour => "1h"@,
                Timeframe::OneDay => "1d"@,
            }),
    {
        match self {
            Timeframe::OneMinute => "1m",
            Timeframe::FiveMinute => "5m",
            Timeframe::FifteenMinute => "15m",
            Timeframe::OneHour => "1h",
            Timeframe::OneDay => "1d",
        }
    }

    pub open spec fn spec_duration_minutes(self) -> int {
        match self {
            Timeframe::OneMinute => 1,
            Timeframe::FiveMinute => 5,
            Timeframe::FifteenMinute => 15,
            Timeframe::OneHour => 60,
            Timeframe::OneDay => 1440,
        }
    }

    pub fn duration_minutes(&self) -> (r: i64)
        ensures
            r == self.spec_duration_minutes(),
    {
        match self {
            Timeframe::OneMinute => 1,
            Timeframe::FiveMinute => 5,
            Timeframe::FifteenMinute => 15,
            Timeframe::OneHour => 60,
            Timeframe::OneDay => 1440,
        }
    }

    /// The boundary of the interval containing `ts_ms`: truncation to the
    /// interval floor in local (IST) civil time, expressed back in UTC.
    pub open spec fn spec_bar_boundary(self, ts_ms: int) -> int {
        let dur = self.spec_duration_minutes() * 60_000;
        ((ts_ms + IST_OFFSET_MS) / dur) * dur - IST_OFFSET_MS
    }

    /// Boundary timestamp of the bar containing `ts_ms`.
    pub fn get_bar_boundary(&self, ts_ms: i64) -> (r: i64)
        requires
            0 <= ts_ms <= MAX_TS_MS,
        ensures
            r == self.spec_bar_boundary(ts_ms as int),
            ts_ms - 86_400_000 < r <= ts_ms,
    {
        let dur = self.duration_minutes() * 60_000;
        let local = ts_ms + IST_OFFSET_MS;
        proof {
            let l = local as int;
            let d = dur as int;
            let q = l / d;
            vstd::arithmetic::div_mod::lemma_fundamental_div_mod(l, d);
            vstd::arithmetic::div_mod::lemma_mod_division_less_than_divisor(l, d);
            vstd::arithmetic::div_mod::lemma_div_pos_is_pos(l, d);
            assert(d * q <= l);
            assert(q * d == d * q) by (nonlinear_arith);
            assert(0 <= q * d <= l);
            assert(l - q * d == l % d);
            assert(l % d < d <= 86_400_000);
        }
        let b = (local / dur) * dur;
        b - IST_OFFSET_MS
    }
}

/// Weekday with Monday as 0 and Sunday as 6; day zero of the epoch was a
/// Thursday.
pub open spec fn spec_weekday_of_day(day_index: int) -> int {
    (day_index + 3) % 7
}

/// IST calendar-day index of a timestamp.
pub open spec fn spec_ist_day_index(ts_ms: int) -> int {
    (ts_ms + IST_OFFSET_MS) / (DAY_MS as int)
}

/// Milliseconds since IST midnight.
pub open spec fn spec_ist_time_of_day(ts_ms: int) -> int {
    (ts_ms + IST_OFFSET_MS) % (DAY_MS as int)
}

/// Millisecond offset of IST midnight of the day containing `ts_ms`.
pub open spec fn spec_ist_day_start(ts_ms: int) -> int {
    spec_ist_day_index(ts_ms) * (DAY_MS as int) - IST_OFFSET_MS
}

/// Time of day in IST, milliseconds since local midnight.
pub fn ist_time_of_day(ts_ms: i64) -> (r: i64)
    requires
        0 <= ts_ms <= MAX_TS_MS,
    ensures
        r == spec_ist_time_of_day(ts_ms as int),
        0 <= r < DAY_MS,
{
    proof {
        vstd::arithmetic::div_mod::lemma_mod_division_less_than_divisor(
            ts_ms as int + IST_OFFSET_MS, DAY_MS as int);
    }
    (ts_ms + IST_OFFSET_MS) % DAY_MS
}

/// True on Monday through Friday in IST; holidays are not consulted here.
pub open spec fn spec_is_weekday(ts_ms: int) -> bool {
    spec_weekday_of_day(spec_ist_day_index(ts_ms)) < 5
}

/// Whether the timestamp falls on a trading weekday (IST).
pub fn is_trading_day(ts_ms: i64) -> (r: bool)
    requires
        0 <= ts_ms <= MAX_TS_MS,
    ensures
        r == spec_is_weekday(ts_ms as int),
{
    let day_index = (ts_ms + IST_OFFSET_MS) / DAY_MS;
    proof {
        vstd::arithmetic::div_mod::lemma_div_pos_is_pos(ts_ms as int + IST_OFFSET_MS,
            DAY_MS as int);
        vstd::arithmetic::div_mod::lemma_mod_division_less_than_divisor(day_index as int + 3, 7);
    }
    let weekday = (day_index + 3) % 7;
    weekday < 5
}

/// Market open, 9:15 IST, as milliseconds since local midnight.
pub const MARKET_OPEN_TOD_MS: i64 = 33_300_000;

/// Market close, 15:30 IST, as milliseconds since local midnight.
pub const MARKET_CLOSE_TOD_MS: i64 = 55_800_000;

pub open spec fn spec_market_timings(ts_ms: int) -> (int, int) {
    (spec_ist_day_start(ts_ms) + MARKET_OPEN_TOD_MS,
        spec_ist_day_start(ts_ms) + MARKET_CLOSE_TOD_MS)
}

/// Market open and close of the IST day containing `ts_ms`, as UTC epoch
/// milliseconds.
pub fn get_market_timings(ts_ms: i64) -> (r: (i64, i64))
    requires
        0 <= ts_ms <= MAX_TS_MS,
    ensures
        (r.0 as int, r.1 as int) == spec_market_timings(ts_ms as int),
        r.0 < r.1,
{
    let local = ts_ms + IST_OFFSET_MS;
    let day_index = local / DAY_MS;
    proof {
        let l = local as int;
        let d = DAY_MS as int;
        let q = l / d;
        vstd::arithmetic::div_mod::lemma_fundamental_div_mod(l, d);
        vstd::arithmetic::div_mod::lemma_mod_division_less_than_divisor(l, d);
        vstd::arithmetic::div_mod::lemma_div_pos_is_pos(l, d);
        assert(d * q <= l);
        assert(q * d == d * q) by (nonlinear_arith);
        assert(0 <= q * d <= l);
    }
    let day_start = day_index * DAY_MS - IST_OFFSET_MS;
    (day_start + MARKET_OPEN_TOD_MS, day_start + MARKET_CLOSE_TOD_MS)
}

pub open spec fn spec_is_market_open(ts_ms: int) -> bool {
    MARKET_OPEN_TOD_MS <= spec_ist_time_of_day(ts_ms) < MARKET_CLOSE_TOD_MS
}

/// Whether the regular session is in progress (9:15 to 15:30 IST).
pub fn is_market_open(now_ms: i64) -> (r: bool)
    requires
        0 <= now_ms <= MAX_TS_MS,
    ensures
        r == spec_is_market_open(now_ms as int),
{
    let tod = ist_time_of_day(now_ms);
    MARKET_OPEN_TOD_MS <= tod && tod < MARKET_CLOSE_TOD_MS
}

/// The next market open at or after `now_ms`: today's open if it has not
/// yet passed, otherwise the open of the next calendar day.
pub fn next_market_open(now_ms: i64) -> (r: i64)
    requires
        0 <= now_ms <= MAX_TS_MS,
    ensures
        r as int == (if (now_ms as int) < spec_market_timings(now_ms as int).0 {
            spec_market_timings(now_ms as int).0
        } else {
            spec_market_timings(now_ms as int).0 + DAY_MS
        }),
{
    let (open_ms, _close_ms) = get_market_timings(now_ms);
    if now_ms < open_ms {
        open_ms
    } else {
        open_ms + DAY_MS
    }
}

/// Days until the coming Thursday (the weekly option expiry), counting
/// today as zero when today is Thursday.
pub fn calculate_days_to_expiry(now_ms: i64) -> (r: i64)
    requires
        0 <= now_ms <= MAX_TS_MS,
    ensures
        ({
            let wd = spec_weekday_of_day(spec_ist_day_index(now_ms as int));
            r == if wd <= 3 { 3 - wd } else { 10 - wd }
        }),
        0 <= r <= 6,
{
    let day_index = (now_ms + IST_OFFSET_MS) / DAY_MS;
    proof {
        vstd::arithmetic::div_mod::lemma_div_pos_is_pos(now_ms as int + IST_OFFSET_MS,
            DAY_MS as int);
        vstd::arithmetic::div_mod::lemma_mod_division_less_than_divisor(day_index as int + 3, 7);
    }
    let weekday = (day_index + 3) % 7;
    if weekday <= 3 {
        3 - weekday
    } else {
        7 - weekday + 3
    }
}

pub open spec fn is_digit_char(c: char) -> bool {
    '0' <= c && c <= '9'
}

pub open spec fn digit_val(c: char) -> int {
    c as int - '0' as int
}

/// Time-of-day parse of `"HH:MM:SS"` or `"HH:MM"`, in milliseconds since
/// midnight; `None` when the text has another shape or a field is out of
/// range.
pub open spec fn spec_parse_time_of_day(s: Seq<char>) -> Option<int> {
    if s.len() == 8 {
        if is_digit_char(s[0]) && is_digit_char(s[1]) && s[2] == ':' && is_digit_char(s[3])
            && is_digit_char(s[4]) && s[5] == ':' && is_digit_char(s[6]) && is_digit_char(s[7]) {
            let h = digit_val(s[0]) * 10 + digit_val(s[1]);
            let m = digit_val(s[3]) * 10 + digit_val(s[4]);
            let sec = digit_val(s[6]) * 10 + digit_val(s[7]);
            if h < 24 && m < 60 && sec < 60 {
                Some(((h * 60 + m) * 60 + sec) * 1000)
            } else {
                None
            }
        } else {
            None
        }
    } else if s.len() == 5 {
        if is_digit_char(s[0]) && is_digit_char(s[1]) && s[2] == ':' && is_digit_char(s[3])
            && is_digit_char(s[4]) {
            let h = digit_val(s[0]) * 10 + digit_val(s[1]);
            let m = digit_val(s[3]) * 10 + digit_val(s[4]);
            if h < 24 && m < 60 {
                Some((h * 60 + m) * 60000)
            } else {
                None
            }
        } else {
            None
        }
    } else {
        None
    }
}

fn digit_of(c: char) -> (r: Option<i64>)
    ensures
        r == (if is_digit_char(c) { Some(digit_val(c) as i64) } else { None::<i64> }),
        r is Some ==> 0 <= r->0 <= 9,
{
    if c >= '0' && c <= '9' {
        Some((c as u32 as i64) - 48)
    } else {
        None
    }
}

/// Parse `"HH:MM:SS"` or `"HH:MM"` into milliseconds since midnight.
pub fn parse_time_of_day(s: &str) -> (r: Option<i64>)
    ensures
        r == (match spec_parse_time_of_day(s@) {
            Some(v) => Some(v as i64),
            None => None::<i64>,
        }),
{
    let n = s.unicode_len();
    if n == 8 {
        let c0 = digit_of(s.get_char(0));
        let c1 = digit_of(s.get_char(1));
        let sep1 = s.get_char(2);
        let c3 = digit_of(s.get_char(3));
        let c4 = digit_of(s.get_char(4));
        let sep2 = s.get_char(5);
        let c6 = digit_of(s.get_char(6));
        let c7 = digit_of(s.get_char(7));
        match (c0, c1, c3, c4, c6, c7) {
            (Some(h1), Some(h2), Some(m1), Some(m2), Some(s1), Some(s2)) => {
                if sep1 == ':' && sep2 == ':' {
                    let h = h1 * 10 + h2;
                    let m = m1 * 10 + m2;
                    let sec = s1 * 10 + s2;
                    if h < 24 && m < 60 && sec < 60 {
                        Some(((h * 60 + m) * 60 + sec) * 1000)
                    } else {
                        None
                    }
                } else {
                    None
                }
            },
            _ => None,
        }
    } else if n == 5 {
        let c0 = digit_of(s.get_char(0));
        let c1 = digit_of(s.get_char(1));
        let sep1 = s.get_char(2);
        let c3 = digit_of(s.get_char(3));
        let c4 = digit_of(s.get_char(4));
        match (c0, c1, c3, c4) {
            (Some(h1), Some(h2), Some(m1), Some(m2)) => {
                if sep1 == ':' {
                    let h = h1 * 10 + h2;
                    let m = m1 * 10 + m2;
                    if h < 24 && m < 60 {
                        Some((h * 60 + m) * 60000)
                    } else {
                        None
                    }
                } else {
                    None
                }
            },
            _ => None,
        }
    } else {
        None
    }
}

/// The entry window: start and end given as `"HH:MM:SS"` (or `"HH:MM"`)
/// local strings; unparsable bounds fall back to 10:00:00 and 15:00:00.
pub open spec fn spec_entry_window_bounds(start: Seq<char>, end: Seq<char>) -> (int, int) {
    (match spec_parse_time_of_day(start) {
        Some(v) => v,
        None => 36_000_000,
    }, match spec_parse_time_of_day(end) {
        Some(v) => v,
        None => 54_000_000,
    })
}

/// Whether `now_ms` lies inside the configured entry window, comparing
/// IST time of day to the half-open interval `[start, end)`.
pub fn is_in_entry_window(now_ms: i64, window_start: &str, window_end: &str) -> (r: bool)
    requires
        0 <= now_ms <= MAX_TS_MS,
    ensures
        ({
            let (lo, hi) = spec_entry_window_bounds(window_start@, window_end@);
            r == (lo <= spec_ist_time_of_day(now_ms as int) < hi)
        }),
{
    let start = match parse_time_of_day(window_start) {
        Some(v) => v,
        None => 36_000_000,
    };
    let end = match parse_time_of_day(window_end) {
        Some(v) => v,
        None => 54_000_000,
    };
    let tod = ist_time_of_day(now_ms);
    start <= tod && tod < end
}

} // verus!
