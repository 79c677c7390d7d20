//! Technical indicators over completed bars (oldest first).
//!
//! All functions are total: where the input is too short or a denominator
//! is zero they return `None`.  Prices are hundredths of a rupee; RSI and
//! ADX/DI values are returned in hundredths of a point (10000 = 100.00).

use vstd::prelude::*;
use crate::types::{Bar, MAX_PRICE, MAX_VOLUME};

verus! {

/// Longest bar series the indicator kit accepts.
pub const MAX_BARS: usize = 100_000;

pub open spec fn abs_i(x: int) -> int {
    if x < 0 { -x } else { x }
}

pub open spec fn max2(a: int, b: int) -> int {
    if a >= b { a } else { b }
}

/// A sequence of `i64` values as mathematical integers.
pub open spec fn to_int_seq(s: Seq<i64>) -> Seq<int> {
    s.map_values(|v: i64| v as int)
}

/// Sum of a sequence of mathematical integers.
pub open spec fn sum_int(s: Seq<int>) -> int
    decreases s.len(),
{
    if s.len() == 0 { 0 } else { sum_int(s.drop_last()) + s.last() }
}

pub proof fn lemma_sum_int_bounds(s: Seq<int>, lo: int, hi: int)
    requires
        forall|i: int| 0 <= i < s.len() ==> lo <= #[trigger] s[i] <= hi,
        lo <= 0,
        0 <= hi,
    ensures
        s.len() * lo <= sum_int(s) <= s.len() * hi,
    decreases s.len(),
{
    if s.len() == 0 {
    } else {
        lemma_sum_int_bounds(s.drop_last(), lo, hi);
        assert((s.len() - 1) * lo + lo == s.len() * lo) by (nonlinear_arith);
        assert((s.len() - 1) * hi + hi == s.len() * hi) by (nonlinear_arith);
    }
}

/// True range of step `i` (`1 <= i < bars.len()`).
pub open spec fn tr_at(bars: Seq<Bar>, i: int) -> int {
    max2(bars[i].high - bars[i].low,
        max2(abs_i(bars[i].high - bars[i - 1].close), abs_i(bars[i].low - bars[i - 1].close)))
}

/// Positive directional movement of step `i`.
pub open spec fn plus_dm_at(bars: Seq<Bar>, i: int) -> int {
    let up = bars[i].high - bars[i - 1].high;
    let down = bars[i - 1].low - bars[i].low;
    if up > down && up > 0 { up } else { 0 }
}

/// Negative directional movement of step `i`.
pub open spec fn minus_dm_at(bars: Seq<Bar>, i: int) -> int {
    let up = bars[i].high - bars[i - 1].high;
    let down = bars[i - 1].low - bars[i].low;
    if down > up && down > 0 { down } else { 0 }
}

/// Wilder smoothing of the first `k` values of `vals` with period `p`:
/// seeded by the plain average of the first `p` values, then
/// `s := ((p-1)*s + v) / p` for each further value.
pub open spec fn wilder_rec(vals: Seq<int>, k: int, p: int) -> int
    recommends
        1 <= p <= k <= vals.len(),
    decreases k,
{
    if p < 1 || k <= p {
        sum_int(vals.take(p)) / p
    } else {
        ((p - 1) * wilder_rec(vals, k - 1, p) + vals[k - 1]) / p
    }
}

/// The Wilder recursion stays inside the bounds of its inputs.
pub proof fn lemma_wilder_bounds(vals: Seq<int>, k: int, p: int, hi: int)
    requires
        1 <= p <= k <= vals.len(),
        0 <= hi,
        forall|i: int| 0 <= i < vals.len() ==> 0 <= #[trigger] vals[i] <= hi,
    ensures
        0 <= wilder_rec(vals, k, p) <= hi,
    decreases k,
{
    if k <= p {
        let t = vals.take(p);
        assert forall|i: int| 0 <= i < t.len() implies 0 <= #[trigger] t[i] <= hi by {
            assert(t[i] == vals[i]);
        }
        lemma_sum_int_bounds(t, 0, hi);
        assert(0 <= sum_int(t) <= p * hi);
        vstd::arithmetic::div_mod::lemma_div_pos_is_pos(sum_int(t), p);
        assert(sum_int(t) / p <= (p * hi) / p) by {
            vstd::arithmetic::div_mod::lemma_div_is_ordered(sum_int(t), p * hi, p);
        }
        assert((p * hi) / p == hi) by {
            vstd::arithmetic::div_mod::lemma_div_multiples_vanish(hi, p);
        }
    } else {
        lemma_wilder_bounds(vals, k - 1, p, hi);
        let s = wilder_rec(vals, k - 1, p);
        let num = (p - 1) * s + vals[k - 1];
        assert(0 <= num && num <= p * hi) by (nonlinear_arith)
            requires
                num == (p - 1) * s + vals[k - 1],
                0 <= s <= hi,
                0 <= vals[k - 1] <= hi,
                p >= 1,
                0 <= hi;
        vstd::arithmetic::div_mod::lemma_div_pos_is_pos(num, p);
        assert(num / p <= (p * hi) / p) by {
            vstd::arithmetic::div_mod::lemma_div_is_ordered(num, p * hi, p);
        }
        assert((p * hi) / p == hi) by {
            vstd::arithmetic::div_mod::lemma_div_multiples_vanish(hi, p);
        }
    }
}

/// Wilder's smoothing of a value series; `None` when fewer than `period`
/// values are available.
pub fn wilder_smooth(values: &Vec<i64>, period: usize) -> (r: Option<i64>)
    requires
        1 <= period <= 1000,
        values@.len() <= MAX_BARS,
        forall|i: int| 0 <= i < values@.len() ==> 0 <= #[trigger] values@[i] <= 2 * MAX_PRICE,
    ensures
        values@.len() < period ==> r is None,
        values@.len() >= period ==> r == Some(
            wilder_rec(to_int_seq(values@), values@.len() as int, period as int) as i64),
        r is Some ==> 0 <= r->0 <= 2 * MAX_PRICE,
{
    if values.len() < period {
        return None;
    }
    let ghost vals = to_int_seq(values@);
    proof {
        assert forall|i: int| 0 <= i < vals.len() implies 0 <= #[trigger] vals[i]
            <= 2 * MAX_PRICE by {
            assert(vals[i] == values@[i] as int);
        }
    }
    let mut sum: i64 = 0;
    let mut i: usize = 0;
    while i < period
        invariant
            0 <= i <= period <= 1000,
            period <= values@.len() <= MAX_BARS,
            forall|j: int| 0 <= j < vals.len() ==> 0 <= #[trigger] vals[j] <= 2 * MAX_PRICE,
            vals == to_int_seq(values@),
            forall|j: int| 0 <= j < values@.len() ==> 0 <= #[trigger] values@[j] <= 2 * MAX_PRICE,
            sum == sum_int(vals.take(i as int)),
            0 <= sum <= (i as int) * (2 * MAX_PRICE),
        decreases period - i,
    {
        proof {
            let t = vals.take(i as int + 1);
            assert(t.drop_last() =~= vals.take(i as int));
            assert(t.last() == vals[i as int]);
            assert forall|j: int| 0 <= j < t.len() implies 0 <= #[trigger] t[j]
                <= 2 * MAX_PRICE by {
                assert(t[j] == vals[j]);
            }
            lemma_sum_int_bounds(t, 0, 2 * MAX_PRICE as int);
            assert((i as int) * (2 * MAX_PRICE) <= 999 * (2 * MAX_PRICE)) by (nonlinear_arith)
                requires 0 <= i as int <= 999;
        }
        sum = sum + values[i];
        i = i + 1;
    }
    let p = period as i64;
    let mut smoothed: i64 = sum / p;
    proof {
        assert(vals.take(period as int) =~= vals.take(period as int));
        assert(smoothed == wilder_rec(vals, period as int, period as int));
        lemma_wilder_bounds(vals, period as int, period as int, 2 * MAX_PRICE as int);
    }
    let mut k: usize = period;
    while k < values.len()
        invariant
            period <= k <= values@.len() <= MAX_BARS,
            1 <= period <= 1000,
            p == period as i64,
            forall|j: int| 0 <= j < vals.len() ==> 0 <= #[trigger] vals[j] <= 2 * MAX_PRICE,
            vals == to_int_seq(values@),
            forall|j: int| 0 <= j < values@.len() ==> 0 <= #[trigger] values@[j] <= 2 * MAX_PRICE,
            smoothed == wilder_rec(vals, k as int, period as int),
            0 <= smoothed <= 2 * MAX_PRICE,
        decreases values@.len() - k,
    {
        proof {
            let s = smoothed as int;
            let v = vals[k as int];
            assert(v == values@[k as int] as int);
            assert(0 <= (period - 1) * s + v <= 1000 * (2 * MAX_PRICE) + 2 * MAX_PRICE)
                by (nonlinear_arith)
                requires 0 <= s <= 2 * MAX_PRICE, 0 <= v <= 2 * MAX_PRICE, 1 <= period <= 1000;
            lemma_wilder_bounds(vals, k as int + 1, period as int, 2 * MAX_PRICE as int);
        }
        smoothed = ((p - 1) * smoothed + values[k]) / p;
        k = k + 1;
    }
    Some(smoothed)
}

/// The true-range series of a bar sequence (one value per step).
pub open spec fn tr_seq(bars: Seq<Bar>) -> Seq<int> {
    Seq::new((bars.len() - 1) as nat, |i: int| tr_at(bars, i + 1))
}

pub open spec fn plus_dm_seq(bars: Seq<Bar>) -> Seq<int> {
    Seq::new((bars.len() - 1) as nat, |i: int| plus_dm_at(bars, i + 1))
}

pub open spec fn minus_dm_seq(bars: Seq<Bar>) -> Seq<int> {
    Seq::new((bars.len() - 1) as nat, |i: int| minus_dm_at(bars, i + 1))
}

/// All bars well formed.
pub open spec fn bars_well_formed(bars: Seq<Bar>) -> bool {
    forall|i: int| 0 <= i < bars.len() ==> #[trigger] bars[i].well_formed()
}

/// Directional index value from smoothed movement and range; zero when
/// the smoothed true range is zero.
pub open spec fn di_of(sdm: int, str_: int) -> int {
    if str_ == 0 { 0 } else { 100_00 * sdm / str_ }
}

/// The directional index DX after the first `k` steps: the relative DI
/// asymmetry in hundredths, zero when both DIs vanish.
pub open spec fn dx_at(bars: Seq<Bar>, period: int, k: int) -> int {
    let st = wilder_rec(tr_seq(bars), k, period);
    let pdi = di_of(wilder_rec(plus_dm_seq(bars), k, period), st);
    let mdi = di_of(wilder_rec(minus_dm_seq(bars), k, period), st);
    if pdi + mdi == 0 { 0 } else { 100_00 * abs_i(pdi - mdi) / (pdi + mdi) }
}

/// The DX values from the first computable step to the last.
pub open spec fn dx_series(bars: Seq<Bar>, period: int) -> Seq<int> {
    Seq::new((bars.len() - period) as nat, |j: int| dx_at(bars, period, period + j))
}

/// The ADX: the Wilder smoothing of the DX series over the same period;
/// with fewer than `period` DX values the plain average seeds it.
pub open spec fn spec_adx_trend(bars: Seq<Bar>, period: int) -> int {
    let d = dx_series(bars, period);
    if d.len() >= period {
        wilder_rec(d, d.len() as int, period)
    } else {
        sum_int(d) / (d.len() as int)
    }
}

/// The ADX / +DI / -DI triple, or `None` when the input is shorter than
/// `period + 1` bars, the final smoothed true range is zero, or the
/// final DI pair sums to zero (the DX denominator vanishes).  ADX is
/// the Wilder-smoothed DX series — intermediate steps whose DI pair
/// sums to zero contribute a zero DX value — and the DIs are the final
/// smoothed pair.
pub open spec fn spec_adx(bars: Seq<Bar>, period: int) -> Option<(int, int, int)> {
    if bars.len() < period + 1 {
        None
    } else {
        let n = (bars.len() - 1) as int;
        let s_tr = wilder_rec(tr_seq(bars), n, period);
        let pdi = di_of(wilder_rec(plus_dm_seq(bars), n, period), s_tr);
        let mdi = di_of(wilder_rec(minus_dm_seq(bars), n, period), s_tr);
        if s_tr == 0 || pdi + mdi == 0 {
            None
        } else {
            Some((spec_adx_trend(bars, period), pdi, mdi))
        }
    }
}

/// Every running Wilder-smoothed value of a series: the smoothed value
/// after consuming `period + j` inputs, for each `j`.
pub fn wilder_series(values: &Vec<i64>, period: usize) -> (r: Vec<i64>)
    requires
        1 <= period <= 1000,
        period <= values@.len(),
        values@.len() <= MAX_BARS,
        forall|i: int| 0 <= i < values@.len() ==> 0 <= #[trigger] values@[i] <= 2 * MAX_PRICE,
    ensures
        r@.len() == values@.len() - period + 1,
        forall|j: int| 0 <= j < r@.len() ==> #[trigger] r@[j] as int
            == wilder_rec(to_int_seq(values@), period + j, period as int),
        forall|j: int| 0 <= j < r@.len() ==> 0 <= #[trigger] r@[j] <= 2 * MAX_PRICE,
{
    let ghost vals = to_int_seq(values@);
    proof {
        assert forall|i: int| 0 <= i < vals.len() implies 0 <= #[trigger] vals[i]
            <= 2 * MAX_PRICE by {
            assert(vals[i] == values@[i] as int);
        }
    }
    let mut sum: i64 = 0;
    let mut i: usize = 0;
    while i < period
        invariant
            0 <= i <= period <= 1000,
            period <= values@.len() <= MAX_BARS,
            forall|j: int| 0 <= j < vals.len() ==> 0 <= #[trigger] vals[j] <= 2 * MAX_PRICE,
            vals == to_int_seq(values@),
            forall|j: int| 0 <= j < values@.len() ==> 0 <= #[trigger] values@[j] <= 2 * MAX_PRICE,
            sum == sum_int(vals.take(i as int)),
            0 <= sum <= (i as int) * (2 * MAX_PRICE),
        decreases period - i,
    {
        proof {
            let t = vals.take(i as int + 1);
            assert(t.drop_last() =~= vals.take(i as int));
            assert(t.last() == vals[i as int]);
            assert forall|j: int| 0 <= j < t.len() implies 0 <= #[trigger] t[j]
                <= 2 * MAX_PRICE by {
                assert(t[j] == vals[j]);
            }
            lemma_sum_int_bounds(t, 0, 2 * MAX_PRICE as int);
            assert((i as int) * (2 * MAX_PRICE) <= 999 * (2 * MAX_PRICE)) by (nonlinear_arith)
                requires 0 <= i as int <= 999;
        }
        sum = sum + values[i];
        i = i + 1;
    }
    let p = period as i64;
    let mut smoothed: i64 = sum / p;
    let mut out: Vec<i64> = Vec::new();
    out.push(smoothed);
    proof {
        assert(smoothed == wilder_rec(vals, period as int, period as int));
        lemma_wilder_bounds(vals, period as int, period as int, 2 * MAX_PRICE as int);
    }
    let mut k: usize = period;
    while k < values.len()
        invariant
            period <= k <= values@.len() <= MAX_BARS,
            1 <= period <= 1000,
            p == period as i64,
            forall|j: int| 0 <= j < vals.len() ==> 0 <= #[trigger] vals[j] <= 2 * MAX_PRICE,
            vals == to_int_seq(values@),
            forall|j: int| 0 <= j < values@.len() ==> 0 <= #[trigger] values@[j] <= 2 * MAX_PRICE,
            smoothed == wilder_rec(vals, k as int, period as int),
            0 <= smoothed <= 2 * MAX_PRICE,
            out@.len() == k - period + 1,
            forall|j: int| 0 <= j < out@.len() ==> #[trigger] out@[j] as int
                == wilder_rec(vals, period as int + j, period as int),
            forall|j: int| 0 <= j < out@.len() ==> 0 <= #[trigger] out@[j] <= 2 * MAX_PRICE,
        decreases values@.len() - k,
    {
        proof {
            let sm = smoothed as int;
            let v = vals[k as int];
            assert(v == values@[k as int] as int);
            assert(0 <= (period - 1) * sm + v <= 1000 * (2 * MAX_PRICE) + 2 * MAX_PRICE)
                by (nonlinear_arith)
                requires 0 <= sm <= 2 * MAX_PRICE, 0 <= v <= 2 * MAX_PRICE, 1 <= period <= 1000;
            lemma_wilder_bounds(vals, k as int + 1, period as int, 2 * MAX_PRICE as int);
        }
        smoothed = ((p - 1) * smoothed + values[k]) / p;
        out.push(smoothed);
        k = k + 1;
    }
    out
}

/// ADX with +DI and -DI under Wilder smoothing, values in hundredths:
/// the trend value smooths the whole DX series over the period.
#[verifier::rlimit(100)]
pub fn calculate_adx(bars: &Vec<Bar>, period: usize) -> (r: Option<(i64, i64, i64)>)
    requires
        1 <= period <= 1000,
        bars@.len() <= MAX_BARS,
        bars_well_formed(bars@),
    ensures
        r matches Some(t) ==> spec_adx(bars@, period as int)
            == Some((t.0 as int, t.1 as int, t.2 as int)),
        r is None <==> spec_adx(bars@, period as int) is None,
        bars@.len() < period + 1 ==> r is None,
{
    if bars.len() < period + 1 {
        return None;
    }
    let mut tr_values: Vec<i64> = Vec::new();
    let mut plus_dm: Vec<i64> = Vec::new();
    let mut minus_dm: Vec<i64> = Vec::new();
    let mut i: usize = 1;
    while i < bars.len()
        invariant
            1 <= i <= bars@.len() <= MAX_BARS,
            bars_well_formed(bars@),
            tr_values@.len() == i - 1,
            plus_dm@.len() == i - 1,
            minus_dm@.len() == i - 1,
            forall|j: int| 0 <= j < i - 1 ==> #[trigger] tr_values@[j] as int == tr_at(bars@, j + 1),
            forall|j: int| 0 <= j < i - 1 ==> #[trigger] plus_dm@[j] as int == plus_dm_at(bars@, j + 1),
            forall|j: int| 0 <= j < i - 1 ==> #[trigger] minus_dm@[j] as int == minus_dm_at(bars@, j + 1),
            forall|j: int| 0 <= j < i - 1 ==> 0 <= #[trigger] tr_values@[j] <= 2 * MAX_PRICE,
            forall|j: int| 0 <= j < i - 1 ==> 0 <= #[trigger] plus_dm@[j] <= 2 * MAX_PRICE,
            forall|j: int| 0 <= j < i - 1 ==> 0 <= #[trigger] minus_dm@[j] <= 2 * MAX_PRICE,
        decreases bars@.len() - i,
    {
        proof {
            assert(bars@[i as int].well_formed());
            assert(bars@[i as int - 1].well_formed());
        }
        let high = bars[i].high;
        let low = bars[i].low;
        let prev_high = bars[i - 1].high;
        let prev_low = bars[i - 1].low;
        let prev_close = bars[i - 1].close;
        let hl = high - low;
        let hc = if high >= prev_close { high - prev_close } else { prev_close - high };
        let lc = if low >= prev_close { low - prev_close } else { prev_close - low };
        let tr = if hl >= hc && hl >= lc { hl } else if hc >= lc { hc } else { lc };
        let up_move = high - prev_high;
        let down_move = prev_low - low;
        let plus_dm_val = if up_move > down_move && up_move > 0 { up_move } else { 0 };
        let minus_dm_val = if down_move > up_move && down_move > 0 { down_move } else { 0 };
        tr_values.push(tr);
        plus_dm.push(plus_dm_val);
        minus_dm.push(minus_dm_val);
        i = i + 1;
    }
    proof {
        assert(to_int_seq(tr_values@) =~= tr_seq(bars@));
        assert(to_int_seq(plus_dm@) =~= plus_dm_seq(bars@));
        assert(to_int_seq(minus_dm@) =~= minus_dm_seq(bars@));
    }
    // Running smoothed series for range and both movements.
    let st = wilder_series(&tr_values, period);
    let sp = wilder_series(&plus_dm, period);
    let sm = wilder_series(&minus_dm, period);
    // DX per step.
    let mut dx_vec: Vec<i64> = Vec::new();
    let m = st.len();
    let mut j: usize = 0;
    while j < m
        invariant
            0 <= j <= m,
            1 <= period <= 1000,
            m == st@.len(),
            m == sp@.len(),
            m == sm@.len(),
            m == bars@.len() - period,
            bars@.len() <= MAX_BARS,
            period + 1 <= bars@.len(),
            forall|q: int| 0 <= q < m ==> #[trigger] st@[q] as int
                == wilder_rec(tr_seq(bars@), period + q, period as int),
            forall|q: int| 0 <= q < m ==> #[trigger] sp@[q] as int
                == wilder_rec(plus_dm_seq(bars@), period + q, period as int),
            forall|q: int| 0 <= q < m ==> #[trigger] sm@[q] as int
                == wilder_rec(minus_dm_seq(bars@), period + q, period as int),
            forall|q: int| 0 <= q < m ==> 0 <= #[trigger] st@[q] <= 2 * MAX_PRICE,
            forall|q: int| 0 <= q < m ==> 0 <= #[trigger] sp@[q] <= 2 * MAX_PRICE,
            forall|q: int| 0 <= q < m ==> 0 <= #[trigger] sm@[q] <= 2 * MAX_PRICE,
            dx_vec@.len() == j,
            forall|q: int| 0 <= q < j ==> #[trigger] dx_vec@[q] as int
                == dx_at(bars@, period as int, period as int + q),
            forall|q: int| 0 <= q < j ==> 0 <= #[trigger] dx_vec@[q] <= 100_00,
        decreases m - j,
    {
        let st_j = st[j];
        let dx: i64 = if st_j == 0 {
            0
        } else {
            let pdi = 100_00 * sp[j] / st_j;
            let mdi = 100_00 * sm[j] / st_j;
            proof {
                vstd::arithmetic::div_mod::lemma_div_pos_is_pos(100_00 * sp@[j as int] as int,
                    st_j as int);
                vstd::arithmetic::div_mod::lemma_div_pos_is_pos(100_00 * sm@[j as int] as int,
                    st_j as int);
                vstd::arithmetic::div_mod::lemma_div_nonincreasing(
                    100_00 * sp@[j as int] as int, st_j as int);
                vstd::arithmetic::div_mod::lemma_div_nonincreasing(
                    100_00 * sm@[j as int] as int, st_j as int);
            }
            let di_sum = pdi + mdi;
            if di_sum == 0 {
                0
            } else {
                let di_diff = if pdi >= mdi { pdi - mdi } else { mdi - pdi };
                let num = (100_00 as i128) * (di_diff as i128);
                let q128 = num / (di_sum as i128);
                proof {
                    let d = di_diff as int;
                    let su = di_sum as int;
                    vstd::arithmetic::div_mod::lemma_div_pos_is_pos(100_00 * d, su);
                    assert(100_00 * d <= 100_00 * su) by (nonlinear_arith)
                        requires 0 <= d <= su;
                    assert((100_00 * d) / su <= (100_00 * su) / su) by {
                        vstd::arithmetic::div_mod::lemma_div_is_ordered(100_00 * d,
                            100_00 * su, su);
                    }
                    assert((100_00 * su) / su == 100_00) by {
                        vstd::arithmetic::div_mod::lemma_div_multiples_vanish(100_00, su);
                    }
                }
                q128 as i64
            }
        };
        dx_vec.push(dx);
        j = j + 1;
    }
    proof {
        assert(to_int_seq(dx_vec@) =~= dx_series(bars@, period as int));
    }
    // Final smoothed DIs.
    let st_last = st[m - 1];
    if st_last == 0 {
        return None;
    }
    let pdi = 100_00 * sp[m - 1] / st_last;
    let mdi = 100_00 * sm[m - 1] / st_last;
    proof {
        vstd::arithmetic::div_mod::lemma_div_pos_is_pos(
            100_00 * sp@[m as int - 1] as int, st_last as int);
        vstd::arithmetic::div_mod::lemma_div_pos_is_pos(
            100_00 * sm@[m as int - 1] as int, st_last as int);
    }
    // A vanished DI pair leaves the DX denominator zero: no reading.
    if pdi + mdi == 0 {
        return None;
    }
    // The trend value: smoothed DX, or its average when the series is
    // shorter than the period.
    let adx: i64 = if dx_vec.len() >= period {
        match wilder_smooth(&dx_vec, period) {
            Some(v) => {
                proof {
                    lemma_wilder_bounds(dx_series(bars@, period as int),
                        dx_series(bars@, period as int).len() as int, period as int,
                        2 * MAX_PRICE as int);
                }
                v
            },
            None => {
                proof {
                    assert(false);
                }
                0
            },
        }
    } else {
        let mut dx_sum: i64 = 0;
        let mut q: usize = 0;
        let ghost dseq = to_int_seq(dx_vec@);
        while q < dx_vec.len()
            invariant
                0 <= q <= dx_vec@.len() <= 1000,
                dseq == to_int_seq(dx_vec@),
                forall|w: int| 0 <= w < dx_vec@.len()
                    ==> 0 <= #[trigger] dx_vec@[w] <= 100_00,
                dx_sum == sum_int(dseq.take(q as int)),
                0 <= dx_sum <= (q as int) * 100_00,
        decreases dx_vec@.len() - q,
        {
            proof {
                let t = dseq.take(q as int + 1);
                assert(t.drop_last() =~= dseq.take(q as int));
                assert(t.last() == dseq[q as int]);
                assert(dseq[q as int] == dx_vec@[q as int] as int);
                assert forall|w: int| 0 <= w < t.len() implies 0 <= #[trigger] t[w]
                    <= 100_00 by {
                    assert(t[w] == dseq[w]);
                    assert(dseq[w] == dx_vec@[w] as int);
                }
                lemma_sum_int_bounds(t, 0, 100_00);
            }
            dx_sum = dx_sum + dx_vec[q];
            q = q + 1;
        }
        proof {
            assert(dseq.take(dseq.len() as int) =~= dseq);
            vstd::arithmetic::div_mod::lemma_div_pos_is_pos(sum_int(dseq),
                dx_vec@.len() as int);
        }
        dx_sum / (dx_vec.len() as i64)
    };
    Some((adx, pdi, mdi))
}

/// RSI over the last `period` close-to-close changes, in hundredths;
/// `10000` (that is, 100.00) when there is no losing step.
pub open spec fn rsi_gains(bars: Seq<Bar>, period: int) -> Seq<int> {
    Seq::new(period as nat,
        |i: int| {
            let c = bars[bars.len() - period + i].close - bars[bars.len() - period + i - 1].close;
            if c > 0 { c as int } else { 0 }
        })
}

pub open spec fn rsi_losses(bars: Seq<Bar>, period: int) -> Seq<int> {
    Seq::new(period as nat,
        |i: int| {
            let c = bars[bars.len() - period + i].close - bars[bars.len() - period + i - 1].close;
            if c > 0 { 0 } else { -(c as int) }
        })
}

pub open spec fn spec_rsi(bars: Seq<Bar>, period: int) -> Option<int> {
    if bars.len() < period + 1 {
        None
    } else {
        let g = sum_int(rsi_gains(bars, period));
        let l = sum_int(rsi_losses(bars, period));
        if l == 0 { Some(100_00) } else { Some(100_00 * g / (g + l)) }
    }
}

/// Wilder's average-gain / average-loss RSI, in hundredths of a point.
pub fn calculate_rsi(bars: &Vec<Bar>, period: usize) -> (r: Option<i64>)
    requires
        1 <= period <= 1000,
        bars@.len() <= MAX_BARS,
        bars_well_formed(bars@),
    ensures
        r matches Some(v) ==> spec_rsi(bars@, period as int) == Some(v as int)
            && 0 <= v <= 100_00,
        r is None <==> spec_rsi(bars@, period as int) is None,
        bars@.len() < period + 1 ==> r is None,
{
    if bars.len() < period + 1 {
        return None;
    }
    let ghost gains_s = rsi_gains(bars@, period as int);
    let ghost losses_s = rsi_losses(bars@, period as int);
    proof {
        assert forall|j: int| 0 <= j < period implies 0 <= #[trigger] gains_s[j]
            <= MAX_PRICE by {
            assert(bars@[bars@.len() - period + j].well_formed());
            assert(bars@[bars@.len() - period + j - 1].well_formed());
        }
        assert forall|j: int| 0 <= j < period implies 0 <= #[trigger] losses_s[j]
            <= MAX_PRICE by {
            assert(bars@[bars@.len() - period + j].well_formed());
            assert(bars@[bars@.len() - period + j - 1].well_formed());
        }
    }
    let start = bars.len() - period;
    let mut gain_sum: i64 = 0;
    let mut loss_sum: i64 = 0;
    let mut i: usize = 0;
    while i < period
        invariant
            0 <= i <= period,
            period + 1 <= bars@.len() <= MAX_BARS,
            start == bars@.len() - period,
            bars_well_formed(bars@),
            gains_s == rsi_gains(bars@, period as int),
            losses_s == rsi_losses(bars@, period as int),
            forall|j: int| 0 <= j < period ==> 0 <= #[trigger] gains_s[j] <= MAX_PRICE,
            forall|j: int| 0 <= j < period ==> 0 <= #[trigger] losses_s[j] <= MAX_PRICE,
            gain_sum == sum_int(gains_s.take(i as int)),
            loss_sum == sum_int(losses_s.take(i as int)),
            0 <= gain_sum <= (i as int) * MAX_PRICE,
            0 <= loss_sum <= (i as int) * MAX_PRICE,
        decreases period - i,
    {
        proof {
            assert(bars@[start as int + i].well_formed());
            assert(bars@[start as int + i - 1].well_formed());
            let tg = gains_s.take(i as int + 1);
            let tl = losses_s.take(i as int + 1);
            assert(tg.drop_last() =~= gains_s.take(i as int));
            assert(tl.drop_last() =~= losses_s.take(i as int));
            assert forall|j: int| 0 <= j < tg.len() implies 0 <= #[trigger] tg[j] <= MAX_PRICE by {
                assert(tg[j] == gains_s[j]);
            }
            assert forall|j: int| 0 <= j < tl.len() implies 0 <= #[trigger] tl[j] <= MAX_PRICE by {
                assert(tl[j] == losses_s[j]);
            }
            lemma_sum_int_bounds(tg, 0, MAX_PRICE as int);
            lemma_sum_int_bounds(tl, 0, MAX_PRICE as int);
        }
        let change = bars[start + i].close - bars[start + i - 1].close;
        if change > 0 {
            gain_sum = gain_sum + change;
        } else {
            loss_sum = loss_sum - change;
        }
        i = i + 1;
    }
    proof {
        assert(gains_s.take(period as int) =~= gains_s);
        assert(losses_s.take(period as int) =~= losses_s);
    }
    if loss_sum == 0 {
        Some(100_00)
    } else {
        let total = gain_sum + loss_sum;
        let num = (100_00 as i128) * (gain_sum as i128);
        let q = num / (total as i128);
        proof {
            let g = gain_sum as int;
            let l = loss_sum as int;
            vstd::arithmetic::div_mod::lemma_div_pos_is_pos(100_00 * g, g + l);
            assert(100_00 * g <= 100_00 * (g + l)) by (nonlinear_arith)
                requires l >= 0, g >= 0;
            assert((100_00 * g) / (g + l) <= (100_00 * (g + l)) / (g + l)) by {
                vstd::arithmetic::div_mod::lemma_div_is_ordered(100_00 * g, 100_00 * (g + l),
                    g + l);
            }
            assert((100_00 * (g + l)) / (g + l) == 100_00) by {
                vstd::arithmetic::div_mod::lemma_div_multiples_vanish(100_00, g + l);
            }
        }
        Some(q as i64)
    }
}

/// On a constant-price series every step loses nothing, so the RSI is
/// exactly one hundred points.
pub proof fn lemma_rsi_flat_is_hundred(bars: Seq<Bar>, period: int)
    requires
        period >= 1,
        bars.len() >= period + 1,
        forall|i: int| 0 <= i < bars.len() ==> (#[trigger] bars[i]).close == bars[0].close,
    ensures
        spec_rsi(bars, period) == Some(100_00int),
{
    let losses = rsi_losses(bars, period);
    assert forall|k: int| 0 <= k < losses.len() implies 0 <= #[trigger] losses[k] <= 0 by {
        assert(bars[bars.len() - period + k].close == bars[0].close);
        assert(bars[bars.len() - period + k - 1].close == bars[0].close);
    }
    lemma_sum_int_bounds(losses, 0, 0);
    assert(losses.len() * 0 == 0) by (nonlinear_arith);
    assert(sum_int(losses) == 0);
}

/// One step of the exponential moving average with multiplier
/// `2/(period+1)`; integer divisions round toward zero.
pub open spec fn ema_step(prev: int, close: int, p: int) -> int {
    if close >= prev {
        prev + (close - prev) * 2 / (p + 1)
    } else {
        prev - (prev - close) * 2 / (p + 1)
    }
}

/// The exponential moving average after the first `k` bars: seeded by the
/// simple average of the oldest `period` closes, then advanced once per
/// later close.
pub open spec fn ema_rec(bars: Seq<Bar>, k: int, period: int) -> int
    recommends
        1 <= period <= k <= bars.len(),
    decreases k,
{
    if period < 1 || k <= period {
        sum_int(Seq::new(period as nat, |i: int| bars[i].close as int)) / period
    } else {
        ema_step(ema_rec(bars, k - 1, period), bars[k - 1].close as int, period)
    }
}

pub open spec fn spec_ema(bars: Seq<Bar>, period: int) -> Option<int> {
    if bars.len() < period {
        None
    } else {
        Some(ema_rec(bars, bars.len() as int, period))
    }
}

proof fn lemma_ema_step_bounds(prev: int, close: int, p: int)
    requires
        0 <= prev <= MAX_PRICE,
        0 <= close <= MAX_PRICE,
        p >= 1,
    ensures
        0 <= ema_step(prev, close, p) <= MAX_PRICE,
{
    if close >= prev {
        let num = (close - prev) * 2;
        vstd::arithmetic::div_mod::lemma_div_pos_is_pos(num, p + 1);
        assert(num / (p + 1) <= num / 2) by {
            vstd::arithmetic::div_mod::lemma_div_is_ordered_by_denominator(num, 2, p + 1);
        }
        assert(num / 2 == close - prev) by {
            assert(num == 2 * (close - prev)) by (nonlinear_arith)
                requires num == (close - prev) * 2;
            vstd::arithmetic::div_mod::lemma_div_multiples_vanish(close - prev, 2);
        }
    } else {
        let num = (prev - close) * 2;
        vstd::arithmetic::div_mod::lemma_div_pos_is_pos(num, p + 1);
        assert(num / (p + 1) <= num / 2) by {
            vstd::arithmetic::div_mod::lemma_div_is_ordered_by_denominator(num, 2, p + 1);
        }
        assert(num / 2 == prev - close) by {
            assert(num == 2 * (prev - close)) by (nonlinear_arith)
                requires num == (prev - close) * 2;
            vstd::arithmetic::div_mod::lemma_div_multiples_vanish(prev - close, 2);
        }
    }
}

proof fn lemma_ema_bounds(bars: Seq<Bar>, k: int, period: int)
    requires
        1 <= period <= k <= bars.len(),
        bars_well_formed(bars),
    ensures
        0 <= ema_rec(bars, k, period) <= MAX_PRICE,
    decreases k,
{
    if k <= period {
        let closes = Seq::new(period as nat, |i: int| bars[i].close as int);
        assert forall|i: int| 0 <= i < closes.len() implies 0 <= #[trigger] closes[i]
            <= MAX_PRICE by {
            assert(bars[i].well_formed());
        }
        lemma_sum_int_bounds(closes, 0, MAX_PRICE as int);
        vstd::arithmetic::div_mod::lemma_div_pos_is_pos(sum_int(closes), period);
        assert(sum_int(closes) / period <= (period * MAX_PRICE) / period) by {
            vstd::arithmetic::div_mod::lemma_div_is_ordered(sum_int(closes),
                period * MAX_PRICE, period);
        }
        assert((period * MAX_PRICE) / period == MAX_PRICE) by {
            vstd::arithmetic::div_mod::lemma_div_multiples_vanish(MAX_PRICE as int, period);
        }
    } else {
        lemma_ema_bounds(bars, k - 1, period);
        assert(bars[k - 1].well_formed());
        lemma_ema_step_bounds(ema_rec(bars, k - 1, period), bars[k - 1].close as int, period);
    }
}

/// Exponential moving average of the closes, hundredths of a rupee.
pub fn calculate_ema(bars: &Vec<Bar>, period: usize) -> (r: Option<i64>)
    requires
        1 <= period <= 1000,
        bars@.len() <= MAX_BARS,
        bars_well_formed(bars@),
    ensures
        r matches Some(v) ==> spec_ema(bars@, period as int) == Some(v as int),
        r is None <==> spec_ema(bars@, period as int) is None,
{
    if bars.len() < period {
        return None;
    }
    let ghost closes = Seq::new(period as nat, |i: int| bars@[i].close as int);
    proof {
        assert forall|j: int| 0 <= j < period implies 0 <= #[trigger] closes[j] <= MAX_PRICE by {
            assert(bars@[j].well_formed());
        }
    }
    let mut sum: i64 = 0;
    let mut i: usize = 0;
    while i < period
        invariant
            0 <= i <= period <= bars@.len() <= MAX_BARS,
            bars_well_formed(bars@),
            closes == Seq::new(period as nat, |j: int| bars@[j].close as int),
            forall|j: int| 0 <= j < period ==> 0 <= #[trigger] closes[j] <= MAX_PRICE,
            sum == sum_int(closes.take(i as int)),
            0 <= sum <= (i as int) * MAX_PRICE,
        decreases period - i,
    {
        proof {
            let t = closes.take(i as int + 1);
            assert(t.drop_last() =~= closes.take(i as int));
            assert forall|j: int| 0 <= j < t.len() implies 0 <= #[trigger] t[j] <= MAX_PRICE by {
                assert(t[j] == closes[j]);
            }
            lemma_sum_int_bounds(t, 0, MAX_PRICE as int);
        }
        sum = sum + bars[i].close;
        i = i + 1;
    }
    proof {
        assert(closes.take(period as int) =~= closes);
    }
    let p = period as i64;
    let mut ema: i64 = sum / p;
    proof {
        lemma_ema_bounds(bars@, period as int, period as int);
    }
    let mut k: usize = period;
    while k < bars.len()
        invariant
            period <= k <= bars@.len() <= MAX_BARS,
            1 <= period <= 1000,
            p == period as i64,
            bars_well_formed(bars@),
            ema == ema_rec(bars@, k as int, period as int),
            0 <= ema <= MAX_PRICE,
        decreases bars@.len() - k,
    {
        proof {
            assert(bars@[k as int].well_formed());
            lemma_ema_step_bounds(ema as int, bars@[k as int].close as int, period as int);
        }
        let close = bars[k].close;
        if close >= ema {
            ema = ema + (close - ema) * 2 / (p + 1);
        } else {
            ema = ema - (ema - close) * 2 / (p + 1);
        }
        k = k + 1;
    }
    Some(ema)
}

/// Closing prices of the last `period` bars, summed.
pub open spec fn close_sum_last(bars: Seq<Bar>, period: int) -> int {
    sum_int(Seq::new(period as nat, |i: int| bars[bars.len() - period + i].close as int))
}

pub open spec fn spec_sma(bars: Seq<Bar>, period: int) -> Option<int> {
    if bars.len() < period {
        None
    } else {
        Some(close_sum_last(bars, period) / period)
    }
}

/// Simple moving average of the last `period` closes.
pub fn calculate_sma(bars: &Vec<Bar>, period: usize) -> (r: Option<i64>)
    requires
        1 <= period <= 1000,
        bars@.len() <= MAX_BARS,
        bars_well_formed(bars@),
    ensures
        r matches Some(v) ==> spec_sma(bars@, period as int) == Some(v as int),
        r is None <==> spec_sma(bars@, period as int) is None,
{
    if bars.len() < period {
        return None;
    }
    let ghost closes = Seq::new(period as nat,
        |i: int| bars@[bars@.len() - period + i].close as int);
    proof {
        assert forall|j: int| 0 <= j < period implies 0 <= #[trigger] closes[j] <= MAX_PRICE by {
            assert(bars@[bars@.len() - period + j].well_formed());
        }
    }
    let start = bars.len() - period;
    let mut sum: i64 = 0;
    let mut i: usize = 0;
    while i < period
        invariant
            0 <= i <= period <= bars@.len() <= MAX_BARS,
            start == bars@.len() - period,
            bars_well_formed(bars@),
            closes == Seq::new(period as nat,
                |j: int| bars@[bars@.len() - period + j].close as int),
            forall|j: int| 0 <= j < period ==> 0 <= #[trigger] closes[j] <= MAX_PRICE,
            sum == sum_int(closes.take(i as int)),
            0 <= sum <= (i as int) * MAX_PRICE,
        decreases period - i,
    {
        proof {
            let t = closes.take(i as int + 1);
            assert(t.drop_last() =~= closes.take(i as int));
            assert forall|j: int| 0 <= j < t.len() implies 0 <= #[trigger] t[j] <= MAX_PRICE by {
                assert(t[j] == closes[j]);
            }
            lemma_sum_int_bounds(t, 0, MAX_PRICE as int);
        }
        sum = sum + bars[start + i].close;
        i = i + 1;
    }
    proof {
        assert(closes.take(period as int) =~= closes);
    }
    Some(sum / (period as i64))
}

/// Typical price of a bar: `(high + low + close) / 3`.
pub open spec fn typical_price(b: Bar) -> int {
    (b.high + b.low + b.close) / 3
}

proof fn lemma_typical_price_bounds(b: Bar)
    requires
        b.well_formed(),
    ensures
        0 <= typical_price(b) <= MAX_PRICE,
{
    let s = b.high + b.low + b.close;
    vstd::arithmetic::div_mod::lemma_div_pos_is_pos(s as int, 3);
    assert(s as int / 3 <= (3 * MAX_PRICE) / 3) by {
        vstd::arithmetic::div_mod::lemma_div_is_ordered(s as int, 3 * MAX_PRICE, 3);
    }
    assert((3 * MAX_PRICE) / 3 == MAX_PRICE) by {
        vstd::arithmetic::div_mod::lemma_div_multiples_vanish(MAX_PRICE as int, 3);
    }
}

pub open spec fn spec_vwap(bars: Seq<Bar>) -> Option<int> {
    if bars.len() == 0 {
        None
    } else {
        let tpv = sum_int(Seq::new(bars.len(), |i: int| typical_price(bars[i]) * bars[i].volume));
        let vol = sum_int(Seq::new(bars.len(), |i: int| bars[i].volume as int));
        if vol == 0 { None } else { Some(tpv / vol) }
    }
}

proof fn lemma_tpv_le_vol_times_max(bars: Seq<Bar>, k: int)
    requires
        bars_well_formed(bars),
        0 <= k <= bars.len(),
    ensures
        sum_int(Seq::new(k as nat, |i: int| typical_price(bars[i]) * bars[i].volume))
            <= sum_int(Seq::new(k as nat, |i: int| bars[i].volume as int)) * MAX_PRICE,
    decreases k,
{
    let tpvs = Seq::new(k as nat, |i: int| typical_price(bars[i]) * bars[i].volume);
    let vols = Seq::new(k as nat, |i: int| bars[i].volume as int);
    if k == 0 {
    } else {
        lemma_tpv_le_vol_times_max(bars, k - 1);
        let tpvs0 = Seq::new((k - 1) as nat, |i: int| typical_price(bars[i]) * bars[i].volume);
        let vols0 = Seq::new((k - 1) as nat, |i: int| bars[i].volume as int);
        assert(tpvs.drop_last() =~= tpvs0);
        assert(vols.drop_last() =~= vols0);
        assert(bars[k - 1].well_formed());
        lemma_typical_price_bounds(bars[k - 1]);
        let tp = typical_price(bars[k - 1]);
        let v = bars[k - 1].volume as int;
        assert(tp * v <= MAX_PRICE * v) by (nonlinear_arith)
            requires 0 <= tp <= MAX_PRICE, 0 <= v;
        assert(sum_int(vols0) * MAX_PRICE + MAX_PRICE * v == (sum_int(vols0) + v) * MAX_PRICE)
            by (nonlinear_arith);
    }
}

/// Volume-weighted average price; `None` on an empty series or zero total
/// volume.
pub fn calculate_vwap(bars: &Vec<Bar>) -> (r: Option<i64>)
    requires
        bars@.len() <= MAX_BARS,
        bars_well_formed(bars@),
    ensures
        r matches Some(v) ==> spec_vwap(bars@) == Some(v as int),
        r is None <==> spec_vwap(bars@) is None,
        bars@.len() == 0 ==> r is None,
{
    if bars.len() == 0 {
        return None;
    }
    let ghost tpvs = Seq::new(bars@.len(), |i: int| typical_price(bars@[i]) * bars@[i].volume);
    let ghost vols = Seq::new(bars@.len(), |i: int| bars@[i].volume as int);
    proof {
        assert forall|j: int| 0 <= j < tpvs.len() implies 0 <= #[trigger] tpvs[j]
            <= MAX_PRICE * MAX_VOLUME by {
            assert(bars@[j].well_formed());
            lemma_typical_price_bounds(bars@[j]);
            assert(0 <= typical_price(bars@[j]) * bars@[j].volume
                <= MAX_PRICE * MAX_VOLUME) by (nonlinear_arith)
                requires
                    0 <= typical_price(bars@[j]) <= MAX_PRICE,
                    0 <= bars@[j].volume <= MAX_VOLUME;
        }
        assert forall|j: int| 0 <= j < vols.len() implies 0 <= #[trigger] vols[j]
            <= MAX_VOLUME by {
            assert(bars@[j].well_formed());
        }
    }
    let mut cumulative_tpv: i128 = 0;
    let mut cumulative_volume: i64 = 0;
    let mut i: usize = 0;
    while i < bars.len()
        invariant
            0 <= i <= bars@.len() <= MAX_BARS,
            bars_well_formed(bars@),
            tpvs == Seq::new(bars@.len(),
                |j: int| typical_price(bars@[j]) * bars@[j].volume),
            vols == Seq::new(bars@.len(), |j: int| bars@[j].volume as int),
            forall|j: int| 0 <= j < tpvs.len() ==> 0 <= #[trigger] tpvs[j]
                <= MAX_PRICE * MAX_VOLUME,
            forall|j: int| 0 <= j < vols.len() ==> 0 <= #[trigger] vols[j] <= MAX_VOLUME,
            cumulative_tpv == sum_int(tpvs.take(i as int)),
            cumulative_volume == sum_int(vols.take(i as int)),
            0 <= cumulative_tpv <= (i as int) * (MAX_PRICE as int * MAX_VOLUME as int),
            0 <= cumulative_volume <= (i as int) * MAX_VOLUME,
        decreases bars@.len() - i,
    {
        proof {
            assert(bars@[i as int].well_formed());
            let tt = tpvs.take(i as int + 1);
            let tv = vols.take(i as int + 1);
            assert(tt.drop_last() =~= tpvs.take(i as int));
            assert(tv.drop_last() =~= vols.take(i as int));
            assert forall|j: int| 0 <= j < tt.len() implies 0 <= #[trigger] tt[j]
                <= MAX_PRICE * MAX_VOLUME by {
                assert(tt[j] == tpvs[j]);
            }
            assert forall|j: int| 0 <= j < tv.len() implies 0 <= #[trigger] tv[j]
                <= MAX_VOLUME by {
                assert(tv[j] == vols[j]);
            }
            lemma_sum_int_bounds(tt, 0, MAX_PRICE as int * MAX_VOLUME as int);
            lemma_sum_int_bounds(tv, 0, MAX_VOLUME as int);
        }
        let b = bars[i];
        let tp = (b.high + b.low + b.close) / 3;
        cumulative_tpv = cumulative_tpv + (tp as i128) * (b.volume as i128);
        cumulative_volume = cumulative_volume + b.volume;
        i = i + 1;
    }
    proof {
        assert(tpvs.take(bars@.len() as int) =~= tpvs);
        assert(vols.take(bars@.len() as int) =~= vols);
    }
    if cumulative_volume == 0 {
        return None;
    }
    let q = cumulative_tpv / (cumulative_volume as i128);
    proof {
        let t = sum_int(tpvs);
        let v = sum_int(vols);
        vstd::arithmetic::div_mod::lemma_div_pos_is_pos(t, v);
        assert(t <= v * MAX_PRICE) by {
            lemma_tpv_le_vol_times_max(bars@, bars@.len() as int);
        }
        assert(t / v <= (v * MAX_PRICE) / v) by {
            vstd::arithmetic::div_mod::lemma_div_is_ordered(t, v * MAX_PRICE, v);
        }
        assert((v * MAX_PRICE) / v == MAX_PRICE) by {
            vstd::arithmetic::div_mod::lemma_div_multiples_vanish(MAX_PRICE as int, v);
        }
    }
    Some(q as i64)
}

pub open spec fn spec_atr(bars: Seq<Bar>, period: int) -> Option<int> {
    if bars.len() < period + 1 {
        None
    } else {
        Some(wilder_rec(tr_seq(bars), (bars.len() - 1) as int, period))
    }
}

/// Average true range (Wilder smoothing of the true-range series).
pub fn calculate_atr(bars: &Vec<Bar>, period: usize) -> (r: Option<i64>)
    requires
        1 <= period <= 1000,
        bars@.len() <= MAX_BARS,
        bars_well_formed(bars@),
    ensures
        r matches Some(v) ==> spec_atr(bars@, period as int) == Some(v as int),
        r is None <==> spec_atr(bars@, period as int) is None,
{
    if bars.len() < period + 1 {
        return None;
    }
    let mut tr_values: Vec<i64> = Vec::new();
    let mut i: usize = 1;
    while i < bars.len()
        invariant
            1 <= i <= bars@.len() <= MAX_BARS,
            bars_well_formed(bars@),
            tr_values@.len() == i - 1,
            forall|j: int| 0 <= j < i - 1 ==> #[trigger] tr_values@[j] as int == tr_at(bars@, j + 1),
            forall|j: int| 0 <= j < i - 1 ==> 0 <= #[trigger] tr_values@[j] <= 2 * MAX_PRICE,
        decreases bars@.len() - i,
    {
        proof {
            assert(bars@[i as int].well_formed());
            assert(bars@[i as int - 1].well_formed());
        }
        let high = bars[i].high;
        let low = bars[i].low;
        let prev_close = bars[i - 1].close;
        let hl = high - low;
        let hc = if high >= prev_close { high - prev_close } else { prev_close - high };
        let lc = if low >= prev_close { low - prev_close } else { prev_close - low };
        let tr = if hl >= hc && hl >= lc { hl } else if hc >= lc { hc } else { lc };
        tr_values.push(tr);
        i = i + 1;
    }
    proof {
        assert(to_int_seq(tr_values@) =~= tr_seq(bars@));
    }
    let result = wilder_smooth(&tr_values, period);
    proof {
        let ts = tr_seq(bars@);
        assert forall|j: int| 0 <= j < ts.len() implies 0 <= #[trigger] ts[j]
            <= 2 * MAX_PRICE by {
            assert(ts[j] == to_int_seq(tr_values@)[j]);
            assert(to_int_seq(tr_values@)[j] == tr_values@[j] as int);
        }
        lemma_wilder_bounds(ts, (bars@.len() - 1) as int, period as int, 2 * MAX_PRICE as int);
    }
    result
}

/// Relative change from `from` to `to` in basis points, rounded toward
/// zero; zero when `from` is zero.
pub open spec fn spec_percentage_change(from: int, to: int) -> int {
    if from == 0 {
        0
    } else if to >= from {
        (to - from) * 100_00 / from
    } else {
        -((from - to) * 100_00 / from)
    }
}

pub fn percentage_change(from: i64, to: i64) -> (r: i64)
    requires
        0 <= from <= MAX_PRICE,
        0 <= to <= MAX_PRICE,
    ensures
        r == spec_percentage_change(from as int, to as int),
{
    if from == 0 {
        return 0;
    }
    if to >= from {
        let num = ((to - from) as i128) * 100_00;
        let q = num / (from as i128);
        proof {
            let d = (to - from) as int * 100_00;
            let f = from as int;
            vstd::arithmetic::div_mod::lemma_div_pos_is_pos(d, f);
            vstd::arithmetic::div_mod::lemma_div_nonincreasing(d, f);
        }
        q as i64
    } else {
        let num = ((from - to) as i128) * 100_00;
        let q = num / (from as i128);
        proof {
            let d = (from - to) as int * 100_00;
            let f = from as int;
            vstd::arithmetic::div_mod::lemma_div_pos_is_pos(d, f);
            vstd::arithmetic::div_mod::lemma_div_nonincreasing(d, f);
        }
        -(q as i64)
    }
}

/// Floor a non-negative price to a multiple of the strike increment.
/// `price` is in hundredths of a rupee; `strike_increment` and the result
/// are whole rupees.
pub fn round_to_strike(price: i64, strike_increment: i64) -> (r: i64)
    requires
        price >= 0,
        0 < strike_increment <= 100_000,
    ensures
        r == ((price as int) / (strike_increment as int * 100)) * (strike_increment as int),
        0 <= r * 100 <= price,
{
    let d = strike_increment * 100;
    let q = price / d;
    proof {
        let pi = price as int;
        let di = d as int;
        let qi = pi / di;
        vstd::arithmetic::div_mod::lemma_fundamental_div_mod(pi, di);
        vstd::arithmetic::div_mod::lemma_mod_division_less_than_divisor(pi, di);
        vstd::arithmetic::div_mod::lemma_div_pos_is_pos(pi, di);
        assert(di * qi <= pi);
        assert((qi * (strike_increment as int)) * 100 == qi * di) by (nonlinear_arith)
            requires di == strike_increment as int * 100;
        assert(qi * di == di * qi) by (nonlinear_arith);
    }
    q * strike_increment
}

} // verus!
