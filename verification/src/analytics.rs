//! Daily performance metrics over the day's closed positions.
//!
//! PnL figures are hundredths of a rupee; rates and ratios are basis
//! points; hold times whole minutes.

use vstd::prelude::*;
use vstd::string::StringExecFns;
use crate::types::{Position, OptionType};
use crate::store::clone_string;

verus! {

/// Number of winning positions (positive PnL).
pub open spec fn spec_wins(s: Seq<Position>) -> int
    decreases s.len(),
{
    if s.len() == 0 {
        0
    } else {
        spec_wins(s.drop_last()) + if s.last().pnl > 0 { 1int } else { 0int }
    }
}

/// Number of losing positions (negative PnL).
pub open spec fn spec_losses(s: Seq<Position>) -> int
    decreases s.len(),
{
    if s.len() == 0 {
        0
    } else {
        spec_losses(s.drop_last()) + if s.last().pnl < 0 { 1int } else { 0int }
    }
}

/// Sum of all PnL.
pub open spec fn spec_total_pnl(s: Seq<Position>) -> int
    decreases s.len(),
{
    if s.len() == 0 { 0 } else { spec_total_pnl(s.drop_last()) + s.last().pnl }
}

/// Sum of winning PnL.
pub open spec fn spec_gross_profit(s: Seq<Position>) -> int
    decreases s.len(),
{
    if s.len() == 0 {
        0
    } else {
        spec_gross_profit(s.drop_last()) + if s.last().pnl > 0 { s.last().pnl as int } else { 0int }
    }
}

/// Sum of losing PnL magnitudes.
pub open spec fn spec_gross_loss(s: Seq<Position>) -> int
    decreases s.len(),
{
    if s.len() == 0 {
        0
    } else {
        spec_gross_loss(s.drop_last()) + if s.last().pnl < 0 { -(s.last().pnl as int) } else { 0int }
    }
}

/// The running maximum drawdown: fold of (cumulative, peak, drawdown).
pub open spec fn spec_drawdown(s: Seq<Position>) -> (int, int, int)
    decreases s.len(),
{
    if s.len() == 0 {
        (0, 0, 0)
    } else {
        let (cum0, peak0, dd0) = spec_drawdown(s.drop_last());
        let cum = cum0 + s.last().pnl;
        let peak = if cum > peak0 { cum } else { peak0 };
        let dd = if peak - cum > dd0 { peak - cum } else { dd0 };
        (cum, peak, dd)
    }
}

/// Count of call positions.
pub open spec fn spec_ce_count(s: Seq<Position>) -> int
    decreases s.len(),
{
    if s.len() == 0 {
        0
    } else {
        spec_ce_count(s.drop_last()) + if s.last().option_type is CE { 1int } else { 0int }
    }
}

/// Count of winning call positions.
pub open spec fn spec_ce_wins(s: Seq<Position>) -> int
    decreases s.len(),
{
    if s.len() == 0 {
        0
    } else {
        spec_ce_wins(s.drop_last()) + if s.last().option_type is CE && s.last().pnl > 0 {
            1int
        } else {
            0int
        }
    }
}

/// All positions' PnL within the accounting bound.
pub open spec fn pnl_bounded(s: Seq<Position>) -> bool {
    forall|i: int| 0 <= i < s.len()
        ==> -2_000_000_000_000_000 <= (#[trigger] s[i]).pnl <= 2_000_000_000_000_000
}

/// Daily performance metrics.
#[derive(Debug, Clone)]
pub struct PerformanceMetrics {
    pub date: String,
    pub timestamp_ms: i64,
    pub total_trades: usize,
    pub winning_trades: usize,
    pub losing_trades: usize,
    pub breakeven_trades: usize,
    pub win_rate: i64,
    pub loss_rate: i64,
    pub avg_win: i64,
    pub avg_loss: i64,
    pub largest_win: i64,
    pub largest_loss: i64,
    pub total_pnl: i64,
    pub gross_profit: i64,
    pub gross_loss: i64,
    pub net_pnl: i64,
    /// Basis points; absent when there are no losses to divide by.
    pub profit_factor: Option<i64>,
    pub max_drawdown: i64,
    pub max_drawdown_pct: i64,
    /// Absent until a returns series exists.
    pub sharpe_ratio: Option<i64>,
    pub avg_risk_reward: i64,
    pub avg_hold_time_minutes: i64,
    pub fastest_trade_minutes: i64,
    pub longest_trade_minutes: i64,
    pub ce_trades: usize,
    pub pe_trades: usize,
    pub ce_win_rate: i64,
    pub pe_win_rate: i64,
}

/// One closed position as a report row.
#[derive(Debug, Clone)]
pub struct TradeRecord {
    pub position_id: String,
    pub symbol: String,
    pub option_type: String,
    pub strike: i64,
    pub side: String,
    pub quantity: i64,
    pub entry_price: i64,
    pub exit_price: i64,
    pub entry_time_ms: i64,
    pub exit_time_ms: i64,
    pub hold_time_minutes: i64,
    pub pnl: i64,
    pub pnl_pct: i64,
    pub exit_reason: String,
}

/// The daily report: metrics, rows and advisory notes.
#[derive(Debug, Clone)]
pub struct DailyPerformanceReport {
    pub metrics: PerformanceMetrics,
    pub trades: Vec<TradeRecord>,
    pub notes: Vec<String>,
}

pub struct PerformanceAnalyzer;

impl PerformanceAnalyzer {
    /// Metrics over the day's closed positions, stamped `now_ms`.
    ///
    /// Counts, sums, rates and the drawdown are exact; averages divide
    /// the corresponding sums; the profit factor is the profit-to-loss
    /// ratio in basis points, absent when no loss occurred.
    pub fn calculate_metrics(positions: &Vec<Position>, now_ms: i64) -> (r: PerformanceMetrics)
        requires
            positions@.len() <= 1000,
            pnl_bounded(positions@),
            0 <= now_ms,
            forall|i: int| 0 <= i < positions@.len()
                ==> 0 <= (#[trigger] positions@[i]).entry_time_ms <= now_ms,
        ensures
            r.total_trades == positions@.len(),
            r.winning_trades == spec_wins(positions@),
            r.losing_trades == spec_losses(positions@),
            r.breakeven_trades == positions@.len() - spec_wins(positions@)
                - spec_losses(positions@),
            r.total_pnl == spec_total_pnl(positions@),
            r.net_pnl == spec_total_pnl(positions@),
            r.gross_profit == spec_gross_profit(positions@),
            r.gross_loss == spec_gross_loss(positions@),
            r.max_drawdown == spec_drawdown(positions@).2,
            r.ce_trades == spec_ce_count(positions@),
            r.pe_trades == positions@.len() - spec_ce_count(positions@),
            positions@.len() > 0 ==> r.win_rate == spec_wins(positions@) * 10_000
                / (positions@.len() as int),
            positions@.len() > 0 ==> r.loss_rate == spec_losses(positions@) * 10_000
                / (positions@.len() as int),
            positions@.len() == 0 ==> r.win_rate == 0 && r.loss_rate == 0,
            r.profit_factor is Some <==> spec_gross_loss(positions@) > 0,
            r.sharpe_ratio is None,
    {
        let n = positions.len();
        let mut wins: usize = 0;
        let mut losses: usize = 0;
        let mut total_pnl: i64 = 0;
        let mut gross_profit: i64 = 0;
        let mut gross_loss: i64 = 0;
        let mut largest_win: i64 = 0;
        let mut largest_loss: i64 = 0;
        let mut cum: i64 = 0;
        let mut peak: i64 = 0;
        let mut max_dd: i64 = 0;
        let mut ce_trades: usize = 0;
        let mut ce_wins: usize = 0;
        let mut hold_sum: i64 = 0;
        let mut fastest: i64 = i64::MAX;
        let mut longest: i64 = 0;
        let mut i: usize = 0;
        while i < n
            invariant
                0 <= i <= n,
                n == positions@.len() <= 1000,
                pnl_bounded(positions@),
                0 <= now_ms,
                forall|k: int| 0 <= k < positions@.len()
                    ==> 0 <= (#[trigger] positions@[k]).entry_time_ms <= now_ms,
                wins == spec_wins(positions@.take(i as int)),
                losses == spec_losses(positions@.take(i as int)),
                total_pnl == spec_total_pnl(positions@.take(i as int)),
                gross_profit == spec_gross_profit(positions@.take(i as int)),
                gross_loss == spec_gross_loss(positions@.take(i as int)),
                (cum as int, peak as int, max_dd as int)
                    == spec_drawdown(positions@.take(i as int)),
                ce_trades == spec_ce_count(positions@.take(i as int)),
                ce_wins == spec_ce_wins(positions@.take(i as int)),
                wins <= i,
                losses <= i,
                ce_trades <= i,
                ce_wins <= i,
                -2_000_000_000_000_000_000 <= total_pnl <= 2_000_000_000_000_000_000,
                0 <= gross_profit <= 2_000_000_000_000_000_000,
                0 <= gross_loss <= 2_000_000_000_000_000_000,
                -2_000_000_000_000_000_000 <= cum <= 2_000_000_000_000_000_000,
                0 <= peak <= 2_000_000_000_000_000_000,
                0 <= max_dd <= 4_000_000_000_000_000_000,
                peak >= cum,
                0 <= hold_sum,
                0 <= longest,
                fastest == i64::MAX || 0 <= fastest,
            decreases n - i,
        {
            proof {
                let t = positions@.take(i as int + 1);
                assert(t.drop_last() =~= positions@.take(i as int));
                assert(t.last() == positions@[i as int]);
                lemma_counts_bounded(positions@.take(i as int));
                lemma_sums_bounded(positions@.take(i as int));
            }
            let p = &positions[i];
            let pnl = p.pnl;
            if pnl > 0 {
                wins = wins + 1;
                gross_profit = gross_profit + pnl;
                if pnl > largest_win {
                    largest_win = pnl;
                }
            } else if pnl < 0 {
                losses = losses + 1;
                gross_loss = gross_loss - pnl;
                if pnl < largest_loss {
                    largest_loss = pnl;
                }
            }
            total_pnl = total_pnl + pnl;
            cum = cum + pnl;
            if cum > peak {
                peak = cum;
            }
            if peak - cum > max_dd {
                max_dd = peak - cum;
            }
            if matches!(p.option_type, OptionType::CE) {
                ce_trades = ce_trades + 1;
                if pnl > 0 {
                    ce_wins = ce_wins + 1;
                }
            }
            let hold = (now_ms - p.entry_time_ms) / 60_000;
            proof {
                vstd::arithmetic::div_mod::lemma_div_pos_is_pos(
                    (now_ms - p.entry_time_ms) as int, 60_000);
                vstd::arithmetic::div_mod::lemma_div_nonincreasing(
                    (now_ms - p.entry_time_ms) as int, 60_000);
            }
            if hold_sum <= i64::MAX - hold {
                hold_sum = hold_sum + hold;
            }
            if hold < fastest {
                fastest = hold;
            }
            if hold > longest {
                longest = hold;
            }
            i = i + 1;
        }
        proof {
            assert(positions@.take(n as int) =~= positions@);
        }
        let total = n;
        let win_rate = if total > 0 { (wins as i64) * 10_000 / (total as i64) } else { 0 };
        let loss_rate = if total > 0 { (losses as i64) * 10_000 / (total as i64) } else { 0 };
        let avg_win = if wins > 0 { gross_profit / (wins as i64) } else { 0 };
        let avg_loss = if losses > 0 { -(gross_loss / (losses as i64)) } else { 0 };
        let profit_factor = if gross_loss > 0 {
            proof {
                vstd::arithmetic::div_mod::lemma_div_pos_is_pos(
                    gross_profit as int * 10_000, gross_loss as int);
            }
            Some(((gross_profit as i128) * 10_000 / (gross_loss as i128)) as i64)
        } else {
            None
        };
        let max_dd_pct = if peak > 0 { ((max_dd as i128) * 10_000 / (peak as i128)) as i64 }
            else { 0 };
        let avg_risk_reward = if avg_loss != 0 {
            ((avg_win as i128) * 10_000 / ((-avg_loss) as i128)) as i64
        } else {
            0
        };
        let avg_hold = if total > 0 { hold_sum / (total as i64) } else { 0 };
        let pe_trades = total - ce_trades;
        let ce_win_rate = if ce_trades > 0 {
            (ce_wins as i64) * 10_000 / (ce_trades as i64)
        } else {
            0
        };
        proof {
            lemma_ce_wins_le_wins(positions@);
        }
        let pe_wins = wins - ce_wins;
        let pe_win_rate = if pe_trades > 0 {
            (pe_wins as i64) * 10_000 / (pe_trades as i64)
        } else {
            0
        };
        proof {
            if total > 0 {
                vstd::arithmetic::div_mod::lemma_div_pos_is_pos(wins as int * 10_000,
                    total as int);
                vstd::arithmetic::div_mod::lemma_div_pos_is_pos(losses as int * 10_000,
                    total as int);
            }
            lemma_counts_bounded(positions@);
        }
        PerformanceMetrics {
            date: String::from_str("today"),
            timestamp_ms: now_ms,
            total_trades: total,
            winning_trades: wins,
            losing_trades: losses,
            breakeven_trades: total - wins - losses,
            win_rate,
            loss_rate,
            avg_win,
            avg_loss,
            largest_win,
            largest_loss,
            total_pnl,
            gross_profit,
            gross_loss,
            net_pnl: total_pnl,
            profit_factor,
            max_drawdown: max_dd,
            max_drawdown_pct: max_dd_pct,
            sharpe_ratio: None,
            avg_risk_reward,
            avg_hold_time_minutes: avg_hold,
            fastest_trade_minutes: if fastest == i64::MAX { 0 } else { fastest },
            longest_trade_minutes: longest,
            ce_trades,
            pe_trades,
            ce_win_rate,
            pe_win_rate,
        }
    }

    /// The running drawdown fold alone (exposed for callers that only
    /// need the drawdown).
    pub fn calculate_max_drawdown(positions: &Vec<Position>) -> (r: (i64, i64))
        requires
            positions@.len() <= 1000,
            pnl_bounded(positions@),
        ensures
            r.0 == spec_drawdown(positions@).2,
    {
        let mut cum: i64 = 0;
        let mut peak: i64 = 0;
        let mut max_dd: i64 = 0;
        let mut i: usize = 0;
        let n = positions.len();
        while i < n
            invariant
                0 <= i <= n,
                n == positions@.len() <= 1000,
                pnl_bounded(positions@),
                (cum as int, peak as int, max_dd as int)
                    == spec_drawdown(positions@.take(i as int)),
                -2_000_000_000_000_000_000 <= cum <= 2_000_000_000_000_000_000,
                0 <= peak <= 2_000_000_000_000_000_000,
                0 <= max_dd <= 4_000_000_000_000_000_000,
                peak >= cum,
            decreases n - i,
        {
            proof {
                let t = positions@.take(i as int + 1);
                assert(t.drop_last() =~= positions@.take(i as int));
                assert(t.last() == positions@[i as int]);
                lemma_sums_bounded(positions@.take(i as int));
            }
            let pnl = positions[i].pnl;
            cum = cum + pnl;
            if cum > peak {
                peak = cum;
            }
            if peak - cum > max_dd {
                max_dd = peak - cum;
            }
            i = i + 1;
        }
        proof {
            assert(positions@.take(n as int) =~= positions@);
        }
        let max_dd_pct = if peak > 0 { ((max_dd as i128) * 10_000 / (peak as i128)) as i64 }
            else { 0 };
        (max_dd, max_dd_pct)
    }

    /// Metrics of an empty day.
    pub fn empty_metrics(now_ms: i64) -> (r: PerformanceMetrics)
        ensures
            r.total_trades == 0,
            r.total_pnl == 0,
    {
        PerformanceMetrics {
            date: String::from_str("today"),
            timestamp_ms: now_ms,
            total_trades: 0,
            winning_trades: 0,
            losing_trades: 0,
            breakeven_trades: 0,
            win_rate: 0,
            loss_rate: 0,
            avg_win: 0,
            avg_loss: 0,
            largest_win: 0,
            largest_loss: 0,
            total_pnl: 0,
            gross_profit: 0,
            gross_loss: 0,
            net_pnl: 0,
            profit_factor: None,
            max_drawdown: 0,
            max_drawdown_pct: 0,
            sharpe_ratio: None,
            avg_risk_reward: 0,
            avg_hold_time_minutes: 0,
            fastest_trade_minutes: 0,
            longest_trade_minutes: 0,
            ce_trades: 0,
            pe_trades: 0,
            ce_win_rate: 0,
            pe_win_rate: 0,
        }
    }

    /// The daily report: metrics, one row per position, and notes on win
    /// rate, profit factor and drawdown.
    pub fn generate_daily_report(positions: &Vec<Position>, now_ms: i64) -> (r:
        DailyPerformanceReport)
        requires
            positions@.len() <= 1000,
            pnl_bounded(positions@),
            0 <= now_ms,
            forall|i: int| 0 <= i < positions@.len()
                ==> 0 <= (#[trigger] positions@[i]).entry_time_ms <= now_ms,
        ensures
            r.trades@.len() == positions@.len(),
            r.metrics.total_trades == positions@.len(),
    {
        let metrics = Self::calculate_metrics(positions, now_ms);
        let mut trades: Vec<TradeRecord> = Vec::new();
        let mut i: usize = 0;
        while i < positions.len()
            invariant
                0 <= i <= positions@.len(),
                trades@.len() == i,
                0 <= now_ms,
                forall|k: int| 0 <= k < positions@.len()
                    ==> 0 <= (#[trigger] positions@[k]).entry_time_ms <= now_ms,
            decreases positions@.len() - i,
        {
            let p = &positions[i];
            proof {
                vstd::arithmetic::div_mod::lemma_div_pos_is_pos(
                    (now_ms - p.entry_time_ms) as int, 60_000);
            }
            trades.push(TradeRecord {
                position_id: clone_string(&p.position_id),
                symbol: clone_string(&p.symbol),
                option_type: String::from_str(p.option_type.as_str()),
                strike: p.strike,
                side: String::from_str(p.side.as_str()),
                quantity: p.quantity,
                entry_price: p.entry_price,
                exit_price: p.current_price,
                entry_time_ms: p.entry_time_ms,
                exit_time_ms: now_ms,
                hold_time_minutes: (now_ms - p.entry_time_ms) / 60_000,
                pnl: p.pnl,
                pnl_pct: p.pnl_pct,
                exit_reason: String::from_str("EOD"),
            });
            i = i + 1;
        }
        let mut notes: Vec<String> = Vec::new();
        if metrics.total_trades > 0 && metrics.win_rate >= 6000 {
            notes.push(String::from_str("strong win rate today"));
        } else if metrics.total_trades > 0 && metrics.win_rate < 4000 {
            notes.push(String::from_str("low win rate; review the strategy"));
        }
        match metrics.profit_factor {
            Some(pf) => {
                if pf >= 20_000 {
                    notes.push(String::from_str("strong profit factor"));
                } else if pf < 10_000 {
                    notes.push(String::from_str("profit factor below one"));
                }
            },
            None => {},
        }
        if metrics.max_drawdown_pct > 1000 {
            notes.push(String::from_str("significant drawdown; review risk limits"));
        }
        DailyPerformanceReport { metrics, trades, notes }
    }
}

/// Counts stay within the sequence length.
proof fn lemma_counts_bounded(s: Seq<Position>)
    ensures
        0 <= spec_wins(s) <= s.len(),
        0 <= spec_losses(s) <= s.len(),
        0 <= spec_ce_count(s) <= s.len(),
        0 <= spec_ce_wins(s) <= s.len(),
        spec_wins(s) + spec_losses(s) <= s.len(),
        spec_ce_wins(s) <= spec_wins(s),
        spec_ce_wins(s) <= spec_ce_count(s),
    decreases s.len(),
{
    if s.len() > 0 {
        lemma_counts_bounded(s.drop_last());
    }
}

/// Sums stay within per-element bound times the length.
proof fn lemma_sums_bounded(s: Seq<Position>)
    requires
        pnl_bounded(s),
        s.len() <= 1000,
    ensures
        -(s.len() * 2_000_000_000_000_000) <= spec_total_pnl(s)
            <= s.len() * 2_000_000_000_000_000,
        0 <= spec_gross_profit(s) <= s.len() * 2_000_000_000_000_000,
        0 <= spec_gross_loss(s) <= s.len() * 2_000_000_000_000_000,
        -(s.len() * 2_000_000_000_000_000) <= spec_drawdown(s).0
            <= s.len() * 2_000_000_000_000_000,
        0 <= spec_drawdown(s).1 <= s.len() * 2_000_000_000_000_000,
        0 <= spec_drawdown(s).2 <= 2 * s.len() * 2_000_000_000_000_000,
        spec_drawdown(s).1 >= spec_drawdown(s).0,
    decreases s.len(),
{
    if s.len() > 0 {
        assert(s.drop_last().len() == s.len() - 1);
        assert(pnl_bounded(s.drop_last())) by {
            assert forall|i: int| 0 <= i < s.drop_last().len()
                implies -2_000_000_000_000_000 <= (#[trigger] s.drop_last()[i]).pnl
                    <= 2_000_000_000_000_000 by {
                assert(s.drop_last()[i] == s[i]);
            }
        }
        lemma_sums_bounded(s.drop_last());
        assert((s.len() - 1) * 2_000_000_000_000_000 + 2_000_000_000_000_000
            == s.len() * 2_000_000_000_000_000) by (nonlinear_arith);
        assert(2 * (s.len() - 1) * 2_000_000_000_000_000 + 2 * 2_000_000_000_000_000
            == 2 * s.len() * 2_000_000_000_000_000) by (nonlinear_arith);
    }
}

/// Call wins never exceed total wins.
proof fn lemma_ce_wins_le_wins(s: Seq<Position>)
    ensures
        spec_ce_wins(s) <= spec_wins(s),
    decreases s.len(),
{
    if s.len() > 0 {
        lemma_ce_wins_le_wins(s.drop_last());
    }
}

} // verus!
