//! Instrument-master token extraction and pre-market ATM option
//! selection.

use vstd::prelude::*;
use vstd::string::StringExecFns;
use vstd::string::StrSliceExecFns;
use crate::types::{Instrument, MAX_PRICE, str_eq};
use crate::strategy::{BiasDirection, DailyBias};
use crate::store::clone_string;

verus! {

/// Token bundle of one underlying.
#[derive(Debug, Clone)]
pub struct AssetTokens {
    pub underlying_name: String,
    pub spot_token: Option<String>,
    pub spot_symbol: Option<String>,
    pub futures: Vec<FutureToken>,
    pub options: Vec<OptionToken>,
}

/// One futures contract.
#[derive(Debug, Clone)]
pub struct FutureToken {
    pub token: String,
    pub symbol: String,
    pub expiry: String,
    pub lot_size: i64,
}

/// One option contract; `strike` in hundredths of a rupee.
#[derive(Debug, Clone)]
pub struct OptionToken {
    pub token: String,
    pub symbol: String,
    pub strike: i64,
    pub option_type: String,
    pub expiry: String,
    pub lot_size: i64,
}

/// The symbol's last two characters, when it has them.
pub open spec fn spec_suffix2(s: Seq<char>) -> Seq<char> {
    if s.len() >= 2 { s.subrange(s.len() - 2, s.len() as int) } else { Seq::empty() }
}

fn suffix2(s: &str) -> (r: Option<(char, char)>)
    ensures
        s@.len() >= 2 <==> r is Some,
        r matches Some(p) ==> p.0 == s@[s@.len() - 2] && p.1 == s@[s@.len() - 1],
{
    let n = s.unicode_len();
    if n >= 2 {
        Some((s.get_char(n - 2), s.get_char(n - 1)))
    } else {
        None
    }
}

pub fn has_option_suffix(s: &str) -> (r: bool)
    ensures
        r == (spec_suffix2(s@) == "CE"@ || spec_suffix2(s@) == "PE"@),
{
    proof {
        reveal_strlit("CE");
        reveal_strlit("PE");
    }
    match suffix2(s) {
        Some((a, b)) => {
            let ce = a == 'C' && b == 'E';
            let pe = a == 'P' && b == 'E';
            proof {
                let suf = spec_suffix2(s@);
                assert(suf.len() == 2);
                assert(suf[0] == a && suf[1] == b);
                if ce {
                    assert(suf =~= "CE"@);
                } else if pe {
                    assert(suf =~= "PE"@);
                } else {
                    if suf == "CE"@ {
                        assert(suf[0] == 'C' && suf[1] == 'E');
                    }
                    if suf == "PE"@ {
                        assert(suf[0] == 'P' && suf[1] == 'E');
                    }
                }
            }
            ce || pe
        },
        None => {
            proof {
                assert(spec_suffix2(s@).len() == 0);
                if spec_suffix2(s@) == "CE"@ {
                    assert("CE"@.len() == 2);
                }
                if spec_suffix2(s@) == "PE"@ {
                    assert("PE"@.len() == 2);
                }
            }
            false
        },
    }
}

/// Token extractor over an instrument master snapshot.
pub struct TokenExtractor {
    instruments: Vec<Instrument>,
}

impl TokenExtractor {
    pub closed spec fn rows(&self) -> Seq<Instrument> {
        self.instruments@
    }

    pub fn new(instruments: Vec<Instrument>) -> (r: TokenExtractor)
        ensures
            r.rows() == instruments@,
    {
        TokenExtractor { instruments }
    }

    /// Spot token lookup: an index row of the underlying first, then an
    /// option-index row on the cash segment, then a cash equity row.
    /// Both results are present or both absent.
    pub fn find_spot_token(&self, underlying: &str) -> (r: (Option<String>, Option<String>))
        ensures
            r.0 is Some <==> r.1 is Some,
            r.0 matches Some(t) ==> exists|i: int| 0 <= i < self.rows().len()
                && (#[trigger] self.rows()[i]).token@ == t@
                && self.rows()[i].name@ == underlying@,
            (exists|i: int| 0 <= i < self.rows().len()
                && (#[trigger] self.rows()[i]).name@ == underlying@
                && self.rows()[i].instrument_type@ == "INDEX"@) ==> r.0 is Some,
    {
        // Strategy 1: an INDEX row under the exact name.
        let mut i: usize = 0;
        let n = self.instruments.len();
        while i < n
            invariant
                0 <= i <= n,
                n == self.rows().len(),
                forall|j: int| 0 <= j < i ==> !((#[trigger] self.rows()[j]).name@ == underlying@
                    && self.rows()[j].instrument_type@ == "INDEX"@),
            decreases n - i,
        {
            let inst = &self.instruments[i];
            if str_eq(inst.name.as_str(), underlying) && str_eq(inst.instrument_type.as_str(),
                "INDEX") {
                proof {
                    assert((i as int) < self.rows().len()
                        && self.rows()[i as int].token@ == self.rows()[i as int].token@
                        && self.rows()[i as int].name@ == underlying@);
                }
                return (Some(clone_string(&inst.token)), Some(clone_string(&inst.symbol)));
            }
            i = i + 1;
        }
        // Strategy 2: an OPTIDX row on the cash segment.
        let mut i2: usize = 0;
        while i2 < n
            invariant
                0 <= i2 <= n,
                n == self.rows().len(),
                forall|j: int| 0 <= j < n ==> !((#[trigger] self.rows()[j]).name@ == underlying@
                    && self.rows()[j].instrument_type@ == "INDEX"@),
            decreases n - i2,
        {
            let inst = &self.instruments[i2];
            if str_eq(inst.name.as_str(), underlying)
                && str_eq(inst.instrument_type.as_str(), "OPTIDX")
                && str_eq(inst.exch_seg.as_str(), "NSE") {
                proof {
                    assert((i2 as int) < self.rows().len()
                        && self.rows()[i2 as int].name@ == underlying@);
                }
                return (Some(clone_string(&inst.token)), Some(clone_string(&inst.symbol)));
            }
            i2 = i2 + 1;
        }
        // Strategy 3: a cash equity row.
        let mut i3: usize = 0;
        while i3 < n
            invariant
                0 <= i3 <= n,
                n == self.rows().len(),
                forall|j: int| 0 <= j < n ==> !((#[trigger] self.rows()[j]).name@ == underlying@
                    && self.rows()[j].instrument_type@ == "INDEX"@),
            decreases n - i3,
        {
            let inst = &self.instruments[i3];
            if str_eq(inst.name.as_str(), underlying)
                && str_eq(inst.instrument_type.as_str(), "EQUITY")
                && str_eq(inst.exch_seg.as_str(), "NSE") {
                proof {
                    assert((i3 as int) < self.rows().len()
                        && self.rows()[i3 as int].name@ == underlying@);
                }
                return (Some(clone_string(&inst.token)), Some(clone_string(&inst.symbol)));
            }
            i3 = i3 + 1;
        }
        (None, None)
    }

    /// All option contracts of an underlying on the F&O segment.
    pub fn find_options(&self, underlying: &str) -> (r: Vec<OptionToken>)
        ensures
            r@.len() <= self.rows().len(),
            forall|j: int| 0 <= j < r@.len()
                ==> (#[trigger] r@[j]).option_type@ == "CE"@ || r@[j].option_type@ == "PE"@,
    {
        let mut out: Vec<OptionToken> = Vec::new();
        let mut i: usize = 0;
        let n = self.instruments.len();
        proof {
            reveal_strlit("CE");
            reveal_strlit("PE");
        }
        while i < n
            invariant
                0 <= i <= n,
                n == self.rows().len(),
                out@.len() <= i,
                forall|j: int| 0 <= j < out@.len()
                    ==> (#[trigger] out@[j]).option_type@ == "CE"@
                        || out@[j].option_type@ == "PE"@,
            decreases n - i,
        {
            let inst = &self.instruments[i];
            if str_eq(inst.name.as_str(), underlying) && str_eq(inst.exch_seg.as_str(), "NFO")
                && (str_eq(inst.instrument_type.as_str(), "OPTIDX")
                    || str_eq(inst.instrument_type.as_str(), "OPTSTK"))
                && has_option_suffix(inst.symbol.as_str()) {
                let suf = suffix2(inst.symbol.as_str());
                let option_type = match suf {
                    Some((a, _)) => {
                        if a == 'C' {
                            String::from_str("CE")
                        } else {
                            String::from_str("PE")
                        }
                    },
                    None => String::from_str("CE"),
                };
                out.push(OptionToken {
                    token: clone_string(&inst.token),
                    symbol: clone_string(&inst.symbol),
                    strike: inst.strike,
                    option_type,
                    expiry: clone_string(&inst.expiry),
                    lot_size: inst.lotsize,
                });
            }
            i = i + 1;
        }
        out
    }

    /// All futures contracts of an underlying on the F&O segment.
    pub fn find_futures(&self, underlying: &str) -> (r: Vec<FutureToken>)
        ensures
            r@.len() <= self.rows().len(),
    {
        let mut out: Vec<FutureToken> = Vec::new();
        let mut i: usize = 0;
        let n = self.instruments.len();
        while i < n
            invariant
                0 <= i <= n,
                n == self.rows().len(),
                out@.len() <= i,
            decreases n - i,
        {
            let inst = &self.instruments[i];
            if str_eq(inst.name.as_str(), underlying) && str_eq(inst.exch_seg.as_str(), "NFO")
                && (str_eq(inst.instrument_type.as_str(), "FUTIDX")
                    || str_eq(inst.instrument_type.as_str(), "FUTSTK")) {
                out.push(FutureToken {
                    token: clone_string(&inst.token),
                    symbol: clone_string(&inst.symbol),
                    expiry: clone_string(&inst.expiry),
                    lot_size: inst.lotsize,
                });
            }
            i = i + 1;
        }
        out
    }

    /// The spot token with all futures and options of an underlying.
    pub fn extract_asset_tokens(&self, underlying: &str) -> (r: AssetTokens)
        ensures
            r.underlying_name@ == underlying@,
    {
        let (spot_token, spot_symbol) = self.find_spot_token(underlying);
        let futures = self.find_futures(underlying);
        let options = self.find_options(underlying);
        AssetTokens {
            underlying_name: String::from_str(underlying),
            spot_token,
            spot_symbol,
            futures,
            options,
        }
    }

    /// Token bundles for the three major indices.
    pub fn extract_all_indices(&self) -> (r: Vec<AssetTokens>)
        ensures
            r@.len() == 3,
    {
        let mut out: Vec<AssetTokens> = Vec::new();
        out.push(self.extract_asset_tokens("NIFTY"));
        out.push(self.extract_asset_tokens("BANKNIFTY"));
        out.push(self.extract_asset_tokens("FINNIFTY"));
        out
    }

    /// Names of stocks with F&O contracts, first occurrence order,
    /// without duplicates.
    pub fn get_all_fno_stocks(&self) -> (r: Vec<String>)
        ensures
            forall|a: int, b: int| 0 <= a < b < r@.len()
                ==> (#[trigger] r@[a])@ != (#[trigger] r@[b])@,
    {
        let mut out: Vec<String> = Vec::new();
        let mut i: usize = 0;
        let n = self.instruments.len();
        while i < n
            invariant
                0 <= i <= n,
                n == self.rows().len(),
                forall|a: int, b: int| 0 <= a < b < out@.len()
                    ==> (#[trigger] out@[a])@ != (#[trigger] out@[b])@,
            decreases n - i,
        {
            let inst = &self.instruments[i];
            if str_eq(inst.exch_seg.as_str(), "NFO")
                && (str_eq(inst.instrument_type.as_str(), "FUTSTK")
                    || str_eq(inst.instrument_type.as_str(), "OPTSTK")) {
                let name = clone_string(&inst.name);
                let mut seen = false;
                let mut j: usize = 0;
                let m = out.len();
                while j < m && !seen
                    invariant
                        0 <= j <= m,
                        m == out@.len(),
                        !seen ==> forall|k: int| 0 <= k < j
                            ==> (#[trigger] out@[k])@ != name@,
                        seen ==> exists|k: int| 0 <= k < m
                            && (#[trigger] out@[k])@ == name@,
                    decreases m - j + (if seen { 0int } else { 1int }),
                {
                    if str_eq(out[j].as_str(), name.as_str()) {
                        proof {
                            assert(out@[j as int]@ == name@);
                        }
                        seen = true;
                    } else {
                        j = j + 1;
                    }
                }
                if !seen {
                    let ghost out0 = out@;
                    out.push(name);
                    proof {
                        assert forall|a: int, b: int| 0 <= a < b < out@.len()
                            implies (#[trigger] out@[a])@ != (#[trigger] out@[b])@ by {
                            if b == out@.len() - 1 {
                                assert(out@[a] == out0[a]);
                            } else {
                                assert(out@[a] == out0[a] && out@[b] == out0[b]);
                            }
                        }
                    }
                }
            }
            i = i + 1;
        }
        out
    }

    /// A fixed set of heavily traded F&O stocks.
    pub fn get_popular_fno_stocks(&self) -> (r: Vec<String>)
        ensures
            r@.len() == 20,
    {
        let mut v: Vec<String> = Vec::new();
        v.push(String::from_str("RELIANCE"));
        v.push(String::from_str("TCS"));
        v.push(String::from_str("HDFCBANK"));
        v.push(String::from_str("INFY"));
        v.push(String::from_str("ICICIBANK"));
        v.push(String::from_str("HINDUNILVR"));
        v.push(String::from_str("ITC"));
        v.push(String::from_str("SBIN"));
        v.push(String::from_str("BHARTIARTL"));
        v.push(String::from_str("KOTAKBANK"));
        v.push(String::from_str("LT"));
        v.push(String::from_str("AXISBANK"));
        v.push(String::from_str("BAJFINANCE"));
        v.push(String::from_str("ASIANPAINT"));
        v.push(String::from_str("MARUTI"));
        v.push(String::from_str("TITAN"));
        v.push(String::from_str("SUNPHARMA"));
        v.push(String::from_str("WIPRO"));
        v.push(String::from_str("ULTRACEMCO"));
        v.push(String::from_str("TATAMOTORS"));
        v
    }

    /// Options of an underlying with strikes inside a range, optionally
    /// pinned to one expiry.  Strikes are whole rupees here.
    pub fn get_options_in_range(&self, underlying: &str, min_strike: i64, max_strike: i64,
        expiry: Option<&str>) -> (r: Vec<OptionToken>)
        ensures
            forall|j: int| 0 <= j < r@.len()
                ==> min_strike as int * 100 <= (#[trigger] r@[j]).strike <= max_strike as int
                    * 100,
    {
        let all = self.find_options(underlying);
        let mut out: Vec<OptionToken> = Vec::new();
        let mut i: usize = 0;
        while i < all.len()
            invariant
                0 <= i <= all@.len(),
                forall|j: int| 0 <= j < out@.len()
                    ==> min_strike as int * 100 <= (#[trigger] out@[j]).strike
                        <= max_strike as int * 100,
            decreases all@.len() - i,
        {
            let opt = &all[i];
            let in_range = min_strike <= i64::MAX / 100 && max_strike <= i64::MAX / 100
                && min_strike >= i64::MIN / 100 && max_strike >= i64::MIN / 100
                && min_strike * 100 <= opt.strike && opt.strike <= max_strike * 100;
            let expiry_match = match expiry {
                Some(e) => str_eq(opt.expiry.as_str(), e),
                None => true,
            };
            if in_range && expiry_match {
                out.push(clone_option_token(opt));
            }
            i = i + 1;
        }
        out
    }
}

/// Field-for-field copy of an option token.
pub fn clone_option_token(o: &OptionToken) -> (r: OptionToken)
    ensures
        r == *o,
{
    OptionToken {
        token: clone_string(&o.token),
        symbol: clone_string(&o.symbol),
        strike: o.strike,
        option_type: clone_string(&o.option_type),
        expiry: clone_string(&o.expiry),
        lot_size: o.lot_size,
    }
}

/// The ATM strike and its distance from the price.
#[derive(Debug, Clone, Copy, PartialEq, Eq, Structural)]
pub struct AtmStrike {
    /// Whole rupees.
    pub strike: i64,
    /// Hundredths of a rupee.
    pub distance_from_price: i64,
}

/// An option pre-selected for the day from the bias scan.
#[derive(Debug, Clone)]
pub struct PreSelectedOption {
    pub underlying: String,
    pub spot_token: String,
    pub bias: BiasDirection,
    pub close_price: i64,
    pub atm_strike: AtmStrike,
    pub ce_token: Option<String>,
    pub ce_symbol: Option<String>,
    pub pe_token: Option<String>,
    pub pe_symbol: Option<String>,
    pub lot_size: i64,
    pub expiry: String,
}

/// The nearest strike: round half away from zero to a multiple of the
/// increment.  `price` is hundredths of a rupee, the result whole rupees.
pub open spec fn spec_atm_strike(price: int, increment: int) -> int {
    ((price + increment * 50) / (increment * 100)) * increment
}

/// Round a price to the nearest strike.
pub fn atm_strike_for(price: i64, increment: i64) -> (r: i64)
    requires
        0 <= price <= MAX_PRICE,
        0 < increment <= 100_000,
    ensures
        r == spec_atm_strike(price as int, increment as int),
        0 <= r <= MAX_PRICE,
        r * 100 <= price + increment * 50,
{
    let d = increment * 100;
    let shifted = price + increment * 50;
    proof {
        let s = shifted as int;
        let di = d as int;
        let q = s / di;
        vstd::arithmetic::div_mod::lemma_fundamental_div_mod(s, di);
        vstd::arithmetic::div_mod::lemma_mod_division_less_than_divisor(s, di);
        vstd::arithmetic::div_mod::lemma_div_pos_is_pos(s, di);
        assert(di * q <= s);
        assert(q * di == di * q) by (nonlinear_arith);
        assert(q * (increment as int) * 100 == q * di) by (nonlinear_arith)
            requires di == increment as int * 100;
        assert(q * (increment as int) <= s) by {
            assert(q * (increment as int) * 100 <= s);
            assert(q * (increment as int) >= 0) by (nonlinear_arith)
                requires q >= 0, increment as int > 0;
            assert(q * (increment as int) <= q * (increment as int) * 100) by (nonlinear_arith)
                requires q * (increment as int) >= 0;
        }
    }
    (shifted / d) * increment
}

/// Epoch-day number of a Gregorian civil date (the standard
/// days-from-civil computation; day zero is 1970-01-01).
pub open spec fn spec_days_from_civil(y: int, m: int, d: int) -> int {
    let yy = if m <= 2 { y - 1 } else { y };
    let era = if yy >= 0 { yy / 400 } else { (yy - 399) / 400 };
    let yoe = yy - era * 400;
    let mm = if m > 2 { m - 3 } else { m + 9 };
    let doy = (153 * mm + 2) / 5 + d - 1;
    let doe = yoe * 365 + yoe / 4 - yoe / 100 + doy;
    era * 146097 + doe - 719468
}

/// Epoch-day number of a civil date in the engine's working range.
pub fn days_from_civil(y: i64, m: i64, d: i64) -> (r: i64)
    requires
        1970 <= y <= 9999,
        1 <= m <= 12,
        1 <= d <= 31,
    ensures
        r == spec_days_from_civil(y as int, m as int, d as int),
        0 <= r <= 4_000_000,
{
    let yy = if m <= 2 { y - 1 } else { y };
    let era = yy / 400;
    let yoe = yy - era * 400;
    let mm = if m > 2 { m - 3 } else { m + 9 };
    let doy = (153 * mm + 2) / 5 + d - 1;
    proof {
        vstd::arithmetic::div_mod::lemma_fundamental_div_mod(yy as int, 400);
        vstd::arithmetic::div_mod::lemma_mod_division_less_than_divisor(yy as int, 400);
        vstd::arithmetic::div_mod::lemma_div_pos_is_pos(yy as int, 400);
        assert(yy as int - (yy as int / 400) * 400 == yy as int % 400) by {
            assert((yy as int / 400) * 400 == 400 * (yy as int / 400)) by (nonlinear_arith);
        }
        vstd::arithmetic::div_mod::lemma_div_pos_is_pos((153 * mm + 2) as int, 5);
        vstd::arithmetic::div_mod::lemma_div_nonincreasing((153 * mm + 2) as int, 5);
        let yoe_i = yy as int - (yy as int / 400) * 400;
        vstd::arithmetic::div_mod::lemma_div_pos_is_pos(yoe_i, 4);
        vstd::arithmetic::div_mod::lemma_div_nonincreasing(yoe_i, 4);
        vstd::arithmetic::div_mod::lemma_div_pos_is_pos(yoe_i, 100);
        vstd::arithmetic::div_mod::lemma_div_nonincreasing(yoe_i, 100);
        assert(0 <= (yy as int / 400) * 146097 <= 25 * 146097) by (nonlinear_arith)
            requires 0 <= yy as int / 400 <= 25;
        assert(0 <= yoe_i * 365 <= 400 * 365) by (nonlinear_arith)
            requires 0 <= yoe_i < 400;
    }
    let doe = yoe * 365 + yoe / 4 - yoe / 100 + doy;
    era * 146097 + doe - 719468
}

/// Month number of a three-letter month code, upper case.
pub open spec fn spec_month_of(a: char, b: char, c: char) -> Option<int> {
    if a == 'J' && b == 'A' && c == 'N' { Some(1int) }
    else if a == 'F' && b == 'E' && c == 'B' { Some(2int) }
    else if a == 'M' && b == 'A' && c == 'R' { Some(3int) }
    else if a == 'A' && b == 'P' && c == 'R' { Some(4int) }
    else if a == 'M' && b == 'A' && c == 'Y' { Some(5int) }
    else if a == 'J' && b == 'U' && c == 'N' { Some(6int) }
    else if a == 'J' && b == 'U' && c == 'L' { Some(7int) }
    else if a == 'A' && b == 'U' && c == 'G' { Some(8int) }
    else if a == 'S' && b == 'E' && c == 'P' { Some(9int) }
    else if a == 'O' && b == 'C' && c == 'T' { Some(10int) }
    else if a == 'N' && b == 'O' && c == 'V' { Some(11int) }
    else if a == 'D' && b == 'E' && c == 'C' { Some(12int) }
    else { None }
}

fn month_of(a: char, b: char, c: char) -> (r: Option<i64>)
    ensures
        r == (match spec_month_of(a, b, c) {
            Some(m) => Some(m as i64),
            None => None::<i64>,
        }),
{
    if a == 'J' && b == 'A' && c == 'N' { Some(1) }
    else if a == 'F' && b == 'E' && c == 'B' { Some(2) }
    else if a == 'M' && b == 'A' && c == 'R' { Some(3) }
    else if a == 'A' && b == 'P' && c == 'R' { Some(4) }
    else if a == 'M' && b == 'A' && c == 'Y' { Some(5) }
    else if a == 'J' && b == 'U' && c == 'N' { Some(6) }
    else if a == 'J' && b == 'U' && c == 'L' { Some(7) }
    else if a == 'A' && b == 'U' && c == 'G' { Some(8) }
    else if a == 'S' && b == 'E' && c == 'P' { Some(9) }
    else if a == 'O' && b == 'C' && c == 'T' { Some(10) }
    else if a == 'N' && b == 'O' && c == 'V' { Some(11) }
    else if a == 'D' && b == 'E' && c == 'C' { Some(12) }
    else { None }
}

/// Parse an expiry of the form `"14NOV2024"` into year, month and day;
/// `None` on any other shape.
pub fn parse_expiry_date(expiry: &str) -> (r: Option<(i64, i64, i64)>)
    ensures
        r matches Some(t) ==> 1970 <= t.0 <= 9999 && 1 <= t.1 <= 12 && 1 <= t.2 <= 31,
{
    let n = expiry.unicode_len();
    if n < 9 {
        return None;
    }
    let d1 = match digit_val_of(expiry.get_char(0)) {
        Some(v) => v,
        None => { return None; },
    };
    let d2 = match digit_val_of(expiry.get_char(1)) {
        Some(v) => v,
        None => { return None; },
    };
    let m = match month_of(expiry.get_char(2), expiry.get_char(3), expiry.get_char(4)) {
        Some(v) => v,
        None => { return None; },
    };
    let y1 = match digit_val_of(expiry.get_char(5)) {
        Some(v) => v,
        None => { return None; },
    };
    let y2 = match digit_val_of(expiry.get_char(6)) {
        Some(v) => v,
        None => { return None; },
    };
    let y3 = match digit_val_of(expiry.get_char(7)) {
        Some(v) => v,
        None => { return None; },
    };
    let y4 = match digit_val_of(expiry.get_char(8)) {
        Some(v) => v,
        None => { return None; },
    };
    let day = d1 * 10 + d2;
    let year = ((y1 * 10 + y2) * 10 + y3) * 10 + y4;
    if 1970 <= year && year <= 9999 && 1 <= day && day <= 31 {
        Some((year, m, day))
    } else {
        None
    }
}

fn digit_val_of(c: char) -> (r: Option<i64>)
    ensures
        r matches Some(v) ==> 0 <= v <= 9,
{
    if c >= '0' && c <= '9' {
        Some((c as u32 as i64) - 48)
    } else {
        None
    }
}

/// Pre-market ATM option selector.
pub struct PremarketSelector {
    token_extractor: TokenExtractor,
}

impl PremarketSelector {
    pub fn new(token_extractor: TokenExtractor) -> (r: PremarketSelector) {
        PremarketSelector { token_extractor }
    }

    /// The strike increment of an underlying: fifty rupees for NIFTY and
    /// FINNIFTY, one hundred for BANKNIFTY, fifty otherwise.
    pub fn get_strike_increment(&self, underlying: &str) -> (r: i64)
        ensures
            r == (if underlying@ == "BANKNIFTY"@ { 100int } else { 50int }),
            0 < r <= 100,
    {
        if str_eq(underlying, "BANKNIFTY") {
            100
        } else {
            50
        }
    }

    /// The ATM strike for a close price, rounded to the nearest
    /// increment.
    pub fn select_atm_strike(&self, underlying: &str, close_price: i64) -> (r: Option<AtmStrike>)
        requires
            0 <= close_price <= MAX_PRICE,
        ensures
            r is Some,
            r matches Some(a) ==> {
                let inc: int = if underlying@ == "BANKNIFTY"@ { 100 } else { 50 };
                &&& a.strike == spec_atm_strike(close_price as int, inc)
                &&& 0 <= a.strike <= MAX_PRICE
                &&& a.distance_from_price == (if a.strike * 100 >= close_price {
                    a.strike * 100 - close_price
                } else {
                    close_price - a.strike * 100
                })
            },
    {
        let strike_increment = self.get_strike_increment(underlying);
        let atm = atm_strike_for(close_price, strike_increment);
        let strike_h = atm * 100;
        let distance = if strike_h >= close_price {
            strike_h - close_price
        } else {
            close_price - strike_h
        };
        Some(AtmStrike { strike: atm, distance_from_price: distance })
    }

    /// The nearest expiry that leaves enough days: at least two for an
    /// index, at least seven for a stock; when all are too close, the
    /// farthest expiry is used.  Expiries are compared in calendar order.
    pub fn select_nearest_expiry(&self, underlying: &str, options: &Vec<OptionToken>,
        today_epoch_day: i64) -> (r: Option<String>)
        requires
            0 <= today_epoch_day <= 4_000_000,
        ensures
            options@.len() == 0 ==> r is None,
    {
        if options.len() == 0 {
            return None;
        }
        let is_index = str_eq(underlying, "NIFTY") || str_eq(underlying, "BANKNIFTY")
            || str_eq(underlying, "FINNIFTY") || str_eq(underlying, "MIDCPNIFTY");
        let min_dte: i64 = if is_index { 2 } else { 7 };
        let mut best: Option<(usize, i64)> = None;
        let mut farthest: Option<(usize, i64)> = None;
        let mut i: usize = 0;
        while i < options.len()
            invariant
                0 <= i <= options@.len(),
                0 <= today_epoch_day <= 4_000_000,
                match best {
                    Some(b) => b.0 < options@.len(),
                    None => true,
                },
                match farthest {
                    Some(f) => f.0 < options@.len(),
                    None => true,
                },
            decreases options@.len() - i,
        {
            match parse_expiry_date(options[i].expiry.as_str()) {
                Some((y, m, d)) => {
                    let day = days_from_civil(y, m, d);
                    let dte = day - today_epoch_day;
                    if dte >= min_dte {
                        let better = match best {
                            Some(b) => dte < b.1,
                            None => true,
                        };
                        if better {
                            best = Some((i, dte));
                        }
                    }
                    let farther = match farthest {
                        Some(f) => dte > f.1,
                        None => true,
                    };
                    if farther {
                        farthest = Some((i, dte));
                    }
                },
                None => {},
            }
            i = i + 1;
        }
        match best {
            Some((bi, _)) => Some(clone_string(&options[bi].expiry)),
            None => match farthest {
                Some((fi, _)) => Some(clone_string(&options[fi].expiry)),
                None => None,
            },
        }
    }

    /// Select the pre-market option for one bias: the ATM strike at its
    /// close, the chosen expiry, and the CE/PE contracts at that strike.
    pub fn select_premarket_option(&self, bias: &DailyBias, today_epoch_day: i64) -> (r: Option<
        PreSelectedOption>)
        requires
            0 <= bias.close_price <= MAX_PRICE,
            0 <= today_epoch_day <= 4_000_000,
        ensures
            bias.bias == BiasDirection::NoTrade ==> r is None,
            r matches Some(p) ==> p.bias == bias.bias && p.underlying@ == bias.underlying@,
    {
        if bias.bias == BiasDirection::NoTrade {
            return None;
        }
        let atm = match self.select_atm_strike(bias.underlying.as_str(), bias.close_price) {
            Some(a) => a,
            None => { return None; },
        };
        let tokens = self.token_extractor.extract_asset_tokens(bias.underlying.as_str());
        let selected_expiry = match self.select_nearest_expiry(bias.underlying.as_str(),
            &tokens.options, today_epoch_day) {
            Some(e) => e,
            None => { return None; },
        };
        let mut ce_token: Option<String> = None;
        let mut ce_symbol: Option<String> = None;
        let mut pe_token: Option<String> = None;
        let mut pe_symbol: Option<String> = None;
        let mut lot_size: i64 = 0;
        let mut found_any = false;
        let mut i: usize = 0;
        while i < tokens.options.len()
            invariant
                0 <= i <= tokens.options@.len(),
                0 <= atm.strike <= MAX_PRICE,
            decreases tokens.options@.len() - i,
        {
            let opt = &tokens.options[i];
            let strike_matches = atm.strike <= i64::MAX / 100
                && opt.strike == atm.strike * 100;
            if strike_matches && str_eq(opt.expiry.as_str(), selected_expiry.as_str()) {
                if !found_any {
                    lot_size = opt.lot_size;
                    found_any = true;
                }
                if str_eq(opt.option_type.as_str(), "CE") {
                    if matches!(ce_token, None) {
                        ce_token = Some(clone_string(&opt.token));
                        ce_symbol = Some(clone_string(&opt.symbol));
                    }
                } else {
                    if matches!(pe_token, None) {
                        pe_token = Some(clone_string(&opt.token));
                        pe_symbol = Some(clone_string(&opt.symbol));
                    }
                }
            }
            i = i + 1;
        }
        if !found_any {
            return None;
        }
        Some(PreSelectedOption {
            underlying: clone_string(&bias.underlying),
            spot_token: clone_string(&bias.spot_token),
            bias: bias.bias,
            close_price: bias.close_price,
            atm_strike: atm,
            ce_token,
            ce_symbol,
            pe_token,
            pe_symbol,
            lot_size,
            expiry: selected_expiry,
        })
    }

    /// Pre-market options for every non-flat bias.
    pub fn select_all_premarket_options(&self, biases: &Vec<DailyBias>, today_epoch_day: i64)
        -> (r: Vec<PreSelectedOption>)
        requires
            0 <= today_epoch_day <= 4_000_000,
            forall|i: int| 0 <= i < biases@.len()
                ==> 0 <= (#[trigger] biases@[i]).close_price <= MAX_PRICE,
        ensures
            r@.len() <= biases@.len(),
            forall|j: int| 0 <= j < r@.len()
                ==> (#[trigger] r@[j]).bias != BiasDirection::NoTrade,
    {
        let mut out: Vec<PreSelectedOption> = Vec::new();
        let mut i: usize = 0;
        while i < biases.len()
            invariant
                0 <= i <= biases@.len(),
                out@.len() <= i,
                0 <= today_epoch_day <= 4_000_000,
                forall|k: int| 0 <= k < biases@.len()
                    ==> 0 <= (#[trigger] biases@[k]).close_price <= MAX_PRICE,
                forall|j: int| 0 <= j < out@.len()
                    ==> (#[trigger] out@[j]).bias != BiasDirection::NoTrade,
            decreases biases@.len() - i,
        {
            if !matches!(biases[i].bias, BiasDirection::NoTrade) {
                match self.select_premarket_option(&biases[i], today_epoch_day) {
                    Some(p) => {
                        proof {
                            assert(p.bias == biases@[i as int].bias);
                        }
                        out.push(p);
                    },
                    None => {},
                }
            }
            i = i + 1;
        }
        out
    }

    /// The token and symbol to trade for a selection, by its bias side.
    pub fn get_tradeable_option(option: &PreSelectedOption) -> (r: Option<(String, String)>)
        ensures
            option.bias == BiasDirection::NoTrade ==> r is None,
            option.bias == BiasDirection::CE && option.ce_token is Some
                && option.ce_symbol is Some ==> (r matches Some(p)
                && p.0@ == option.ce_token->0@ && p.1@ == option.ce_symbol->0@),
            option.bias == BiasDirection::PE && option.pe_token is Some
                && option.pe_symbol is Some ==> (r matches Some(p)
                && p.0@ == option.pe_token->0@ && p.1@ == option.pe_symbol->0@),
    {
        match option.bias {
            BiasDirection::CE => {
                match (&option.ce_token, &option.ce_symbol) {
                    (Some(t), Some(s)) => Some((clone_string(t), clone_string(s))),
                    _ => None,
                }
            },
            BiasDirection::PE => {
                match (&option.pe_token, &option.pe_symbol) {
                    (Some(t), Some(s)) => Some((clone_string(t), clone_string(s))),
                    _ => None,
                }
            },
            BiasDirection::NoTrade => None,
        }
    }
}

} // verus!
