//! Supporting pieces: idempotency-key digests, id generation, the token
//! bucket rate limiter, session-token bookkeeping, the hourly-token
//! registry and the paper-trading broker.

use vstd::prelude::*;
use vstd::string::StringExecFns;
use sha2::{Digest, Sha256};
use crate::types::{OrderType, Side, MAX_PREMIUM, str_eq};
use crate::codec::{hexd, printable, string_to_bytes, bytes_to_string};
use crate::store::clone_string;
use crate::error::TradingError;

verus! {

/// The SHA-256 digest of a byte string; computed only by the hashing
/// crate, named here so contracts can speak of it.
pub uninterp spec fn sha256_of(data: Seq<u8>) -> Seq<u8>;

/// Relies on `sha2::Sha256`: the digest is 32 bytes and depends on the
/// input bytes alone.
#[verifier::external_body]
fn sha256(data: &Vec<u8>) -> (r: Vec<u8>)
    ensures
        r@ == sha256_of(data@),
        r@.len() == 32,
{
    let mut hasher = Sha256::new();
    hasher.update(data.as_slice());
    hasher.finalize().to_vec()
}

/// The lowercase hex rendering of a byte string, as characters.
pub open spec fn hex_chars_of(bytes: Seq<u8>) -> Seq<char> {
    Seq::new(bytes.len() * 2,
        |i: int| if i % 2 == 0 {
            hexd(bytes[i / 2] as int / 16) as char
        } else {
            hexd(bytes[i / 2] as int % 16) as char
        })
}

/// Render bytes as lowercase hex.
fn to_hex_string(bytes: &Vec<u8>) -> (r: String)
    ensures
        r@ == hex_chars_of(bytes@),
{
    let mut out: Vec<u8> = Vec::new();
    let mut i: usize = 0;
    while i < bytes.len()
        invariant
            0 <= i <= bytes@.len(),
            out@.len() == 2 * i,
            out@ == hex_chars_of(bytes@).take(2 * i as int).map_values(|c: char| c as u8),
            forall|j: int| 0 <= j < out@.len() ==> 48 <= #[trigger] out@[j] <= 102,
        decreases bytes@.len() - i,
    {
        let b = bytes[i];
        let hi = b / 16;
        let lo = b % 16;
        let hb = if hi < 10 { 48 + hi } else { 87 + hi };
        let lb = if lo < 10 { 48 + lo } else { 87 + lo };
        proof {
            vstd::arithmetic::div_mod::lemma_mod_division_less_than_divisor(b as int, 16);
            vstd::arithmetic::div_mod::lemma_div_pos_is_pos(b as int, 16);
            vstd::arithmetic::div_mod::lemma_div_nonincreasing(b as int, 16);
        }
        out.push(hb);
        out.push(lb);
        proof {
            let hc = hex_chars_of(bytes@);
            assert(hc[2 * i as int] == hexd(bytes@[i as int] as int / 16) as char);
            assert(hc[2 * i as int + 1] == hexd(bytes@[i as int] as int % 16) as char);
            assert(hb == hexd(bytes@[i as int] as int / 16));
            assert(lb == hexd(bytes@[i as int] as int % 16));
            assert(hb as char as u8 == hb);
            assert(lb as char as u8 == lb);
            assert(out@ =~= hc.take(2 * (i + 1) as int).map_values(|c: char| c as u8));
        }
        i = i + 1;
    }
    proof {
        assert(hex_chars_of(bytes@).take(2 * bytes@.len() as int) =~= hex_chars_of(bytes@));
        assert forall|j: int| 0 <= j < out@.len() implies 32 <= #[trigger] out@[j] <= 126 by {}
    }
    let s = bytes_to_string(&out);
    proof {
        assert forall|j: int| 0 <= j < s@.len() implies s@[j]
            == hex_chars_of(bytes@)[j] by {
            assert(s@[j] == out@[j] as char);
            assert(out@[j] == hex_chars_of(bytes@)[j] as u8);
            let c = hex_chars_of(bytes@)[j];
            assert(c as u8 as char == c) by {
                if j % 2 == 0 {
                    assert(c == hexd(bytes@[j / 2] as int / 16) as char);
                } else {
                    assert(c == hexd(bytes@[j / 2] as int % 16) as char);
                }
            }
        }
        assert(s@ =~= hex_chars_of(bytes@));
    }
    s
}

/// The concatenated bytes of a component list.
pub open spec fn joined_bytes(parts: Seq<Seq<char>>) -> Seq<u8>
    decreases parts.len(),
{
    if parts.len() == 0 {
        Seq::empty()
    } else {
        joined_bytes(parts.drop_last()) + crate::codec::bytes_of(parts.last())
    }
}

/// The idempotency key of a component list: the hex SHA-256 digest of the
/// components' bytes, concatenated in order.
pub fn generate_idempotency_key(components: &Vec<String>) -> (r: String)
    requires
        forall|i: int| 0 <= i < components@.len()
            ==> printable((#[trigger] components@[i])@),
    ensures
        r@ == hex_chars_of(sha256_of(joined_bytes(components@.map_values(|s: String| s@)))),
        r@.len() == 64,
{
    let mut data: Vec<u8> = Vec::new();
    let mut i: usize = 0;
    while i < components.len()
        invariant
            0 <= i <= components@.len(),
            forall|j: int| 0 <= j < components@.len()
                ==> printable((#[trigger] components@[j])@),
            data@ == joined_bytes(components@.map_values(|s: String| s@).take(i as int)),
        decreases components@.len() - i,
    {
        let bytes = string_to_bytes(&components[i]);
        let mut k: usize = 0;
        let ghost base = data@;
        while k < bytes.len()
            invariant
                0 <= k <= bytes@.len(),
                data@ == base + bytes@.take(k as int),
            decreases bytes@.len() - k,
        {
            data.push(bytes[k]);
            proof {
                assert(data@ =~= base + bytes@.take(k as int + 1));
            }
            k = k + 1;
        }
        proof {
            let m = components@.map_values(|s: String| s@);
            assert(bytes@.take(bytes@.len() as int) =~= bytes@);
            assert(bytes@ =~= crate::codec::bytes_of(components@[i as int]@));
            assert(m.take(i as int + 1).drop_last() =~= m.take(i as int));
            assert(m.take(i as int + 1).last() == m[i as int]);
            assert(data@ =~= joined_bytes(m.take(i as int + 1)));
        }
        i = i + 1;
    }
    proof {
        let m = components@.map_values(|s: String| s@);
        assert(m.take(m.len() as int) =~= m);
    }
    let digest = sha256(&data);
    to_hex_string(&digest)
}

/// Relies on `uuid::Uuid::new_v4` / its `Display`: a fresh random v4 UUID
/// rendered in the standard 36-character lowercase hyphenated hex form.
/// Nothing is assumed about which value comes back.
#[verifier::external_body]
pub fn new_uuid_string() -> (r: String)
    ensures
        r@.len() == 36,
        printable(r@),
{
    uuid::Uuid::new_v4().to_string()
}

/// The bucket after refilling: one token per whole elapsed second
/// (bounded by a million at a time), capped at the capacity; under a
/// second of elapsed time adds nothing.
pub open spec fn spec_refilled(tokens: int, cap: int, last_ms: int, now_ms: int) -> int {
    let elapsed = now_ms - last_ms;
    if elapsed >= 1000 {
        let periods = if elapsed / 1000 > 1_000_000 { 1_000_000int } else { elapsed / 1000 };
        if tokens + periods > cap { cap } else { tokens + periods }
    } else {
        tokens
    }
}

/// Token-bucket rate limiter, refilled to capacity once per second of
/// elapsed wall-clock time.
pub struct RateLimiter {
    capacity: u32,
    tokens: u32,
    last_refill_ms: i64,
}

impl RateLimiter {
    pub closed spec fn cap(&self) -> int {
        self.capacity as int
    }

    pub closed spec fn available_tokens(&self) -> int {
        self.tokens as int
    }

    pub open spec fn inv(&self) -> bool {
        &&& 1 <= self.cap() <= 1_000_000
        &&& 0 <= self.available_tokens() <= self.cap()
        &&& 0 <= self.last_ms()
    }

    pub closed spec fn last_ms(&self) -> int {
        self.last_refill_ms as int
    }

    pub fn new(requests_per_second: u32, now_ms: i64) -> (r: RateLimiter)
        requires
            1 <= requests_per_second <= 1_000_000,
            0 <= now_ms,
        ensures
            r.inv(),
            r.cap() == requests_per_second,
            r.available_tokens() == requests_per_second,
    {
        RateLimiter {
            capacity: requests_per_second,
            tokens: requests_per_second,
            last_refill_ms: now_ms,
        }
    }

    /// Add one token per elapsed second, capped at the capacity.
    fn refill(&mut self, now_ms: i64)
        requires
            old(self).inv(),
            old(self).last_ms() <= now_ms,
        ensures
            final(self).inv(),
            final(self).cap() == old(self).cap(),
            final(self).available_tokens() == spec_refilled(old(self).available_tokens(),
                old(self).cap(), old(self).last_ms(), now_ms as int),
            final(self).last_ms() == (if now_ms as int - old(self).last_ms() >= 1000 {
                now_ms as int
            } else {
                old(self).last_ms()
            }),
    {
        let elapsed = now_ms - self.last_refill_ms;
        if elapsed >= 1000 {
            let periods64 = elapsed / 1000;
            let periods = if periods64 > 1_000_000 { 1_000_000 } else { periods64 as u32 };
            proof {
                vstd::arithmetic::div_mod::lemma_div_pos_is_pos(elapsed as int, 1000);
            }
            let refilled = if self.tokens as u64 + periods as u64 > self.capacity as u64 {
                self.capacity
            } else {
                self.tokens + periods
            };
            self.tokens = refilled;
            self.last_refill_ms = now_ms;
        }
    }

    /// Take one token when available: succeeds exactly when the bucket,
    /// refilled for the elapsed time, holds a token, and then removes
    /// one.
    pub fn try_acquire(&mut self, now_ms: i64) -> (r: bool)
        requires
            old(self).inv(),
            old(self).last_ms() <= now_ms,
        ensures
            final(self).inv(),
            final(self).cap() == old(self).cap(),
            final(self).last_ms() <= now_ms,
            ({
                let avail = spec_refilled(old(self).available_tokens(), old(self).cap(),
                    old(self).last_ms(), now_ms as int);
                &&& r == (avail > 0)
                &&& final(self).available_tokens() == (if avail > 0 {
                    avail - 1
                } else {
                    avail
                })
            }),
    {
        self.refill(now_ms);
        if self.tokens > 0 {
            self.tokens = self.tokens - 1;
            true
        } else {
            false
        }
    }

    /// Tokens currently available (after refilling).
    pub fn available(&mut self, now_ms: i64) -> (r: u32)
        requires
            old(self).inv(),
            old(self).last_ms() <= now_ms,
        ensures
            final(self).inv(),
            final(self).cap() == old(self).cap(),
            r == spec_refilled(old(self).available_tokens(), old(self).cap(),
                old(self).last_ms(), now_ms as int),
    {
        self.refill(now_ms);
        self.tokens
    }
}

/// Broker session tokens with their expiries.
#[derive(Debug, Clone)]
pub struct Tokens {
    pub access_token: String,
    pub feed_token: String,
    pub refresh_token: Option<String>,
    pub jwt_expiry_ms: i64,
    pub feed_expiry_ms: i64,
}

impl Tokens {
    /// Whether the JWT has expired at `now_ms`.
    pub fn is_jwt_expired(&self, now_ms: i64) -> (r: bool)
        ensures
            r == (now_ms >= self.jwt_expiry_ms),
    {
        now_ms >= self.jwt_expiry_ms
    }

    /// Whether the feed token has expired at `now_ms`.
    pub fn is_feed_expired(&self, now_ms: i64) -> (r: bool)
        ensures
            r == (now_ms >= self.feed_expiry_ms),
    {
        now_ms >= self.feed_expiry_ms
    }

    /// Whole minutes until the JWT expiry (negative when past).
    pub fn minutes_until_jwt_expiry(&self, now_ms: i64) -> (r: i64)
        requires
            0 <= now_ms,
            0 <= self.jwt_expiry_ms,
        ensures
            self.jwt_expiry_ms >= now_ms
                ==> r == (self.jwt_expiry_ms - now_ms) / 60_000,
            self.jwt_expiry_ms < now_ms
                ==> r == -((now_ms - self.jwt_expiry_ms) / 60_000),
    {
        if self.jwt_expiry_ms >= now_ms {
            (self.jwt_expiry_ms - now_ms) / 60_000
        } else {
            -((now_ms - self.jwt_expiry_ms) / 60_000)
        }
    }

    /// Whole minutes until the feed-token expiry (negative when past).
    pub fn minutes_until_feed_expiry(&self, now_ms: i64) -> (r: i64)
        requires
            0 <= now_ms,
            0 <= self.feed_expiry_ms,
        ensures
            self.feed_expiry_ms >= now_ms
                ==> r == (self.feed_expiry_ms - now_ms) / 60_000,
            self.feed_expiry_ms < now_ms
                ==> r == -((now_ms - self.feed_expiry_ms) / 60_000),
    {
        if self.feed_expiry_ms >= now_ms {
            (self.feed_expiry_ms - now_ms) / 60_000
        } else {
            -((now_ms - self.feed_expiry_ms) / 60_000)
        }
    }

    /// A refresh is due when the JWT expires within the warning window.
    pub fn needs_refresh(&self, now_ms: i64, warning_minutes: i64) -> (r: bool)
        requires
            0 <= now_ms,
            0 <= self.jwt_expiry_ms,
            0 <= warning_minutes <= 1_000_000,
        ensures
            r == (self.jwt_expiry_ms - now_ms <= warning_minutes * 60_000),
    {
        self.jwt_expiry_ms - now_ms <= warning_minutes * 60_000
    }
}

/// One underlying's hourly-data token registration.
#[derive(Debug, Clone)]
pub struct HourlyDataToken {
    pub underlying: String,
    pub token: String,
    pub symbol: String,
    pub last_updated_ms: Option<i64>,
}

/// The registry content mirrored to disk by the caller.
#[derive(Debug, Clone)]
pub struct HourlyTokensConfig {
    pub tokens: Vec<HourlyDataToken>,
    pub last_sync_ms: Option<i64>,
}

/// Hourly-token registry; the durable file behind `file_path` is read and
/// written by the caller, which passes the decoded content through the
/// pure operations below.
pub struct HourlyTokensManager {
    file_path: String,
}

impl HourlyTokensManager {
    pub fn new(file_path: String) -> (r: HourlyTokensManager)
        ensures
            r.path_view() == file_path@,
    {
        HourlyTokensManager { file_path }
    }

    pub closed spec fn path_view(&self) -> Seq<char> {
        self.file_path@
    }

    /// The configured file path (for the caller's I/O).
    pub fn file_path(&self) -> (r: &str)
        ensures
            r@ == self.path_view(),
    {
        self.file_path.as_str()
    }

    /// Replace or append the entry for one underlying.
    pub fn upsert_token(&self, config: &mut HourlyTokensConfig, underlying: &str, token: &str,
        symbol: &str, now_ms: i64)
        ensures
            final(config).tokens@.len() >= 1,
            final(config).tokens@.last().underlying@ == underlying@,
            final(config).tokens@.last().token@ == token@,
            final(config).last_sync_ms == Some(now_ms),
            forall|i: int| 0 <= i < final(config).tokens@.len()
                ==> (#[trigger] final(config).tokens@[i]).underlying@ != underlying@
                    || i == final(config).tokens@.len() - 1,
    {
        let mut kept: Vec<HourlyDataToken> = Vec::new();
        let n = config.tokens.len();
        let mut i: usize = 0;
        while i < n
            invariant
                0 <= i <= n,
                n == config.tokens@.len(),
                config == old(config),
                forall|j: int| 0 <= j < kept@.len()
                    ==> (#[trigger] kept@[j]).underlying@ != underlying@,
            decreases n - i,
        {
            if !str_eq(config.tokens[i].underlying.as_str(), underlying) {
                kept.push(clone_hourly_token(&config.tokens[i]));
            }
            i = i + 1;
        }
        kept.push(HourlyDataToken {
            underlying: String::from_str(underlying),
            token: String::from_str(token),
            symbol: String::from_str(symbol),
            last_updated_ms: Some(now_ms),
        });
        config.tokens = kept;
        config.last_sync_ms = Some(now_ms);
    }

    /// The token registered for an underlying, if any.
    pub fn token_for(&self, config: &HourlyTokensConfig, underlying: &str) -> (r: Option<String>)
        ensures
            r matches Some(t) ==> exists|i: int| 0 <= i < config.tokens@.len()
                && (#[trigger] config.tokens@[i]).underlying@ == underlying@
                && config.tokens@[i].token@ == t@,
            r is None ==> forall|i: int| 0 <= i < config.tokens@.len()
                ==> (#[trigger] config.tokens@[i]).underlying@ != underlying@,
    {
        let mut i: usize = 0;
        while i < config.tokens.len()
            invariant
                0 <= i <= config.tokens@.len(),
                forall|j: int| 0 <= j < i
                    ==> (#[trigger] config.tokens@[j]).underlying@ != underlying@,
            decreases config.tokens@.len() - i,
        {
            if str_eq(config.tokens[i].underlying.as_str(), underlying) {
                return Some(clone_string(&config.tokens[i].token));
            }
            i = i + 1;
        }
        None
    }
}

/// Field-for-field copy of an hourly token entry.
pub fn clone_hourly_token(t: &HourlyDataToken) -> (r: HourlyDataToken)
    ensures
        r == *t,
{
    HourlyDataToken {
        underlying: clone_string(&t.underlying),
        token: clone_string(&t.token),
        symbol: clone_string(&t.symbol),
        last_updated_ms: t.last_updated_ms,
    }
}

/// A simulated order.
#[derive(Debug, Clone)]
pub struct SimulatedOrder {
    pub order_id: String,
    pub symbol: String,
    pub side: Side,
    pub quantity: i64,
    pub order_type: OrderType,
    pub limit_price: Option<i64>,
    pub fill_price: Option<i64>,
    pub filled: bool,
}

/// Simulated fill price: the limit (or 100 rupees when market) moved one
/// slippage against the trade.
pub open spec fn spec_fill_price(side: Side, base: int, slippage_bps: int) -> int {
    let slip = base * slippage_bps / 10_000;
    match side {
        Side::Buy => base + slip,
        Side::Sell => base - slip,
    }
}

/// Paper-trading broker: orders are simulated and optionally auto-filled
/// with a configured slippage.
pub struct PaperTradingBroker {
    orders: Vec<SimulatedOrder>,
    auto_fill: bool,
    slippage_bps: i64,
}

impl PaperTradingBroker {
    pub closed spec fn orders_view(&self) -> Seq<SimulatedOrder> {
        self.orders@
    }

    pub closed spec fn fills(&self) -> bool {
        self.auto_fill
    }

    pub closed spec fn slippage(&self) -> int {
        self.slippage_bps as int
    }

    pub open spec fn inv(&self) -> bool {
        0 <= self.slippage() <= 10_000
    }

    pub fn new(auto_fill: bool, slippage_bps: i64) -> (r: PaperTradingBroker)
        requires
            0 <= slippage_bps <= 10_000,
        ensures
            r.inv(),
            r.fills() == auto_fill,
            r.slippage() == slippage_bps,
            r.orders_view() == Seq::<SimulatedOrder>::empty(),
    {
        PaperTradingBroker { orders: Vec::new(), auto_fill, slippage_bps }
    }

    /// Place a simulated order under the caller-supplied id; with
    /// auto-fill on it fills immediately at the slipped price.
    pub fn place_order(&mut self, order_id: String, symbol: String, side: Side, quantity: i64,
        order_type: OrderType, limit_price: Option<i64>) -> (r: Result<(), TradingError>)
        requires
            old(self).inv(),
            match limit_price {
                Some(p) => 0 <= p <= MAX_PREMIUM,
                None => true,
            },
        ensures
            final(self).inv(),
            r is Ok,
            final(self).orders_view().len() == old(self).orders_view().len() + 1,
            final(self).orders_view().last().order_id@ == order_id@,
            final(self).orders_view().last().filled == old(self).fills(),
            old(self).fills() ==> final(self).orders_view().last().fill_price
                == Some(spec_fill_price(side, (match limit_price {
                    Some(p) => p as int,
                    None => 10_000,
                }), old(self).slippage()) as i64),
    {
        let base = match limit_price {
            Some(p) => p,
            None => 10_000,
        };
        let fill = if self.auto_fill {
            proof {
                assert(0 <= base as int * self.slippage() <= MAX_PREMIUM * 10_000)
                    by (nonlinear_arith)
                    requires 0 <= base <= MAX_PREMIUM, 0 <= self.slippage() <= 10_000;
                vstd::arithmetic::div_mod::lemma_div_pos_is_pos(base as int * self.slippage(),
                    10_000);
                vstd::arithmetic::div_mod::lemma_div_is_ordered(base as int * self.slippage(),
                    (MAX_PREMIUM * 10_000) as int, 10_000);
            }
            let slip = base * self.slippage_bps / 10_000;
            match side {
                Side::Buy => Some(base + slip),
                Side::Sell => Some(base - slip),
            }
        } else {
            None
        };
        let order = SimulatedOrder {
            order_id,
            symbol,
            side,
            quantity,
            order_type,
            limit_price,
            fill_price: fill,
            filled: self.auto_fill,
        };
        self.orders.push(order);
        Ok(())
    }

    /// Whether an order filled: the first order under the id decides,
    /// an unknown id gives nothing.
    pub fn get_order_status(&self, order_id: &str) -> (r: Option<bool>)
        ensures
            (exists|i: int| 0 <= i < self.orders_view().len()
                && (#[trigger] self.orders_view()[i]).order_id@ == order_id@)
                ==> exists|i: int| 0 <= i < self.orders_view().len()
                    && (#[trigger] self.orders_view()[i]).order_id@ == order_id@
                    && (forall|j: int| 0 <= j < i
                        ==> (#[trigger] self.orders_view()[j]).order_id@ != order_id@)
                    && r == Some(self.orders_view()[i].filled),
            r is None <==> (forall|i: int| 0 <= i < self.orders_view().len()
                ==> (#[trigger] self.orders_view()[i]).order_id@ != order_id@),
    {
        let mut i: usize = 0;
        while i < self.orders.len()
            invariant
                0 <= i <= self.orders@.len(),
                forall|j: int| 0 <= j < i
                    ==> (#[trigger] self.orders_view()[j]).order_id@ != order_id@,
            decreases self.orders@.len() - i,
        {
            if str_eq(self.orders[i].order_id.as_str(), order_id) {
                proof {
                    assert((i as int) < self.orders_view().len()
                        && self.orders_view()[i as int].order_id@ == order_id@);
                }
                return Some(self.orders[i].filled);
            }
            i = i + 1;
        }
        None
    }

    /// The simulated fill price of an order: the first order under the
    /// id decides; nothing for an unknown id or an unfilled order.
    pub fn get_fill_price(&self, order_id: &str) -> (r: Option<i64>)
        ensures
            (exists|i: int| 0 <= i < self.orders_view().len()
                && (#[trigger] self.orders_view()[i]).order_id@ == order_id@)
                ==> exists|i: int| 0 <= i < self.orders_view().len()
                    && (#[trigger] self.orders_view()[i]).order_id@ == order_id@
                    && (forall|j: int| 0 <= j < i
                        ==> (#[trigger] self.orders_view()[j]).order_id@ != order_id@)
                    && r == self.orders_view()[i].fill_price,
            (forall|i: int| 0 <= i < self.orders_view().len()
                ==> (#[trigger] self.orders_view()[i]).order_id@ != order_id@)
                ==> r is None,
    {
        let mut i: usize = 0;
        while i < self.orders.len()
            invariant
                0 <= i <= self.orders@.len(),
                forall|j: int| 0 <= j < i
                    ==> (#[trigger] self.orders_view()[j]).order_id@ != order_id@,
            decreases self.orders@.len() - i,
        {
            if str_eq(self.orders[i].order_id.as_str(), order_id) {
                proof {
                    assert((i as int) < self.orders_view().len()
                        && self.orders_view()[i as int].order_id@ == order_id@);
                }
                return self.orders[i].fill_price;
            }
            i = i + 1;
        }
        None
    }

    /// Number of simulated orders placed.
    pub fn total_orders(&self) -> (r: usize)
        ensures
            r == self.orders_view().len(),
    {
        self.orders.len()
    }
}

} // verus!
