//! Order management: idempotent placement with a bounded retry /
//! price-walk ladder, and the nine pre-order validation checks.
//!
//! The broker round-trips live with the caller: `place_order_start`
//! decides whether the broker may be called at all for an idempotency
//! key, `next_attempt_price` walks the ladder, and the caller reports
//! each attempt's outcome back through `record_attempt_failure` /
//! `record_attempt_success`.

use vstd::prelude::*;
use vstd::string::StringExecFns;
use crate::types::{Config, Instrument, Order, OrderStatus, OrderType, Side, MAX_PREMIUM,
    MAX_QUANTITY, str_eq};
use crate::timeutil::{is_market_open, spec_is_market_open, MAX_TS_MS};
use crate::error::TradingError;
use crate::store::clone_string;
use crate::bus::EventBus;
use crate::events::{event_key, Event, EventPayload, EventType};

verus! {

/// Outcome of starting an order intent.
#[derive(Debug)]
pub enum StartOutcome {
    /// The key was already processed: the recorded order id is returned
    /// and the broker must not be called again.
    Existing(String),
    /// A fresh order was recorded in `Pending`; the caller may begin
    /// placement attempts.
    Proceed,
}

/// What to do after a failed placement attempt.
#[derive(Debug, Clone, Copy, PartialEq, Eq, Structural)]
pub enum RetryDecision {
    /// Wait this many seconds, then retry at the walked price.
    Retry(u64),
    /// The ladder is exhausted; the order is `Failed`.
    GiveUp,
}

/// The order id recorded for an idempotency key, if any.
pub open spec fn intent_for(intents: Seq<(String, String)>, key: Seq<char>) -> Option<Seq<char>>
    decreases intents.len(),
{
    if intents.len() == 0 {
        None
    } else if intents[0].0@ == key {
        Some(intents[0].1@)
    } else {
        intent_for(intents.drop_first(), key)
    }
}

proof fn lemma_intent_for_first(intents: Seq<(String, String)>, key: Seq<char>, i: int)
    requires
        0 <= i < intents.len(),
        intents[i].0@ == key,
        forall|j: int| 0 <= j < i ==> (#[trigger] intents[j].0)@ != key,
    ensures
        intent_for(intents, key) == Some(intents[i].1@),
    decreases intents.len(),
{
    if i == 0 {
    } else {
        assert(intents[0].0@ != key);
        lemma_intent_for_first(intents.drop_first(), key, i - 1);
        assert forall|j: int| 0 <= j < i - 1
            implies (#[trigger] intents.drop_first()[j].0)@ != key by {
            assert(intents.drop_first()[j] == intents[j + 1]);
        }
    }
}

proof fn lemma_intent_for_none(intents: Seq<(String, String)>, key: Seq<char>)
    requires
        forall|j: int| 0 <= j < intents.len() ==> (#[trigger] intents[j].0)@ != key,
    ensures
        intent_for(intents, key) is None,
    decreases intents.len(),
{
    if intents.len() > 0 {
        lemma_intent_for_none(intents.drop_first(), key);
    }
}

/// Recording a fresh intent makes its key map to the recorded order id,
/// so a later identical intent replays that id without a broker call.
pub proof fn lemma_intent_recorded(intents: Seq<(String, String)>, entry: (String, String))
    requires
        intent_for(intents, entry.0@) is None,
    ensures
        intent_for(intents.push(entry), entry.0@) == Some(entry.1@),
    decreases intents.len(),
{
    if intents.len() > 0 {
        assert(intents.push(entry)[0] == intents[0]);
        lemma_intent_recorded(intents.drop_first(), entry);
        assert(intents.push(entry).drop_first() =~= intents.drop_first().push(entry));
    } else {
        assert(intents.push(entry)[0] == entry);
    }
}

proof fn lemma_intent_for_push(intents: Seq<(String, String)>, key: Seq<char>,
    entry: (String, String))
    requires
        intent_for(intents, key) matches Some(v),
    ensures
        intent_for(intents.push(entry), key) == intent_for(intents, key),
    decreases intents.len(),
{
    if intents.len() > 0 {
        assert(intents.push(entry)[0] == intents[0]);
        if intents[0].0@ == key {
        } else {
            lemma_intent_for_push(intents.drop_first(), key, entry);
            assert(intents.push(entry).drop_first() =~= intents.drop_first().push(entry));
        }
    }
}

/// Updating one order in place (same id) keeps ids unique.
proof fn lemma_unique_update(os: Seq<Order>, idx: int, o: Order)
    requires
        0 <= idx < os.len(),
        o.order_id@ == os[idx].order_id@,
        forall|i: int, j: int| 0 <= i < j < os.len()
            ==> (#[trigger] os[i]).order_id@ != (#[trigger] os[j]).order_id@,
    ensures
        forall|i: int, j: int| 0 <= i < j < os.update(idx, o).len()
            ==> (#[trigger] os.update(idx, o)[i]).order_id@
                != (#[trigger] os.update(idx, o)[j]).order_id@,
{
    let ns = os.update(idx, o);
    assert forall|i: int, j: int| 0 <= i < j < ns.len()
        implies (#[trigger] ns[i]).order_id@ != (#[trigger] ns[j]).order_id@ by {
        assert(ns[i].order_id@ == os[i].order_id@);
        assert(ns[j].order_id@ == os[j].order_id@);
    }
}

pub struct OrderManager {
    orders: Vec<Order>,
    processed_intents: Vec<(String, String)>,
    order_retry_steps_pct: Vec<i64>,
    order_max_retries: u32,
    order_retry_backoffs_sec: Vec<u64>,
}

impl OrderManager {
    pub closed spec fn orders_view(&self) -> Seq<Order> {
        self.orders@
    }

    pub closed spec fn intents_view(&self) -> Seq<(String, String)> {
        self.processed_intents@
    }

    pub closed spec fn max_retries(&self) -> int {
        self.order_max_retries as int
    }

    pub open spec fn inv(&self) -> bool {
        &&& forall|i: int, j: int| 0 <= i < j < self.orders_view().len()
            ==> (#[trigger] self.orders_view()[i]).order_id@
                != (#[trigger] self.orders_view()[j]).order_id@
        &&& self.orders_view().len() <= 100_000
        &&& forall|i: int| 0 <= i < self.retry_steps().len()
            ==> 0 <= #[trigger] self.retry_steps()[i] <= 100_000
    }

    pub closed spec fn retry_steps(&self) -> Seq<i64> {
        self.order_retry_steps_pct@
    }

    pub closed spec fn backoffs(&self) -> Seq<u64> {
        self.order_retry_backoffs_sec@
    }

    /// The sleep before retry `attempt` (one-based): the schedule entry,
    /// or eight seconds past its end.
    pub open spec fn spec_backoff(&self, attempt: int) -> u64 {
        if 1 <= attempt && attempt - 1 < self.backoffs().len() {
            self.backoffs()[attempt - 1]
        } else {
            8u64
        }
    }

    pub fn new(order_retry_steps_pct: Vec<i64>, order_max_retries: u32,
        order_retry_backoffs_sec: Vec<u64>) -> (r: OrderManager)
        requires
            forall|i: int| 0 <= i < order_retry_steps_pct@.len()
                ==> 0 <= #[trigger] order_retry_steps_pct@[i] <= 100_000,
        ensures
            r.inv(),
            r.orders_view() == Seq::<Order>::empty(),
            r.intents_view() == Seq::<(String, String)>::empty(),
            r.max_retries() == order_max_retries,
    {
        OrderManager {
            orders: Vec::new(),
            processed_intents: Vec::new(),
            order_retry_steps_pct,
            order_max_retries,
            order_retry_backoffs_sec,
        }
    }

    fn find_order(&self, order_id: &str) -> (r: Option<usize>)
        ensures
            match r {
                Some(i) => i < self.orders_view().len()
                    && self.orders_view()[i as int].order_id@ == order_id@,
                None => forall|i: int| 0 <= i < self.orders_view().len()
                    ==> (#[trigger] self.orders_view()[i]).order_id@ != order_id@,
            },
    {
        let mut i: usize = 0;
        while i < self.orders.len()
            invariant
                0 <= i <= self.orders_view().len(),
                forall|j: int| 0 <= j < i
                    ==> (#[trigger] self.orders_view()[j]).order_id@ != order_id@,
            decreases self.orders_view().len() - i,
        {
            if str_eq(self.orders[i].order_id.as_str(), order_id) {
                return Some(i);
            }
            i = i + 1;
        }
        None
    }

    /// Start an order intent.  A key that was already processed returns
    /// the order id recorded for it, untouched state, and no further
    /// broker call; a fresh key records a `Pending` order under
    /// `order_id` and publishes `OrderIntentCreated`.
    pub fn place_order_start(&mut self, symbol: String, side: Side, quantity: i64,
        initial_price: i64, idempotency_key: String, order_id: String, bus: &mut EventBus,
        now_ms: i64, nonce: String) -> (r: StartOutcome)
        requires
            old(self).inv(),
            old(bus).inv(),
            old(self).orders_view().len() < 100_000,
            !contains_order_id(old(self).orders_view(), order_id@),
            old(bus).log_view().len() < 999_999_000,
            !old(bus).spec_seen(event_key(EventType::OrderIntentCreated, nonce@)),
        ensures
            final(self).inv(),
            final(bus).inv(),
            final(bus).keys_view() == old(bus).keys_view()
                || final(bus).keys_view() == old(bus).keys_view().push(
                    event_key(EventType::OrderIntentCreated, nonce@)),
            intent_for(old(self).intents_view(), idempotency_key@) matches Some(oid) ==> {
                &&& r matches StartOutcome::Existing(s) && s@ == oid
                &&& final(self).orders_view() == old(self).orders_view()
                &&& final(self).intents_view() == old(self).intents_view()
                &&& final(bus).log_view() == old(bus).log_view()
                &&& final(bus).keys_view() == old(bus).keys_view()
            },
            intent_for(old(self).intents_view(), idempotency_key@) is None ==> {
                &&& r is Proceed
                &&& final(self).orders_view().len() == old(self).orders_view().len() + 1
                &&& final(self).orders_view().drop_last() == old(self).orders_view()
                &&& final(self).orders_view().last().order_id@ == order_id@
                &&& final(self).orders_view().last().idempotency_key@ == idempotency_key@
                &&& final(self).orders_view().last().status is Pending
                &&& final(self).orders_view().last().quantity == quantity
                &&& final(self).orders_view().last().limit_price == Some(initial_price)
                &&& final(self).intents_view() == old(self).intents_view()
                &&& final(bus).log_view().len() == old(bus).log_view().len() + 1
                &&& final(bus).log_view().last().event_type == EventType::OrderIntentCreated
                &&& (final(bus).log_view().last().payload matches
                    EventPayload::OrderIntentCreated { order_id: oid, symbol: sym,
                        side: sd, quantity: q, .. }
                    && oid@ == order_id@ && sym@ == symbol@ && sd == side && q == quantity)
            },
    {
        let n = self.processed_intents.len();
        let mut i: usize = 0;
        while i < n
            invariant
                0 <= i <= n,
                n == self.intents_view().len(),
                self == old(self),
                old(self).inv(),
                bus == old(bus),
                old(bus).inv(),
                forall|j: int| 0 <= j < i
                    ==> (#[trigger] self.intents_view()[j].0)@ != idempotency_key@,
            decreases n - i,
        {
            if str_eq(self.processed_intents[i].0.as_str(), idempotency_key.as_str()) {
                proof {
                    lemma_intent_for_first(self.intents_view(), idempotency_key@, i as int);
                }
                return StartOutcome::Existing(clone_string(&self.processed_intents[i].1));
            }
            i = i + 1;
        }
        proof {
            lemma_intent_for_none(self.intents_view(), idempotency_key@);
        }
        let payload = EventPayload::OrderIntentCreated {
            order_id: clone_string(&order_id),
            symbol: clone_string(&symbol),
            side,
            quantity,
            intent_reason: String::from_str("strategy signal"),
        };
        let event = Event::new(EventType::OrderIntentCreated, payload, now_ms, nonce);
        match bus.publish(event) {
            Ok(_) => {},
            Err(_) => {},
        }
        let order = Order {
            order_id,
            broker_order_id: None,
            position_id: String::new(),
            symbol,
            side,
            order_type: OrderType::Limit,
            quantity,
            limit_price: Some(initial_price),
            fill_price: None,
            fill_quantity: 0,
            fill_time_ms: None,
            status: OrderStatus::Pending,
            attempts: 0,
            retry_count: 0,
            idempotency_key,
            created_at_ms: now_ms,
            updated_at_ms: now_ms,
        };
        self.orders.push(order);
        proof {
            assert(self.retry_steps() == old(self).retry_steps());
            assert forall|i2: int| 0 <= i2 < self.retry_steps().len()
                implies 0 <= #[trigger] self.retry_steps()[i2] <= 100_000 by {
                assert(0 <= old(self).retry_steps()[i2] <= 100_000);
            }
            assert forall|i: int, j: int| 0 <= i < j < self.orders@.len()
                implies (#[trigger] self.orders@[i]).order_id@
                    != (#[trigger] self.orders@[j]).order_id@ by {
                if j == self.orders@.len() - 1 {
                    if self.orders@[i].order_id@ == self.orders@[j].order_id@ {
                        assert(contains_order_id(old(self).orders_view(),
                            self.orders@[j].order_id@));
                    }
                }
            }
            assert(self.orders@.drop_last() =~= old(self).orders_view());
        }
        StartOutcome::Proceed
    }

    /// The limit price of attempt `attempt` (zero-based): the initial
    /// price walked up by the configured per-attempt percentage step.
    pub fn next_attempt_price(&self, initial_price: i64, attempt: usize) -> (r: i64)
        requires
            self.inv(),
            0 < initial_price <= MAX_PREMIUM,
        ensures
            attempt == 0 ==> r == initial_price,
            0 < r,
            ({
                let steps = self.retry_steps();
                attempt > 0 ==> r as int == (if attempt - 1 < steps.len() {
                    initial_price as int * (10_000 + steps[attempt - 1] as int) / 10_000
                } else {
                    initial_price as int
                })
            }),
    {
        if attempt == 0 {
            return initial_price;
        }
        if attempt - 1 < self.order_retry_steps_pct.len() {
            let step = self.order_retry_steps_pct[attempt - 1];
            proof {
                let p = initial_price as int;
                let f = 10_000 + step as int;
                assert(0 < p * f <= MAX_PREMIUM * 110_000) by (nonlinear_arith)
                    requires 0 < p <= MAX_PREMIUM, 10_000 <= f <= 110_000;
                vstd::arithmetic::div_mod::lemma_div_pos_is_pos(p * f, 10_000);
                vstd::arithmetic::div_mod::lemma_div_is_ordered(p * f,
                    (MAX_PREMIUM * 110_000) as int, 10_000);
                assert(p * 10_000 <= p * f) by (nonlinear_arith)
                    requires 0 < p, 10_000 <= f;
                assert(p <= p * f / 10_000) by {
                    vstd::arithmetic::div_mod::lemma_div_is_ordered(p * 10_000, p * f, 10_000);
                    assert(p * 10_000 == 10_000 * p) by (nonlinear_arith);
                    vstd::arithmetic::div_mod::lemma_div_multiples_vanish(p, 10_000);
                }
            }
            initial_price * (10_000 + step) / 10_000
        } else {
            initial_price
        }
    }

    /// The backoff before retry `attempt` (one-based), from the schedule,
    /// falling back to eight seconds past its end.
    pub fn backoff_for(&self, attempt: usize) -> (r: u64)
        ensures
            r == self.spec_backoff(attempt as int),
    {
        if attempt >= 1 && attempt - 1 < self.order_retry_backoffs_sec.len() {
            self.order_retry_backoffs_sec[attempt - 1]
        } else {
            8
        }
    }

    /// Record a failed placement attempt: on the final attempt the order
    /// becomes `Failed` (publishing `OrderFailed`) and the ladder gives
    /// up; otherwise a retry with the scheduled backoff is prescribed
    /// (publishing `OrderRetrying`).
    pub fn record_attempt_failure(&mut self, order_id: &str, attempt: u32, bus: &mut EventBus,
        now_ms: i64, nonce: String) -> (r: RetryDecision)
        requires
            old(self).inv(),
            old(bus).inv(),
            old(bus).log_view().len() < 999_999_000,
            !old(bus).spec_seen(event_key(EventType::OrderRetrying, nonce@)),
            !old(bus).spec_seen(event_key(EventType::OrderFailed, nonce@)),
        ensures
            final(self).inv(),
            final(bus).inv(),
            final(self).intents_view() == old(self).intents_view(),
            final(bus).keys_view() == old(bus).keys_view().push(
                event_key((if attempt >= old(self).max_retries() {
                    EventType::OrderFailed
                } else {
                    EventType::OrderRetrying
                }), nonce@)),
            r == (if attempt >= old(self).max_retries() {
                RetryDecision::GiveUp
            } else {
                RetryDecision::Retry(old(self).spec_backoff(attempt as int + 1))
            }),
            (exists|i: int| 0 <= i < old(self).orders_view().len()
                && (#[trigger] old(self).orders_view()[i]).order_id@ == order_id@)
                && attempt >= old(self).max_retries()
                ==> exists|i: int| 0 <= i < final(self).orders_view().len()
                    && (#[trigger] final(self).orders_view()[i]).order_id@ == order_id@
                    && final(self).orders_view()[i].status is Failed,
            final(bus).log_view().len() == old(bus).log_view().len() + 1,
            attempt < old(self).max_retries() ==> {
                &&& final(bus).log_view().last().event_type == EventType::OrderRetrying
                &&& (final(bus).log_view().last().payload matches
                    EventPayload::OrderRetrying { order_id: oid, attempt: a,
                        backoff_sec, .. }
                    && oid@ == order_id@ && a == attempt + 1
                    && backoff_sec == old(self).spec_backoff(attempt as int + 1))
            },
            attempt >= old(self).max_retries() ==> {
                &&& final(bus).log_view().last().event_type == EventType::OrderFailed
                &&& (final(bus).log_view().last().payload matches
                    EventPayload::OrderFailed { order_id: oid, retry_count, .. }
                    && oid@ == order_id@ && retry_count == attempt)
            },
    {
        let give_up = attempt >= self.order_max_retries;
        match self.find_order(order_id) {
            Some(idx) => {
                let mut order = self.orders.remove(idx);
                order.attempts = attempt;
                order.retry_count = attempt;
                order.updated_at_ms = now_ms;
                if give_up {
                    order.status = OrderStatus::Failed;
                }
                let ghost o = order;
                self.orders.insert(idx, order);
                proof {
                    assert(self.orders@ =~= old(self).orders_view().update(idx as int, o));
                    lemma_unique_update(old(self).orders_view(), idx as int, o);
                    assert(self.retry_steps() == old(self).retry_steps());
                    assert forall|i2: int| 0 <= i2 < self.retry_steps().len()
                        implies 0 <= #[trigger] self.retry_steps()[i2] <= 100_000 by {
                        assert(0 <= old(self).retry_steps()[i2] <= 100_000);
                    }

                    assert(self.orders@[idx as int].order_id@ == order_id@);
                }
            },
            None => {},
        }
        if give_up {
            let payload = EventPayload::OrderFailed {
                order_id: String::from_str(order_id),
                reason: String::from_str("placement failed"),
                retry_count: attempt,
            };
            let event = Event::new(EventType::OrderFailed, payload, now_ms, nonce);
            match bus.publish(event) {
                Ok(_) => {},
                Err(_) => {},
            }
            RetryDecision::GiveUp
        } else {
            let backoff = self.backoff_for(attempt as usize + 1);
            let payload = EventPayload::OrderRetrying {
                order_id: String::from_str(order_id),
                attempt: attempt + 1,
                max_retries: self.order_max_retries,
                backoff_sec: backoff,
            };
            let event = Event::new(EventType::OrderRetrying, payload, now_ms, nonce);
            match bus.publish(event) {
                Ok(_) => {},
                Err(_) => {},
            }
            RetryDecision::Retry(backoff)
        }
    }

    /// Record a successful placement at attempt `attempt`: the order
    /// becomes `Submitted` with its broker id and that attempt count,
    /// `OrderPlaced` is published, and the idempotency key now maps to
    /// the order id, so a replay of the same intent will not reach the
    /// broker again.
    pub fn record_attempt_success(&mut self, order_id: &str, broker_order_id: String,
        attempt: u32, bus: &mut EventBus, now_ms: i64, nonce: String) -> (r: Result<(),
        TradingError>)
        requires
            old(self).inv(),
            old(bus).inv(),
            old(bus).log_view().len() < 999_999_000,
            !old(bus).spec_seen(event_key(EventType::OrderPlaced, nonce@)),
        ensures
            final(self).inv(),
            final(bus).inv(),
            final(bus).keys_view() == old(bus).keys_view()
                || final(bus).keys_view() == old(bus).keys_view().push(
                    event_key(EventType::OrderPlaced, nonce@)),
            r is Ok <==> exists|i: int| 0 <= i < old(self).orders_view().len()
                && (#[trigger] old(self).orders_view()[i]).order_id@ == order_id@,
            r is Ok ==> exists|i: int| {
                &&& 0 <= i < old(self).orders_view().len()
                &&& (#[trigger] old(self).orders_view()[i]).order_id@ == order_id@
                &&& final(self).orders_view() == old(self).orders_view().update(i, (Order {
                        broker_order_id: Some(broker_order_id),
                        status: OrderStatus::Submitted,
                        attempts: attempt,
                        retry_count: attempt,
                        updated_at_ms: now_ms,
                        ..old(self).orders_view()[i]
                    }))
                &&& final(self).intents_view() == old(self).intents_view().push((
                        old(self).orders_view()[i].idempotency_key,
                        old(self).orders_view()[i].order_id))
                &&& final(bus).log_view().len() == old(bus).log_view().len() + 1
                &&& final(bus).log_view().last().event_type == EventType::OrderPlaced
                &&& (final(bus).log_view().last().payload matches
                    EventPayload::OrderPlaced { order_id: oid, broker_order_id: bid,
                        symbol: sym, quantity: q, .. }
                    && oid@ == order_id@ && bid == broker_order_id
                    && sym == old(self).orders_view()[i].symbol
                    && q == old(self).orders_view()[i].quantity)
            },
            r is Err ==> final(self).orders_view() == old(self).orders_view()
                && final(self).intents_view() == old(self).intents_view()
                && final(bus).log_view() == old(bus).log_view(),
    {
        match self.find_order(order_id) {
            Some(idx) => {
                let mut order = self.orders.remove(idx);
                let placed_payload = EventPayload::OrderPlaced {
                    order_id: clone_string(&order.order_id),
                    broker_order_id: clone_string(&broker_order_id),
                    symbol: clone_string(&order.symbol),
                    quantity: order.quantity,
                    price: match order.limit_price {
                        Some(p) => p,
                        None => 0,
                    },
                };
                order.broker_order_id = Some(broker_order_id);
                order.status = OrderStatus::Submitted;
                order.attempts = attempt;
                order.retry_count = attempt;
                order.updated_at_ms = now_ms;
                let key = clone_string(&order.idempotency_key);
                let oid = clone_string(&order.order_id);
                let ghost o = order;
                self.orders.insert(idx, order);
                self.processed_intents.push((key, oid));
                let event = Event::new(EventType::OrderPlaced, placed_payload, now_ms, nonce);
                match bus.publish(event) {
                    Ok(_) => {},
                    Err(_) => {},
                }
                proof {
                    assert(self.orders@ =~= old(self).orders_view().update(idx as int, o));
                    lemma_unique_update(old(self).orders_view(), idx as int, o);
                    assert(self.retry_steps() == old(self).retry_steps());
                    assert forall|i2: int| 0 <= i2 < self.retry_steps().len()
                        implies 0 <= #[trigger] self.retry_steps()[i2] <= 100_000 by {
                        assert(0 <= old(self).retry_steps()[i2] <= 100_000);
                    }

                    assert(self.orders@[idx as int].order_id@ == order_id@);
                    assert(self.processed_intents@.last().1@ == order_id@);
                    assert(o == (Order {
                        broker_order_id: Some(broker_order_id),
                        status: OrderStatus::Submitted,
                        attempts: attempt,
                        retry_count: attempt,
                        updated_at_ms: now_ms,
                        ..old(self).orders_view()[idx as int]
                    }));
                    assert(self.processed_intents@ =~= old(self).intents_view().push((
                        old(self).orders_view()[idx as int].idempotency_key,
                        old(self).orders_view()[idx as int].order_id)));
                }
                Ok(())
            },
            None => Err(TradingError::OrderNotFound(String::from_str(order_id))),
        }
    }

    /// Record a fill: `Filled` when the whole quantity filled, otherwise
    /// `PartiallyFilled`; `OrderExecuted` is published.
    pub fn mark_executed(&mut self, order_id: &str, fill_price: i64, fill_quantity: i64,
        bus: &mut EventBus, now_ms: i64, nonce: String) -> (r: Result<(), TradingError>)
        requires
            old(self).inv(),
            old(bus).inv(),
            old(bus).log_view().len() < 999_999_000,
            !old(bus).spec_seen(event_key(EventType::OrderExecuted, nonce@)),
        ensures
            final(self).inv(),
            final(bus).inv(),
            final(self).intents_view() == old(self).intents_view(),
            final(bus).keys_view() == old(bus).keys_view()
                || final(bus).keys_view() == old(bus).keys_view().push(
                    event_key(EventType::OrderExecuted, nonce@)),
            r is Ok ==> final(bus).log_view().len() == old(bus).log_view().len() + 1
                && final(bus).log_view().last().event_type == EventType::OrderExecuted
                && (final(bus).log_view().last().payload matches
                    EventPayload::OrderExecuted { order_id: oid, fill_price: fp,
                        fill_quantity: fq, .. }
                    && oid@ == order_id@ && fp == fill_price && fq == fill_quantity),
            r is Err ==> final(bus).log_view() == old(bus).log_view()
                && final(self).orders_view() == old(self).orders_view(),
            r is Ok <==> exists|i: int| 0 <= i < old(self).orders_view().len()
                && (#[trigger] old(self).orders_view()[i]).order_id@ == order_id@,
            r is Ok ==> exists|i: int| {
                &&& 0 <= i < old(self).orders_view().len()
                &&& (#[trigger] old(self).orders_view()[i]).order_id@ == order_id@
                &&& final(self).orders_view() == old(self).orders_view().update(i, (Order {
                        fill_price: Some(fill_price),
                        fill_quantity: fill_quantity,
                        fill_time_ms: Some(now_ms),
                        status: (if fill_quantity >= old(self).orders_view()[i].quantity {
                            OrderStatus::Filled
                        } else {
                            OrderStatus::PartiallyFilled
                        }),
                        updated_at_ms: now_ms,
                        ..old(self).orders_view()[i]
                    }))
            },
    {
        match self.find_order(order_id) {
            Some(idx) => {
                let mut order = self.orders.remove(idx);
                order.fill_price = Some(fill_price);
                order.fill_quantity = fill_quantity;
                order.fill_time_ms = Some(now_ms);
                order.status = if fill_quantity >= order.quantity {
                    OrderStatus::Filled
                } else {
                    OrderStatus::PartiallyFilled
                };
                order.updated_at_ms = now_ms;
                let executed_payload = EventPayload::OrderExecuted {
                    order_id: clone_string(&order.order_id),
                    broker_order_id: match &order.broker_order_id {
                        Some(b) => clone_string(b),
                        None => String::new(),
                    },
                    fill_price,
                    fill_quantity,
                    fill_time_ms: now_ms,
                };
                let event = Event::new(EventType::OrderExecuted, executed_payload, now_ms,
                    nonce);
                match bus.publish(event) {
                    Ok(_) => {},
                    Err(_) => {},
                }
                let ghost o = order;
                self.orders.insert(idx, order);
                proof {
                    assert(self.orders@ =~= old(self).orders_view().update(idx as int, o));
                    lemma_unique_update(old(self).orders_view(), idx as int, o);
                    assert(self.retry_steps() == old(self).retry_steps());
                    assert forall|i2: int| 0 <= i2 < self.retry_steps().len()
                        implies 0 <= #[trigger] self.retry_steps()[i2] <= 100_000 by {
                        assert(0 <= old(self).retry_steps()[i2] <= 100_000);
                    }

                    assert(self.orders@[idx as int].order_id@ == order_id@);
                    assert(o == (Order {
                        fill_price: Some(fill_price),
                        fill_quantity: fill_quantity,
                        fill_time_ms: Some(now_ms),
                        status: (if fill_quantity
                            >= old(self).orders_view()[idx as int].quantity {
                            OrderStatus::Filled
                        } else {
                            OrderStatus::PartiallyFilled
                        }),
                        updated_at_ms: now_ms,
                        ..old(self).orders_view()[idx as int]
                    }));
                }
                Ok(())
            },
            None => Err(TradingError::OrderNotFound(String::from_str(order_id))),
        }
    }

    /// Copy of a tracked order.
    pub fn get_order(&self, order_id: &str) -> (r: Option<Order>)
        requires
            self.inv(),
        ensures
            match r {
                Some(o) => exists|i: int| 0 <= i < self.orders_view().len()
                    && (#[trigger] self.orders_view()[i]).order_id@ == order_id@
                    && o == self.orders_view()[i],
                None => forall|i: int| 0 <= i < self.orders_view().len()
                    ==> (#[trigger] self.orders_view()[i]).order_id@ != order_id@,
            },
    {
        match self.find_order(order_id) {
            Some(i) => Some(clone_order(&self.orders[i])),
            None => None,
        }
    }

    /// Copies of all orders that are not yet terminal: exactly the
    /// active ones, oldest first.
    pub fn get_active_orders(&self) -> (r: Vec<Order>)
        requires
            self.inv(),
        ensures
            r@ == self.orders_view().filter(active_order()),
    {
        let mut out: Vec<Order> = Vec::new();
        let mut i: usize = 0;
        proof {
            reveal_with_fuel(Seq::<Order>::filter, 2);
            assert(self.orders_view().take(0).filter(active_order())
                =~= Seq::<Order>::empty());
        }
        while i < self.orders.len()
            invariant
                0 <= i <= self.orders_view().len(),
                out@ == self.orders_view().take(i as int).filter(active_order()),
            decreases self.orders_view().len() - i,
        {
            let st = self.orders[i].status;
            proof {
                reveal_with_fuel(Seq::<Order>::filter, 2);
                let t = self.orders_view().take(i as int + 1);
                assert(t.drop_last() =~= self.orders_view().take(i as int));
                assert(t.last() == self.orders_view()[i as int]);
                assert(t.filter(active_order()) == (if active_order()(t.last()) {
                    t.drop_last().filter(active_order()).push(t.last())
                } else {
                    t.drop_last().filter(active_order())
                }));
            }
            if matches!(st, OrderStatus::Pending | OrderStatus::Submitted
                | OrderStatus::PartiallyFilled) {
                out.push(clone_order(&self.orders[i]));
            }
            i = i + 1;
        }
        proof {
            assert(self.orders_view().take(self.orders_view().len() as int)
                =~= self.orders_view());
        }
        out
    }

    /// Drop every terminal order.
    pub fn clear_completed_orders(&mut self)
        requires
            old(self).inv(),
        ensures
            final(self).inv(),
            final(self).intents_view() == old(self).intents_view(),
            forall|j: int| 0 <= j < final(self).orders_view().len()
                ==> is_active(#[trigger] final(self).orders_view()[j].status),
    {
        let mut kept: Vec<Order> = Vec::new();
        let n = self.orders.len();
        let mut i: usize = 0;
        while i < n
            invariant
                0 <= i <= n,
                n == self.orders_view().len(),
                old(self).inv(),
                self == old(self),
                kept@.len() <= i,
                forall|j: int| 0 <= j < kept@.len() ==> is_active(#[trigger] kept@[j].status),
                forall|j: int, k: int| 0 <= j < k < kept@.len()
                    ==> (#[trigger] kept@[j]).order_id@ != (#[trigger] kept@[k]).order_id@,
                forall|j: int| 0 <= j < kept@.len() ==> exists|m: int|
                    0 <= m < i && (#[trigger] kept@[j]).order_id@
                        == old(self).orders_view()[m].order_id@,
            decreases n - i,
        {
            let st = self.orders[i].status;
            if matches!(st, OrderStatus::Pending | OrderStatus::Submitted
                | OrderStatus::PartiallyFilled) {
                proof {
                    assert forall|j: int| 0 <= j < kept@.len()
                        implies (#[trigger] kept@[j]).order_id@
                            != old(self).orders_view()[i as int].order_id@ by {
                        let m = choose|m: int| 0 <= m < i
                            && (#[trigger] kept@[j]).order_id@
                                == old(self).orders_view()[m].order_id@;
                        assert(old(self).orders_view()[m].order_id@
                            != old(self).orders_view()[i as int].order_id@);
                    }
                }
                kept.push(clone_order(&self.orders[i]));
            }
            i = i + 1;
        }
        self.orders = kept;
        proof {
            assert(self.retry_steps() == old(self).retry_steps());
            assert forall|i2: int| 0 <= i2 < self.retry_steps().len()
                implies 0 <= #[trigger] self.retry_steps()[i2] <= 100_000 by {
                assert(0 <= old(self).retry_steps()[i2] <= 100_000);
            }
        }
    }
}


/// An order that is still working at the broker.
pub open spec fn is_active(st: OrderStatus) -> bool {
    st is Pending || st is Submitted || st is PartiallyFilled
}

/// The active-order test as a value, for sequence filtering.
pub open spec fn active_order() -> spec_fn(Order) -> bool {
    |o: Order| is_active(o.status)
}

/// Some tracked order carries this id.
pub open spec fn contains_order_id(os: Seq<Order>, id: Seq<char>) -> bool {
    exists|i: int| 0 <= i < os.len() && (#[trigger] os[i]).order_id@ == id
}

/// Field-for-field copy of an order.
pub fn clone_order(o: &Order) -> (r: Order)
    ensures
        r == *o,
{
    Order {
        order_id: clone_string(&o.order_id),
        broker_order_id: match &o.broker_order_id {
            Some(s) => Some(clone_string(s)),
            None => None,
        },
        position_id: clone_string(&o.position_id),
        symbol: clone_string(&o.symbol),
        side: o.side,
        order_type: o.order_type,
        quantity: o.quantity,
        limit_price: o.limit_price,
        fill_price: o.fill_price,
        fill_quantity: o.fill_quantity,
        fill_time_ms: o.fill_time_ms,
        status: o.status,
        attempts: o.attempts,
        retry_count: o.retry_count,
        idempotency_key: clone_string(&o.idempotency_key),
        created_at_ms: o.created_at_ms,
        updated_at_ms: o.updated_at_ms,
    }
}

/// Replaying an intent whose key is already recorded returns the same
/// order id and leaves the manager untouched: the broker is called at
/// most once per idempotency key.
pub proof fn lemma_replay_returns_recorded_id(intents: Seq<(String, String)>, key: Seq<char>,
    oid: Seq<char>, entry: (String, String))
    requires
        intent_for(intents, key) == Some(oid),
    ensures
        intent_for(intents.push(entry), key) == Some(oid),
{
    lemma_intent_for_push(intents, key, entry);
}

/// Pre-order validation (the nine checks of the specification).
pub struct OrderValidator {
    config: Config,
}

impl OrderValidator {
    pub closed spec fn cfg(&self) -> Config {
        self.config
    }

    pub open spec fn inv(&self) -> bool {
        self.cfg().valid()
    }

    pub fn new(config: Config) -> (r: OrderValidator)
        requires
            config.valid(),
        ensures
            r.inv(),
    {
        OrderValidator { config }
    }

    /// Check 1: quantity within the underlying's freeze limit.
    pub fn check_freeze_quantity(&self, quantity: i64, underlying: &str) -> (r: Result<(),
        TradingError>)
        requires
            self.inv(),
        ensures
            r is Ok <==> quantity as int <= spec_freeze_limit(self.cfg(), underlying@),
            r matches Err(e) ==> e is FreezeQuantityBreach,
    {
        let freeze_limit = self.config.get_freeze_quantity(underlying);
        if quantity > freeze_limit {
            Err(TradingError::FreezeQuantityBreach(String::from_str(
                "quantity exceeds freeze limit")))
        } else {
            Ok(())
        }
    }

    /// Check 2: quantity is a multiple of the lot size.
    pub fn check_lot_size(&self, quantity: i64, lot_size: i64) -> (r: Result<(), TradingError>)
        requires
            0 <= quantity,
            0 < lot_size,
        ensures
            r is Ok <==> quantity % lot_size == 0,
            r matches Err(e) ==> e is InvalidParameter,
    {
        if quantity % lot_size != 0 {
            Err(TradingError::InvalidParameter(String::from_str(
                "quantity is not a multiple of lot size")))
        } else {
            Ok(())
        }
    }

    /// Check 3: price is a multiple of the tick size.
    pub fn check_tick_size(&self, price: i64, tick_size: i64) -> (r: Result<(), TradingError>)
        requires
            0 <= price,
            0 < tick_size,
        ensures
            r is Ok <==> price % tick_size == 0,
            r matches Err(e) ==> e is InvalidParameter,
    {
        if price % tick_size != 0 {
            Err(TradingError::InvalidParameter(String::from_str(
                "price is not a multiple of tick size")))
        } else {
            Ok(())
        }
    }

    /// Check 4: price inside the band around the instrument's reference
    /// (its strike).
    pub fn check_price_bands(&self, price: i64, instrument: &Instrument) -> (r: Result<(),
        TradingError>)
        requires
            self.inv(),
            0 <= price <= MAX_PREMIUM,
            0 <= instrument.strike <= crate::types::MAX_PRICE,
        ensures
            r is Ok <==> spec_in_price_band(price as int, instrument.strike as int,
                self.cfg().price_band_pct as int),
            r matches Err(e) ==> e is PriceBandBreach,
    {
        let reference = instrument.strike;
        proof {
            assert(0 <= reference as int * (self.cfg().price_band_pct as int)
                <= crate::types::MAX_PRICE * 1_000_000) by (nonlinear_arith)
                requires 0 <= reference as int <= crate::types::MAX_PRICE,
                    0 <= self.cfg().price_band_pct as int <= 1_000_000;
            vstd::arithmetic::div_mod::lemma_div_pos_is_pos(
                reference as int * (self.cfg().price_band_pct as int), 10_000);
            vstd::arithmetic::div_mod::lemma_div_is_ordered(
                reference as int * (self.cfg().price_band_pct as int),
                (crate::types::MAX_PRICE * 1_000_000) as int, 10_000);
        }
        let max_deviation = reference * self.config.price_band_pct / 10_000;
        let upper = reference + max_deviation;
        let lower_raw = reference - max_deviation;
        let lower = if lower_raw >= 0 { lower_raw } else { 0 };
        if price > upper || price < lower {
            Err(TradingError::PriceBandBreach(String::from_str("price outside bands")))
        } else {
            Ok(())
        }
    }

    /// Check 5: premium plus margin within the account balance.
    pub fn check_margin(&self, quantity: i64, price: i64, account_balance: i64) -> (r: Result<
        (), TradingError>)
        requires
            0 < quantity <= MAX_QUANTITY,
            0 <= price <= MAX_PREMIUM,
        ensures
            r is Ok <==> spec_margin_ok(quantity as int, price as int, account_balance as int),
            r matches Err(e) ==> e is InsufficientMargin,
    {
        proof {
            assert(0 <= quantity as int * price <= MAX_QUANTITY * MAX_PREMIUM)
                by (nonlinear_arith)
                requires 0 < quantity <= MAX_QUANTITY, 0 <= price <= MAX_PREMIUM;
            vstd::arithmetic::div_mod::lemma_div_pos_is_pos(
                quantity as int * price * 20, 100);
            vstd::arithmetic::div_mod::lemma_div_is_ordered(quantity as int * price * 20,
                (MAX_QUANTITY * MAX_PREMIUM * 20) as int, 100);
            assert(0 <= quantity as int * price * 20 <= MAX_QUANTITY * MAX_PREMIUM * 20)
                by (nonlinear_arith)
                requires 0 <= quantity as int * price <= MAX_QUANTITY * MAX_PREMIUM;
        }
        let premium = quantity * price;
        let margin_required = premium * 20 / 100;
        let total_required = premium + margin_required;
        if total_required > account_balance {
            Err(TradingError::InsufficientMargin(String::from_str("margin shortfall")))
        } else {
            Ok(())
        }
    }

    /// Check 6: symbol matches the instrument record.
    pub fn check_symbol_validity(&self, symbol: &str, instrument: &Instrument) -> (r: Result<
        (), TradingError>)
        ensures
            r is Ok <==> symbol@ == instrument.symbol@,
            r matches Err(e) ==> e is InvalidParameter,
    {
        if !str_eq(symbol, instrument.symbol.as_str()) {
            Err(TradingError::InvalidParameter(String::from_str("symbol mismatch")))
        } else {
            Ok(())
        }
    }

    /// Check 7: the market is open.
    pub fn check_market_hours(&self, now_ms: i64) -> (r: Result<(), TradingError>)
        requires
            0 <= now_ms <= MAX_TS_MS,
        ensures
            r is Ok <==> spec_is_market_open(now_ms as int),
            r matches Err(e) ==> e is MarketClosed,
    {
        if !is_market_open(now_ms) {
            Err(TradingError::MarketClosed(String::from_str("market is closed")))
        } else {
            Ok(())
        }
    }

    /// Check 8: positive quantity.
    pub fn check_positive_quantity(&self, quantity: i64) -> (r: Result<(), TradingError>)
        ensures
            r is Ok <==> quantity > 0,
            r matches Err(e) ==> e is InvalidParameter,
    {
        if quantity <= 0 {
            Err(TradingError::InvalidParameter(String::from_str("quantity must be positive")))
        } else {
            Ok(())
        }
    }

    /// Check 9: positive price.
    pub fn check_positive_price(&self, price: i64) -> (r: Result<(), TradingError>)
        ensures
            r is Ok <==> price > 0,
            r matches Err(e) ==> e is InvalidParameter,
    {
        if price <= 0 {
            Err(TradingError::InvalidParameter(String::from_str("price must be positive")))
        } else {
            Ok(())
        }
    }

    /// All nine checks in order, stopping at the first failure.
    pub fn validate_order(&self, symbol: &str, quantity: i64, price: i64, _side: Side,
        instrument: &Instrument, account_balance: i64, now_ms: i64) -> (r: Result<(),
        TradingError>)
        requires
            self.inv(),
            0 < instrument.lotsize,
            0 < instrument.tick_size,
            0 <= instrument.strike <= crate::types::MAX_PRICE,
            0 < quantity <= MAX_QUANTITY,
            0 <= price <= MAX_PREMIUM,
            0 <= now_ms <= MAX_TS_MS,
        ensures
            r is Ok <==> {
                &&& quantity as int <= spec_freeze_limit(self.cfg(), instrument.name@)
                &&& quantity % instrument.lotsize == 0
                &&& price % instrument.tick_size == 0
                &&& spec_in_price_band(price as int, instrument.strike as int,
                    self.cfg().price_band_pct as int)
                &&& spec_margin_ok(quantity as int, price as int, account_balance as int)
                &&& symbol@ == instrument.symbol@
                &&& spec_is_market_open(now_ms as int)
                &&& quantity > 0
                &&& price > 0
            },
            // The error names the first failing check, in order.
            r matches Err(e) ==> (quantity as int > spec_freeze_limit(self.cfg(),
                instrument.name@) ==> e is FreezeQuantityBreach),
            r matches Err(e) ==> (quantity as int <= spec_freeze_limit(self.cfg(),
                instrument.name@) && quantity % instrument.lotsize != 0
                ==> e is InvalidParameter),
            r matches Err(e) ==> (quantity as int <= spec_freeze_limit(self.cfg(),
                instrument.name@) && quantity % instrument.lotsize == 0
                && price % instrument.tick_size != 0 ==> e is InvalidParameter),
            r matches Err(e) ==> (quantity as int <= spec_freeze_limit(self.cfg(),
                instrument.name@) && quantity % instrument.lotsize == 0
                && price % instrument.tick_size == 0
                && !spec_in_price_band(price as int, instrument.strike as int,
                    self.cfg().price_band_pct as int) ==> e is PriceBandBreach),
            r matches Err(e) ==> (quantity as int <= spec_freeze_limit(self.cfg(),
                instrument.name@) && quantity % instrument.lotsize == 0
                && price % instrument.tick_size == 0
                && spec_in_price_band(price as int, instrument.strike as int,
                    self.cfg().price_band_pct as int)
                && !spec_margin_ok(quantity as int, price as int, account_balance as int)
                ==> e is InsufficientMargin),
            r matches Err(e) ==> (quantity as int <= spec_freeze_limit(self.cfg(),
                instrument.name@) && quantity % instrument.lotsize == 0
                && price % instrument.tick_size == 0
                && spec_in_price_band(price as int, instrument.strike as int,
                    self.cfg().price_band_pct as int)
                && spec_margin_ok(quantity as int, price as int, account_balance as int)
                && symbol@ != instrument.symbol@ ==> e is InvalidParameter),
            r matches Err(e) ==> (quantity as int <= spec_freeze_limit(self.cfg(),
                instrument.name@) && quantity % instrument.lotsize == 0
                && price % instrument.tick_size == 0
                && spec_in_price_band(price as int, instrument.strike as int,
                    self.cfg().price_band_pct as int)
                && spec_margin_ok(quantity as int, price as int, account_balance as int)
                && symbol@ == instrument.symbol@
                && !spec_is_market_open(now_ms as int) ==> e is MarketClosed),
    {
        match self.check_freeze_quantity(quantity, instrument.name.as_str()) {
            Ok(_) => {},
            Err(e) => { return Err(e); },
        }
        match self.check_lot_size(quantity, instrument.lotsize) {
            Ok(_) => {},
            Err(e) => { return Err(e); },
        }
        match self.check_tick_size(price, instrument.tick_size) {
            Ok(_) => {},
            Err(e) => { return Err(e); },
        }
        match self.check_price_bands(price, instrument) {
            Ok(_) => {},
            Err(e) => { return Err(e); },
        }
        match self.check_margin(quantity, price, account_balance) {
            Ok(_) => {},
            Err(e) => { return Err(e); },
        }
        match self.check_symbol_validity(symbol, instrument) {
            Ok(_) => {},
            Err(e) => { return Err(e); },
        }
        match self.check_market_hours(now_ms) {
            Ok(_) => {},
            Err(e) => { return Err(e); },
        }
        match self.check_positive_quantity(quantity) {
            Ok(_) => {},
            Err(e) => { return Err(e); },
        }
        match self.check_positive_price(price) {
            Ok(_) => {},
            Err(e) => { return Err(e); },
        }
        Ok(())
    }
}

/// The freeze limit the configuration assigns to an underlying.
pub open spec fn spec_freeze_limit(c: Config, underlying: Seq<char>) -> int {
    if underlying == "BANKNIFTY"@ {
        c.freeze_quantity.banknifty as int
    } else if underlying == "FINNIFTY"@ {
        c.freeze_quantity.finnifty as int
    } else if underlying == "NIFTY"@ {
        c.freeze_quantity.nifty as int
    } else {
        36_000
    }
}

/// Price within plus or minus the band around the reference, floored at
/// zero.
pub open spec fn spec_in_price_band(price: int, reference: int, band_bp: int) -> bool {
    let dev = reference * band_bp / 10_000;
    let lower = if reference - dev >= 0 { reference - dev } else { 0 };
    lower <= price <= reference + dev
}

/// Premium plus a twenty-percent margin within the balance.
pub open spec fn spec_margin_ok(quantity: int, price: int, balance: int) -> bool {
    let premium = quantity * price;
    premium + premium * 20 / 100 <= balance
}

} // verus!
