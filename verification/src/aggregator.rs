//! Tick-to-bar aggregation at timeframe boundaries.
//!
//! Each aggregator folds ticks into a partial bar keyed by its boundary
//! timestamp; when a tick lands past the boundary, the partial bar is
//! completed, appended to the store, a `BarReady` event is published, and
//! a fresh partial opens from that tick.

use vstd::prelude::*;
use vstd::string::StringExecFns;
use crate::types::{Bar, Tick, MAX_PRICE, MAX_VOLUME};
use crate::timeutil::{Timeframe, MAX_TS_MS};
use crate::store::{HybridBarStore, clone_string};
use crate::bus::EventBus;
use crate::events::{Event, EventType, EventPayload};
use crate::error::TradingError;

verus! {

/// Tick counts saturate at a cap no session can reach.
pub open spec fn spec_bump_count(c: int) -> int {
    if c < 1_000_000_000 { c + 1 } else { c }
}

/// A bar still being built.
#[derive(Debug, Clone, Copy, PartialEq, Eq, Structural)]
pub struct PartialBar {
    pub timestamp_ms: i64,
    pub open: i64,
    pub high: i64,
    pub low: i64,
    pub close: i64,
    pub volume: i64,
    pub tick_count: usize,
}

impl PartialBar {
    pub open spec fn well_formed(self) -> bool {
        &&& 0 <= self.low <= self.open <= self.high <= MAX_PRICE
        &&& self.low <= self.close <= self.high
        &&& 0 <= self.volume <= MAX_VOLUME
        &&& 0 <= self.timestamp_ms
        &&& self.tick_count <= 1_000_000_000
    }

    /// Open a partial bar from the first tick of an interval.
    pub fn new(timestamp_ms: i64, price: i64, volume: i64) -> (r: PartialBar)
        requires
            0 <= price <= MAX_PRICE,
            0 <= volume <= MAX_VOLUME,
            0 <= timestamp_ms,
        ensures
            r == (PartialBar {
                timestamp_ms,
                open: price,
                high: price,
                low: price,
                close: price,
                volume,
                tick_count: 1,
            }),
            r.well_formed(),
    {
        PartialBar {
            timestamp_ms,
            open: price,
            high: price,
            low: price,
            close: price,
            volume,
            tick_count: 1,
        }
    }

    /// Fold one more tick of the same interval into the bar.
    pub fn update(&mut self, price: i64, volume: i64)
        requires
            old(self).well_formed(),
            old(self).volume + volume <= MAX_VOLUME,
            0 <= price <= MAX_PRICE,
            0 <= volume,
        ensures
            final(self).close == price,
            final(self).high == (if price >= old(self).high { price } else { old(self).high }),
            final(self).low == (if price <= old(self).low { price } else { old(self).low }),
            final(self).volume == old(self).volume + volume,
            final(self).tick_count == spec_bump_count(old(self).tick_count as int),
            final(self).open == old(self).open,
            final(self).timestamp_ms == old(self).timestamp_ms,
            final(self).well_formed(),
    {
        self.close = price;
        if price > self.high {
            self.high = price;
        }
        if price < self.low {
            self.low = price;
        }
        self.volume = self.volume + volume;
        if self.tick_count < 1_000_000_000 {
            self.tick_count = self.tick_count + 1;
        }
    }

    /// The bar this partial stands for.
    pub open spec fn spec_to_bar(self, complete: bool) -> Bar {
        Bar {
            timestamp_ms: self.timestamp_ms,
            open: self.open,
            high: self.high,
            low: self.low,
            close: self.close,
            volume: self.volume,
            bar_complete: complete,
        }
    }

    pub fn to_bar(&self, complete: bool) -> (r: Bar)
        ensures
            r == self.spec_to_bar(complete),
    {
        Bar {
            timestamp_ms: self.timestamp_ms,
            open: self.open,
            high: self.high,
            low: self.low,
            close: self.close,
            volume: self.volume,
            bar_complete: complete,
        }
    }
}

/// What one tick did to the aggregator.
#[derive(Debug, Clone, Copy, PartialEq, Eq, Structural)]
pub enum TickOutcome {
    /// The first tick of a session opened a partial bar.
    StartedFirst,
    /// The tick folded into the current partial bar.
    Updated,
    /// The tick crossed a boundary: this bar was completed, and a new
    /// partial opened from the tick.
    Completed(Bar),
}

/// One (symbol, timeframe) aggregator.
pub struct BarAggregator {
    symbol: String,
    timeframe: Timeframe,
    current_bar: Option<PartialBar>,
    last_tick_ms: Option<i64>,
}

impl BarAggregator {
    pub closed spec fn partial(&self) -> Option<PartialBar> {
        self.current_bar
    }

    pub closed spec fn sym(&self) -> Seq<char> {
        self.symbol@
    }

    pub closed spec fn tf(&self) -> Timeframe {
        self.timeframe
    }

    pub closed spec fn last_tick(&self) -> Option<i64> {
        self.last_tick_ms
    }

    pub open spec fn inv(&self) -> bool {
        &&& (match self.partial() {
            Some(pb) => pb.well_formed(),
            None => true,
        })
        &&& (match self.last_tick() {
            Some(t) => 0 <= t <= MAX_TS_MS,
            None => true,
        })
    }

    pub fn new(symbol: String, timeframe: Timeframe) -> (r: BarAggregator)
        ensures
            r.inv(),
            r.partial() is None,
            r.sym() == symbol@,
            r.tf() == timeframe,
            r.last_tick() is None,
    {
        BarAggregator { symbol, timeframe, current_bar: None, last_tick_ms: None }
    }

    /// Fold one tick: open a partial bar on the first tick, update it
    /// within an interval, and on a boundary crossing publish `BarReady`
    /// and append the completed bar atomically before opening a new
    /// partial from this tick.  The caller supplies a fresh nonce, so the
    /// publish cannot be rejected and a bar can never be appended twice.
    pub fn process_tick(&mut self, store: &mut HybridBarStore, bus: &mut EventBus, tick: &Tick,
        nonce: String) -> (r: Result<TickOutcome, TradingError>)
        requires
            old(self).inv(),
            old(store).inv(),
            old(bus).inv(),
            tick.well_formed(),
            86_400_000 <= tick.timestamp_ms <= MAX_TS_MS,
            old(store).series().len() < 1_000_000,
            old(bus).log_view().len() < 1_000_000,
            !old(bus).spec_seen(crate::events::event_key(EventType::BarReady, nonce@)),
        ensures
            final(self).inv(),
            final(store).inv(),
            final(bus).inv(),
            r is Ok,
            final(self).last_tick() == Some(tick.timestamp_ms),
            final(bus).keys_view() == old(bus).keys_view()
                || final(bus).keys_view() == old(bus).keys_view().push(
                    crate::events::event_key(EventType::BarReady, nonce@)),
            ({
                let b = old(self).tf().spec_bar_boundary(tick.timestamp_ms as int);
                &&& (old(self).partial() is None ==> {
                    &&& r == Ok::<TickOutcome, TradingError>(TickOutcome::StartedFirst)
                    &&& final(self).partial() == Some(PartialBar {
                        timestamp_ms: b as i64,
                        open: tick.ltp,
                        high: tick.ltp,
                        low: tick.ltp,
                        close: tick.ltp,
                        volume: tick.volume,
                        tick_count: 1,
                    })
                    &&& final(store).series() == old(store).series()
                    &&& final(bus).log_view() == old(bus).log_view()
                })
                &&& (old(self).partial() matches Some(pb) ==> {
                    &&& (pb.timestamp_ms == b ==> {
                        &&& r == Ok::<TickOutcome, TradingError>(TickOutcome::Updated)
                        &&& final(self).partial() matches Some(pb2)
                            && pb2.timestamp_ms == pb.timestamp_ms
                            && pb2.open == pb.open
                            && pb2.close == tick.ltp
                            && pb2.high == (if tick.ltp >= pb.high { tick.ltp } else { pb.high })
                            && pb2.low == (if tick.ltp <= pb.low { tick.ltp } else { pb.low })
                            && pb2.volume == (if pb.volume + tick.volume <= MAX_VOLUME {
                                pb.volume + tick.volume
                            } else {
                                MAX_VOLUME as int
                            })
                            && pb2.tick_count == spec_bump_count(pb.tick_count as int)
                        &&& final(store).series() == old(store).series()
                        &&& final(bus).log_view() == old(bus).log_view()
                    })
                    &&& (pb.timestamp_ms != b ==> {
                        let completed = pb.spec_to_bar(true);
                        &&& r == Ok::<TickOutcome, TradingError>(TickOutcome::Completed(
                            completed))
                        &&& final(store).series() == old(store).series().push(completed)
                        &&& final(self).partial() == Some(PartialBar {
                            timestamp_ms: b as i64,
                            open: tick.ltp,
                            high: tick.ltp,
                            low: tick.ltp,
                            close: tick.ltp,
                            volume: tick.volume,
                            tick_count: 1,
                        })
                        &&& final(bus).log_view().len() == old(bus).log_view().len() + 1
                        &&& final(bus).log_view().last().event_type == EventType::BarReady
                        &&& (final(bus).log_view().last().payload matches
                            EventPayload::BarReady { symbol, timeframe, bar_time_ms,
                                bar_complete }
                            && symbol@ == old(self).sym()
                            && timeframe@ == (match old(self).tf() {
                                Timeframe::OneMinute => "1m"@,
                                Timeframe::FiveMinute => "5m"@,
                                Timeframe::FifteenMinute => "15m"@,
                                Timeframe::OneHour => "1h"@,
                                Timeframe::OneDay => "1d"@,
                            })
                            && bar_time_ms == pb.timestamp_ms && bar_complete)
                    })
                })
            }),
    {
        let bar_boundary = self.timeframe.get_bar_boundary(tick.timestamp_ms);
        match self.current_bar {
            None => {
                self.current_bar = Some(PartialBar::new(bar_boundary, tick.ltp, tick.volume));
                self.last_tick_ms = Some(tick.timestamp_ms);
                Ok(TickOutcome::StartedFirst)
            },
            Some(pb) => {
                if pb.timestamp_ms == bar_boundary {
                    let mut pb2 = pb;
                    proof {
                        assert(pb.volume + tick.volume <= 2 * MAX_VOLUME);
                    }
                    if pb2.volume + tick.volume > MAX_VOLUME {
                        // A session cannot trade more than the volume cap;
                        // clamp to keep the bar well formed.
                        pb2.update(tick.ltp, MAX_VOLUME - pb2.volume);
                    } else {
                        pb2.update(tick.ltp, tick.volume);
                    }
                    self.current_bar = Some(pb2);
                    self.last_tick_ms = Some(tick.timestamp_ms);
                    Ok(TickOutcome::Updated)
                } else {
                    let completed_bar = pb.to_bar(true);
                    let payload = EventPayload::BarReady {
                        symbol: clone_string(&self.symbol),
                        timeframe: String::from_str(self.timeframe.as_str()),
                        bar_time_ms: completed_bar.timestamp_ms,
                        bar_complete: true,
                    };
                    let event = Event::new(EventType::BarReady, payload, tick.timestamp_ms,
                        nonce);
                    match bus.publish(event) {
                        Ok(_) => {},
                        Err(_) => {},
                    }
                    match store.append(completed_bar) {
                        Ok(_) => {},
                        Err(_) => {},
                    }
                    self.current_bar = Some(PartialBar::new(bar_boundary, tick.ltp,
                        tick.volume));
                    self.last_tick_ms = Some(tick.timestamp_ms);
                    Ok(TickOutcome::Completed(completed_bar))
                }
            },
        }
    }

    /// The aggregator's symbol, for routing.
    pub fn symbol_str(&self) -> (r: &str)
        ensures
            r@ == self.sym(),
    {
        self.symbol.as_str()
    }

    /// A copy of the partial bar, marked incomplete (monitoring).
    pub fn get_current_bar(&self) -> (r: Option<Bar>)
        ensures
            r == (match self.partial() {
                Some(pb) => Some(pb.spec_to_bar(false)),
                None => None::<Bar>,
            }),
    {
        match self.current_bar {
            Some(pb) => Some(pb.to_bar(false)),
            None => None,
        }
    }

    /// Force-complete the current partial bar (end of day): `BarReady`
    /// is published and the bar appended under the caller's fresh nonce.
    /// With no partial bar open this is a no-op: nothing is appended and
    /// nothing is published.
    pub fn finalize_current_bar(&mut self, store: &mut HybridBarStore, bus: &mut EventBus,
        now_ms: i64, nonce: String) -> (r: Result<Option<Bar>, TradingError>)
        requires
            old(self).inv(),
            old(store).inv(),
            old(bus).inv(),
            old(store).series().len() < 1_000_000,
            old(bus).log_view().len() < 1_000_000,
            !old(bus).spec_seen(crate::events::event_key(EventType::BarReady, nonce@)),
        ensures
            final(self).inv(),
            final(store).inv(),
            final(bus).inv(),
            r is Ok,
            final(bus).keys_view() == old(bus).keys_view()
                || final(bus).keys_view() == old(bus).keys_view().push(
                    crate::events::event_key(EventType::BarReady, nonce@)),
            old(self).partial() is None ==> {
                &&& r == Ok::<Option<Bar>, TradingError>(None)
                &&& final(self).partial() == old(self).partial()
                &&& final(store).series() == old(store).series()
                &&& final(bus).log_view() == old(bus).log_view()
            },
            old(self).partial() matches Some(pb) ==> {
                let completed = pb.spec_to_bar(true);
                &&& r == Ok::<Option<Bar>, TradingError>(Some(completed))
                &&& final(self).partial() is None
                &&& final(store).series() == old(store).series().push(completed)
                &&& final(bus).log_view().len() == old(bus).log_view().len() + 1
                &&& final(bus).log_view().last().event_type == EventType::BarReady
                &&& (final(bus).log_view().last().payload matches
                    EventPayload::BarReady { bar_time_ms, bar_complete, .. }
                    && bar_time_ms == pb.timestamp_ms && bar_complete)
            },
    {
        match self.current_bar {
            None => Ok(None),
            Some(pb) => {
                let completed_bar = pb.to_bar(true);
                let payload = EventPayload::BarReady {
                    symbol: clone_string(&self.symbol),
                    timeframe: String::from_str(self.timeframe.as_str()),
                    bar_time_ms: completed_bar.timestamp_ms,
                    bar_complete: true,
                };
                let event = Event::new(EventType::BarReady, payload, now_ms, nonce);
                match bus.publish(event) {
                    Ok(_) => {},
                    Err(_) => {},
                }
                match store.append(completed_bar) {
                    Ok(_) => {},
                    Err(_) => {},
                }
                self.current_bar = None;
                Ok(Some(completed_bar))
            },
        }
    }

    /// True when no tick arrived within the threshold (or ever).
    pub fn check_data_gap(&self, now_ms: i64, threshold_seconds: i64) -> (r: bool)
        requires
            self.inv(),
            0 <= now_ms <= MAX_TS_MS,
            0 <= threshold_seconds <= 1_000_000_000,
        ensures
            r == (match self.last_tick() {
                Some(last) => now_ms - last > threshold_seconds * 1000,
                None => true,
            }),
    {
        match self.last_tick_ms {
            Some(last) => now_ms - last > threshold_seconds * 1000,
            None => true,
        }
    }
}


/// One (symbol, timeframe) lane of the fan-out aggregator: the
/// aggregator with its own bar store.
pub struct AggregatorLane {
    pub aggregator: BarAggregator,
    pub store: HybridBarStore,
}

/// Routes each tick to every aggregator whose symbol matches the tick's
/// symbol or its token.
pub struct MultiBarAggregator {
    lanes: Vec<AggregatorLane>,
}

impl MultiBarAggregator {
    pub closed spec fn lanes_view(&self) -> Seq<AggregatorLane> {
        self.lanes@
    }

    pub open spec fn inv(&self) -> bool {
        &&& self.lanes_view().len() <= 100
        &&& forall|i: int| 0 <= i < self.lanes_view().len()
            ==> (#[trigger] self.lanes_view()[i]).aggregator.inv()
                && self.lanes_view()[i].store.inv()
    }

    pub fn new() -> (r: MultiBarAggregator)
        ensures
            r.inv(),
            r.lanes_view().len() == 0,
    {
        MultiBarAggregator { lanes: Vec::new() }
    }

    /// Add an aggregator (with a fresh store of the given window) for one
    /// symbol and timeframe.
    pub fn add_aggregator(&mut self, symbol: String, timeframe: Timeframe,
        memory_capacity: usize)
        requires
            old(self).inv(),
            old(self).lanes_view().len() < 100,
            1 <= memory_capacity <= 1_000_000,
        ensures
            final(self).inv(),
            final(self).lanes_view().len() == old(self).lanes_view().len() + 1,
            final(self).lanes_view().last().aggregator.sym() == symbol@,
            final(self).lanes_view().last().aggregator.tf() == timeframe,
            final(self).lanes_view().last().store.series() == Seq::<Bar>::empty(),
    {
        let store = HybridBarStore::new(clone_string(&symbol),
            String::from_str(timeframe.as_str()), memory_capacity);
        let aggregator = BarAggregator::new(symbol, timeframe);
        self.lanes.push(AggregatorLane { aggregator, store });
    }

    /// Route one tick to every lane whose symbol matches the tick's
    /// symbol or token; lanes that match are advanced by `process_tick`
    /// (nonces derived per lane from the caller's fresh nonce), the rest
    /// are untouched.
    pub fn process_tick(&mut self, bus: &mut EventBus, tick: &Tick, nonce: String) -> (
        r: Result<usize, TradingError>)
        requires
            old(self).inv(),
            old(bus).inv(),
            tick.well_formed(),
            86_400_000 <= tick.timestamp_ms <= MAX_TS_MS,
            old(bus).log_view().len() + old(self).lanes_view().len() < 1_000_000,
            forall|i: int| 0 <= i < old(self).lanes_view().len()
                ==> (#[trigger] old(self).lanes_view()[i]).store.series().len() < 1_000_000,
            forall|i: int| 0 <= i < old(self).lanes_view().len()
                ==> !old(bus).spec_seen(#[trigger] crate::events::event_key(
                    EventType::BarReady, crate::events::derived_nonce(nonce@, i))),
        ensures
            final(self).inv(),
            final(bus).inv(),
            r matches Ok(n) ==> n <= old(self).lanes_view().len(),
            final(self).lanes_view().len() == old(self).lanes_view().len(),
            forall|i: int| 0 <= i < old(self).lanes_view().len()
                && (#[trigger] old(self).lanes_view()[i]).aggregator.sym() != tick.symbol@
                && old(self).lanes_view()[i].aggregator.sym() != tick.token@
                ==> final(self).lanes_view()[i] == old(self).lanes_view()[i],
            forall|i: int| 0 <= i < old(self).lanes_view().len()
                && ((#[trigger] old(self).lanes_view()[i]).aggregator.sym() == tick.symbol@
                    || old(self).lanes_view()[i].aggregator.sym() == tick.token@)
                ==> final(self).lanes_view()[i].aggregator.last_tick()
                    == Some(tick.timestamp_ms),
    {
        let n = self.lanes.len();
        let mut i: usize = 0;
        let mut routed: usize = 0;
        while i < n
            invariant
                0 <= i <= n,
                n == self.lanes_view().len(),
                routed <= i,
                self.inv(),
                bus.inv(),
                tick.well_formed(),
                86_400_000 <= tick.timestamp_ms <= MAX_TS_MS,
                n == old(self).lanes_view().len(),
                bus.log_view().len() <= old(bus).log_view().len() + i,
                old(bus).log_view().len() + n < 1_000_000,
                forall|k: int| i <= k < n
                    ==> !bus.spec_seen(#[trigger] crate::events::event_key(
                        EventType::BarReady, crate::events::derived_nonce(nonce@, k))),
                forall|k: int| i <= k < n
                    ==> #[trigger] self.lanes_view()[k] == old(self).lanes_view()[k],
                forall|k: int| 0 <= k < n
                    ==> (#[trigger] old(self).lanes_view()[k]).store.series().len()
                        < 1_000_000,
                forall|k: int| 0 <= k < i
                    && (#[trigger] old(self).lanes_view()[k]).aggregator.sym() != tick.symbol@
                    && old(self).lanes_view()[k].aggregator.sym() != tick.token@
                    ==> self.lanes_view()[k] == old(self).lanes_view()[k],
                forall|k: int| 0 <= k < i
                    && ((#[trigger] old(self).lanes_view()[k]).aggregator.sym()
                        == tick.symbol@
                        || old(self).lanes_view()[k].aggregator.sym() == tick.token@)
                    ==> self.lanes_view()[k].aggregator.last_tick()
                        == Some(tick.timestamp_ms),
            decreases n - i,
        {
            let matches_symbol = crate::types::str_eq(self.lanes[i].aggregator_symbol(),
                tick.symbol.as_str())
                || crate::types::str_eq(self.lanes[i].aggregator_symbol(),
                    tick.token.as_str());
            if matches_symbol {
                let ghost bus0 = *bus;
                let ghost lanes0 = self.lanes_view();
                let lane_tag = crate::events::make_derived_nonce(&nonce, i);
                let mut lane = self.lanes.remove(i);
                let outcome = lane.aggregator.process_tick(&mut lane.store, bus, tick,
                    lane_tag);
                let ghost lane_after = lane;
                self.lanes.insert(i, lane);
                match outcome {
                    Ok(_) => {},
                    Err(e) => {
                        proof {
                            assert(false);
                        }
                        return Err(e);
                    },
                }
                routed = routed + 1;
                proof {
                    assert(self.lanes_view() =~= lanes0.update(i as int, lane_after));
                    assert forall|k: int| i as int + 1 <= k < n
                        implies !bus.spec_seen(#[trigger] crate::events::event_key(
                            EventType::BarReady, crate::events::derived_nonce(nonce@, k))) by {
                        crate::bus::lemma_seen_push(bus0.keys_view(),
                            crate::events::event_key(EventType::BarReady,
                                crate::events::derived_nonce(nonce@, i as int)),
                            crate::events::event_key(EventType::BarReady,
                                crate::events::derived_nonce(nonce@, k)));
                        crate::events::lemma_derived_nonce_injective(nonce@, i as int, k);
                        crate::events::lemma_event_key_nonce_injective(EventType::BarReady,
                            crate::events::derived_nonce(nonce@, i as int), crate::events::derived_nonce(nonce@, k));
                    }
                }
            } else {
                proof {
                    assert(self.lanes_view()[i as int] == old(self).lanes_view()[i as int]);
                }
            }
            i = i + 1;
        }
        Ok(routed)
    }

    /// Force-complete every lane's partial bar (end of day).
    pub fn finalize_all(&mut self, bus: &mut EventBus, now_ms: i64, nonce: String) -> (
        r: Result<usize, TradingError>)
        requires
            old(self).inv(),
            old(bus).inv(),
            old(bus).log_view().len() + old(self).lanes_view().len() < 1_000_000,
            forall|i: int| 0 <= i < old(self).lanes_view().len()
                ==> (#[trigger] old(self).lanes_view()[i]).store.series().len() < 1_000_000,
            forall|i: int| 0 <= i < old(self).lanes_view().len()
                ==> !old(bus).spec_seen(#[trigger] crate::events::event_key(
                    EventType::BarReady, crate::events::derived_nonce(nonce@, i))),
        ensures
            final(self).inv(),
            final(bus).inv(),
            r is Ok,
            final(self).lanes_view().len() == old(self).lanes_view().len(),
            forall|i: int| 0 <= i < final(self).lanes_view().len()
                ==> (#[trigger] final(self).lanes_view()[i]).aggregator.partial() is None,
    {
        let n = self.lanes.len();
        let mut i: usize = 0;
        while i < n
            invariant
                0 <= i <= n,
                n == self.lanes_view().len(),
                self.inv(),
                bus.inv(),
                n == old(self).lanes_view().len(),
                bus.log_view().len() <= old(bus).log_view().len() + i,
                old(bus).log_view().len() + n < 1_000_000,
                forall|k: int| i <= k < n
                    ==> #[trigger] self.lanes_view()[k] == old(self).lanes_view()[k],
                forall|k: int| 0 <= k < n
                    ==> (#[trigger] old(self).lanes_view()[k]).store.series().len()
                        < 1_000_000,
                forall|k: int| i <= k < n
                    ==> !bus.spec_seen(#[trigger] crate::events::event_key(
                        EventType::BarReady, crate::events::derived_nonce(nonce@, k))),
                forall|k: int| 0 <= k < i
                    ==> (#[trigger] self.lanes_view()[k]).aggregator.partial() is None,
            decreases n - i,
        {
            let ghost bus0 = *bus;
            let ghost lanes0 = self.lanes_view();
            let lane_tag = crate::events::make_derived_nonce(&nonce, i);
            let mut lane = self.lanes.remove(i);
            let outcome = lane.aggregator.finalize_current_bar(&mut lane.store, bus, now_ms,
                lane_tag);
            let ghost lane_after = lane;
            self.lanes.insert(i, lane);
            match outcome {
                Ok(_) => {},
                Err(e) => {
                    proof {
                        assert(false);
                    }
                    return Err(e);
                },
            }
            proof {
                assert(self.lanes_view() =~= lanes0.update(i as int, lane_after));
                assert forall|k: int| i as int + 1 <= k < n
                    implies !bus.spec_seen(#[trigger] crate::events::event_key(
                        EventType::BarReady, crate::events::derived_nonce(nonce@, k))) by {
                    crate::bus::lemma_seen_push(bus0.keys_view(),
                        crate::events::event_key(EventType::BarReady,
                            crate::events::derived_nonce(nonce@, i as int)),
                        crate::events::event_key(EventType::BarReady,
                            crate::events::derived_nonce(nonce@, k)));
                    crate::events::lemma_derived_nonce_injective(nonce@, i as int, k);
                    crate::events::lemma_event_key_nonce_injective(EventType::BarReady,
                        crate::events::derived_nonce(nonce@, i as int), crate::events::derived_nonce(nonce@, k));
                }
            }
            i = i + 1;
        }
        Ok(n)
    }

    /// A lane whose aggregator saw no tick within the threshold (or
    /// ever).
    pub open spec fn lane_gapped(&self, k: int, now_ms: int, threshold_seconds: int) -> bool {
        match self.lanes_view()[k].aggregator.last_tick() {
            Some(last) => now_ms - last > threshold_seconds * 1000,
            None => true,
        }
    }

    /// The lanes whose aggregators have seen no tick within the
    /// threshold: exactly the gapped indices, in ascending order.
    pub fn check_all_gaps(&self, now_ms: i64, threshold_seconds: i64) -> (r: Vec<usize>)
        requires
            self.inv(),
            0 <= now_ms <= MAX_TS_MS,
            0 <= threshold_seconds <= 1_000_000_000,
        ensures
            forall|j: int| 0 <= j < r@.len()
                ==> (#[trigger] r@[j]) < self.lanes_view().len()
                    && self.lane_gapped(r@[j] as int, now_ms as int,
                        threshold_seconds as int),
            forall|k: int| 0 <= k < self.lanes_view().len()
                && #[trigger] self.lane_gapped(k, now_ms as int, threshold_seconds as int)
                ==> exists|j: int| 0 <= j < r@.len() && #[trigger] r@[j] as int == k,
    {
        let mut out: Vec<usize> = Vec::new();
        let mut i: usize = 0;
        let n = self.lanes.len();
        while i < n
            invariant
                0 <= i <= n,
                n == self.lanes_view().len(),
                self.inv(),
                0 <= now_ms <= MAX_TS_MS,
                0 <= threshold_seconds <= 1_000_000_000,
                forall|j: int| 0 <= j < out@.len()
                    ==> (#[trigger] out@[j]) < n
                        && self.lane_gapped(out@[j] as int, now_ms as int,
                            threshold_seconds as int),
                forall|k: int| 0 <= k < i
                    && #[trigger] self.lane_gapped(k, now_ms as int, threshold_seconds as int)
                    ==> exists|j: int| 0 <= j < out@.len() && #[trigger] out@[j] as int == k,
            decreases n - i,
        {
            let gapped = self.lanes[i].aggregator.check_data_gap(now_ms, threshold_seconds);
            let ghost out0 = out@;
            if gapped {
                out.push(i);
            }
            proof {
                assert forall|k: int| 0 <= k < i as int + 1
                    && #[trigger] self.lane_gapped(k, now_ms as int, threshold_seconds as int)
                    implies exists|j: int| 0 <= j < out@.len()
                        && #[trigger] out@[j] as int == k by {
                    if k == i as int {
                        assert(out@[out@.len() - 1] as int == k);
                    } else {
                        let j0 = choose|j: int| 0 <= j < out0.len()
                            && #[trigger] out0[j] as int == k;
                        assert(out@[j0] as int == k);
                    }
                }
            }
            i = i + 1;
        }
        out
    }
}

impl AggregatorLane {
    /// The lane's symbol, for routing.
    fn aggregator_symbol(&self) -> (r: &str)
        ensures
            r@ == self.aggregator.sym(),
    {
        self.aggregator.symbol_str()
    }
}

} // verus!
