//! Risk guardrails: the VIX circuit breaker with hysteresis, the daily
//! loss limit, the consecutive-loss counter, VIX/DTE-scaled position
//! sizing and the pre-entry check.
//!
//! VIX levels are hundredths of a point; percentage parameters basis
//! points; `base_capital` whole rupees (as the sizing rule expects).

use vstd::prelude::*;
use vstd::string::StringExecFns;
use crate::types::{VixMultipliers, DteMultipliers};
use crate::error::TradingError;
use crate::bus::EventBus;
use crate::events::{derived_nonce, event_key, make_derived_nonce, Event, EventPayload,
    EventType};
use crate::store::{clone_string, clone_string_vec};

verus! {

/// What one VIX update did to the circuit breaker.
#[derive(Debug, Clone, Copy, PartialEq, Eq, Structural)]
pub enum VixAction {
    SpikeTriggered,
    Resumed,
    NoChange,
}

/// The circuit-breaker transition: off to on at `vix >= spike`, on to off
/// at `vix < resume`, unchanged anywhere between.
pub open spec fn spec_breaker_step(active: bool, vix: int, spike: int, resume: int) -> bool {
    if vix >= spike {
        true
    } else if vix < resume {
        false
    } else {
        active
    }
}

/// Daily loss limit breached: the day's PnL is at or below minus
/// `limit_bp` basis points of the start capital.
pub open spec fn spec_loss_breached(daily_pnl: int, capital: int, limit_bp: int) -> bool {
    daily_pnl * 10_000 <= -(limit_bp * capital)
}

/// The VIX sizing multiplier in basis points: flat below 12, linear
/// between the anchors at 12, 20 and 30, flat above 30.
pub open spec fn spec_vix_mult(vix: int, a: VixMultipliers) -> int {
    if vix <= 1200 {
        a.vix_12_or_below as int
    } else if vix <= 2000 {
        (a.vix_12_or_below * (2000 - vix) + a.vix_20 * (vix - 1200)) / 800
    } else if vix <= 3000 {
        (a.vix_20 * (3000 - vix) + a.vix_30 * (vix - 2000)) / 1000
    } else {
        a.vix_30_or_above as int
    }
}

/// The DTE sizing multiplier in basis points: a step function over
/// at-least-5 days, 2 to 4 days, and expiry eve.
pub open spec fn spec_dte_mult(dte: int, d: DteMultipliers) -> int {
    if dte >= 5 {
        d.gte_5_days as int
    } else if dte >= 2 {
        d.days_2_to_4 as int
    } else {
        d.day_1 as int
    }
}

/// The sized quantity before the one-lot floor: the real product of
/// capital with the three basis-point factors, floored once, then cut
/// to a whole number of lots.
pub open spec fn spec_sized_qty(capital: int, base_bp: int, vm: int, dm: int, lot: int)
    -> int {
    let d = capital * base_bp * vm * dm / 1_000_000_000_000;
    (d / lot) * lot
}

pub struct RiskManager {
    current_vix: Option<i64>,
    circuit_breaker_active: bool,
    daily_start_capital: i64,
    consecutive_losses: usize,
    vix_spike_threshold: i64,
    vix_resume_threshold: i64,
    daily_loss_limit_pct: i64,
    consecutive_loss_limit: usize,
    max_positions: usize,
    base_position_size_pct: i64,
    vix_mult_anchors: VixMultipliers,
    dte_mult: DteMultipliers,
}

impl RiskManager {
    pub closed spec fn breaker(&self) -> bool {
        self.circuit_breaker_active
    }

    pub closed spec fn vix(&self) -> Option<i64> {
        self.current_vix
    }

    pub closed spec fn losses(&self) -> int {
        self.consecutive_losses as int
    }

    pub closed spec fn capital(&self) -> int {
        self.daily_start_capital as int
    }

    pub closed spec fn spike(&self) -> int {
        self.vix_spike_threshold as int
    }

    pub closed spec fn resume(&self) -> int {
        self.vix_resume_threshold as int
    }

    pub closed spec fn loss_limit_bp(&self) -> int {
        self.daily_loss_limit_pct as int
    }

    pub closed spec fn loss_cap(&self) -> int {
        self.consecutive_loss_limit as int
    }

    pub closed spec fn pos_cap(&self) -> int {
        self.max_positions as int
    }

    pub closed spec fn base_bp(&self) -> int {
        self.base_position_size_pct as int
    }

    pub closed spec fn anchors(&self) -> VixMultipliers {
        self.vix_mult_anchors
    }

    pub closed spec fn dte_anchors(&self) -> DteMultipliers {
        self.dte_mult
    }

    pub open spec fn inv(&self) -> bool {
        &&& self.spike() > self.resume()
        &&& 0 <= self.resume()
        &&& self.spike() <= 100_000
        &&& 0 < self.loss_limit_bp() <= 10_000
        &&& 0 < self.capital() <= 10_000_000_000
        &&& 0 < self.loss_cap() <= 1000
        &&& 0 < self.pos_cap() <= 1000
        &&& 0 < self.base_bp() <= 100_000
        &&& 0 <= self.anchors().vix_12_or_below <= 100_000
        &&& 0 <= self.anchors().vix_20 <= 100_000
        &&& 0 <= self.anchors().vix_30 <= 100_000
        &&& 0 <= self.anchors().vix_30_or_above <= 100_000
        &&& 0 <= self.dte_anchors().gte_5_days <= 100_000
        &&& 0 <= self.dte_anchors().days_2_to_4 <= 100_000
        &&& 0 <= self.dte_anchors().day_1 <= 100_000
    }

    pub fn new(vix_spike_threshold: i64, vix_resume_threshold: i64, daily_loss_limit_pct: i64,
        consecutive_loss_limit: usize, max_positions: usize, base_position_size_pct: i64,
        vix_mult_anchors: VixMultipliers, dte_mult: DteMultipliers, daily_start_capital: i64)
        -> (r: RiskManager)
        requires
            vix_spike_threshold > vix_resume_threshold,
            0 <= vix_resume_threshold,
            vix_spike_threshold <= 100_000,
            0 < daily_loss_limit_pct <= 10_000,
            0 < daily_start_capital <= 10_000_000_000,
            0 < consecutive_loss_limit <= 1000,
            0 < max_positions <= 1000,
            0 < base_position_size_pct <= 100_000,
            0 <= vix_mult_anchors.vix_12_or_below <= 100_000,
            0 <= vix_mult_anchors.vix_20 <= 100_000,
            0 <= vix_mult_anchors.vix_30 <= 100_000,
            0 <= vix_mult_anchors.vix_30_or_above <= 100_000,
            0 <= dte_mult.gte_5_days <= 100_000,
            0 <= dte_mult.days_2_to_4 <= 100_000,
            0 <= dte_mult.day_1 <= 100_000,
        ensures
            r.inv(),
            !r.breaker(),
            r.vix() is None,
            r.losses() == 0,
            r.capital() == daily_start_capital,
            r.spike() == vix_spike_threshold,
            r.resume() == vix_resume_threshold,
    {
        RiskManager {
            current_vix: None,
            circuit_breaker_active: false,
            daily_start_capital,
            consecutive_losses: 0,
            vix_spike_threshold,
            vix_resume_threshold,
            daily_loss_limit_pct,
            consecutive_loss_limit,
            max_positions,
            base_position_size_pct,
            vix_mult_anchors,
            dte_mult,
        }
    }

    /// Record a VIX reading and drive the circuit breaker: off to on at
    /// the spike threshold, on to off below the resume threshold, and no
    /// movement anywhere between the two.
    /// Record a VIX reading and drive the circuit breaker: off to on at
    /// the spike threshold (publishing `VixSpike` with the open position
    /// ids and one mandatory `ExitSignalGenerated` per position), on to
    /// off below the resume threshold (publishing `VixNormalResumed`),
    /// and no movement anywhere between.  `VixDataReceived` is always
    /// published first.
    pub fn update_vix(&mut self, vix: i64, open_position_ids: &Vec<String>,
        bus: &mut EventBus, now_ms: i64, nonce: String) -> (r: VixAction)
        requires
            old(self).inv(),
            old(bus).inv(),
            open_position_ids@.len() <= 1000,
            old(bus).log_view().len() + open_position_ids@.len() < 999_999_000,
            !old(bus).spec_seen(event_key(EventType::VixDataReceived, nonce@)),
            !old(bus).spec_seen(event_key(EventType::VixSpike, nonce@)),
            !old(bus).spec_seen(event_key(EventType::VixNormalResumed, nonce@)),
            forall|k: int| 0 <= k < open_position_ids@.len()
                ==> !old(bus).spec_seen(#[trigger] event_key(
                    EventType::ExitSignalGenerated, derived_nonce(nonce@, k))),
        ensures
            final(self).inv(),
            final(bus).inv(),
            final(self).vix() == Some(vix),
            final(self).breaker() == spec_breaker_step(old(self).breaker(), vix as int,
                old(self).spike(), old(self).resume()),
            r == (if !old(self).breaker() && final(self).breaker() {
                VixAction::SpikeTriggered
            } else if old(self).breaker() && !final(self).breaker() {
                VixAction::Resumed
            } else {
                VixAction::NoChange
            }),
            final(self).losses() == old(self).losses(),
            final(self).capital() == old(self).capital(),
            final(self).spike() == old(self).spike(),
            final(self).resume() == old(self).resume(),
            ({
                let base = old(bus).log_view().len() as int;
                let n = open_position_ids@.len() as int;
                &&& final(bus).log_view()[base].event_type == EventType::VixDataReceived
                &&& (final(bus).log_view()[base].payload matches
                    EventPayload::VixDataReceived { vix: v, .. } && v == vix)
                &&& (r == VixAction::SpikeTriggered ==> {
                    &&& final(bus).log_view().len() == base + 2 + n
                    &&& final(bus).log_view()[base + 1].event_type == EventType::VixSpike
                    &&& (final(bus).log_view()[base + 1].payload matches
                        EventPayload::VixSpike { vix: v, threshold, positions_to_exit }
                        && v == vix && threshold as int == old(self).spike()
                        && positions_to_exit@ == open_position_ids@)
                    &&& forall|k: int| 0 <= k < n ==> {
                        let e = #[trigger] final(bus).log_view()[base + 2 + k];
                        &&& e.event_type == EventType::ExitSignalGenerated
                        &&& (e.payload matches EventPayload::ExitSignalGenerated {
                            position_id, primary_reason, priority, .. }
                            && position_id@ == open_position_ids@[k]@
                            && primary_reason@ == "VIX_SPIKE"@
                            && priority == 1u8)
                    }
                })
                &&& (r == VixAction::Resumed ==> {
                    &&& final(bus).log_view().len() == base + 2
                    &&& final(bus).log_view()[base + 1].event_type
                        == EventType::VixNormalResumed
                    &&& (final(bus).log_view()[base + 1].payload matches
                        EventPayload::VixNormalResumed { vix: v, threshold }
                        && v == vix && threshold as int == old(self).resume())
                })
                &&& (r == VixAction::NoChange
                    ==> final(bus).log_view().len() == base + 1)
            }),
            forall|kk: Seq<char>| #[trigger] final(bus).spec_seen(kk)
                ==> old(bus).spec_seen(kk)
                    || kk == event_key(EventType::VixDataReceived, nonce@)
                    || kk == event_key(EventType::VixSpike, nonce@)
                    || kk == event_key(EventType::VixNormalResumed, nonce@)
                    || exists|q: int| 0 <= q < open_position_ids@.len()
                        && kk == event_key(EventType::ExitSignalGenerated,
                            derived_nonce(nonce@, q)),
    {
        self.current_vix = Some(vix);
        let ghost bus_start = *bus;
        let data_event = Event::new(EventType::VixDataReceived,
            EventPayload::VixDataReceived { vix, timestamp_ms: now_ms }, now_ms,
            clone_string(&nonce));
        match bus.publish(data_event) {
            Ok(_) => {},
            Err(_) => {},
        }
        let ghost log1 = bus.log_view();
        proof {
            assert(log1.len() == old(bus).log_view().len() + 1);
            assert(log1.last().event_type == EventType::VixDataReceived);
            lemma_vix_keys_still_fresh(bus_start, *bus, nonce@,
                open_position_ids@.len() as int);
        }
        let ghost bus1 = *bus;
        if vix >= self.vix_spike_threshold {
            if !self.circuit_breaker_active {
                self.circuit_breaker_active = true;
                let ghost bus_mid = *bus;
                let spike_event = Event::new(EventType::VixSpike,
                    EventPayload::VixSpike {
                        vix,
                        threshold: self.vix_spike_threshold,
                        positions_to_exit: clone_string_vec(open_position_ids),
                    }, now_ms, clone_string(&nonce));
                match bus.publish(spike_event) {
                    Ok(_) => {},
                    Err(_) => {},
                }
                let ghost log2 = bus.log_view();
                proof {
                    assert(log2 == log1.push(log2.last()));
                    lemma_vix_keys_still_fresh(bus_mid, *bus, nonce@,
                        open_position_ids@.len() as int);
                }
                let ghost bus2 = *bus;
                publish_mandatory_exits(bus, open_position_ids, "VIX_SPIKE", now_ms, &nonce);
                proof {
                    let base = old(bus).log_view().len() as int;
                    assert(bus.log_view().take(log2.len() as int) == log2);
                    assert(bus.log_view()[base] == log2[base]);
                    assert(log2[base] == log1[base]);
                    assert(log1[base] == log1.last());
                    assert(bus.log_view()[base + 1] == log2[base + 1]);
                    assert(log2[base + 1] == log2.last());
                    assert forall|kk: Seq<char>| #[trigger] bus.spec_seen(kk)
                        implies bus_start.spec_seen(kk)
                            || kk == event_key(EventType::VixDataReceived, nonce@)
                            || kk == event_key(EventType::VixSpike, nonce@)
                            || kk == event_key(EventType::VixNormalResumed, nonce@)
                            || exists|q: int| 0 <= q < open_position_ids@.len()
                                && kk == event_key(EventType::ExitSignalGenerated,
                                    derived_nonce(nonce@, q)) by {
                        crate::bus::lemma_seen_push(bus_mid.keys_view(),
                            event_key(EventType::VixSpike, nonce@), kk);
                        crate::bus::lemma_seen_push(bus_start.keys_view(),
                            event_key(EventType::VixDataReceived, nonce@), kk);
                    }
                }
                VixAction::SpikeTriggered
            } else {
                proof {
                    assert forall|kk: Seq<char>| #[trigger] bus.spec_seen(kk)
                        implies bus_start.spec_seen(kk)
                            || kk == event_key(EventType::VixDataReceived, nonce@) by {
                        crate::bus::lemma_seen_push(bus_start.keys_view(),
                            event_key(EventType::VixDataReceived, nonce@), kk);
                    }
                }
                VixAction::NoChange
            }
        } else if vix < self.vix_resume_threshold {
            if self.circuit_breaker_active {
                self.circuit_breaker_active = false;
                let resumed_event = Event::new(EventType::VixNormalResumed,
                    EventPayload::VixNormalResumed {
                        vix,
                        threshold: self.vix_resume_threshold,
                    }, now_ms, nonce);
                match bus.publish(resumed_event) {
                    Ok(_) => {},
                    Err(_) => {},
                }
                proof {
                    assert forall|kk: Seq<char>| #[trigger] bus.spec_seen(kk)
                        implies bus_start.spec_seen(kk)
                            || kk == event_key(EventType::VixDataReceived, nonce@)
                            || kk == event_key(EventType::VixNormalResumed, nonce@) by {
                        crate::bus::lemma_seen_push(bus1.keys_view(),
                            event_key(EventType::VixNormalResumed, nonce@), kk);
                        crate::bus::lemma_seen_push(bus_start.keys_view(),
                            event_key(EventType::VixDataReceived, nonce@), kk);
                    }
                }
                VixAction::Resumed
            } else {
                proof {
                    assert forall|kk: Seq<char>| #[trigger] bus.spec_seen(kk)
                        implies bus_start.spec_seen(kk)
                            || kk == event_key(EventType::VixDataReceived, nonce@) by {
                        crate::bus::lemma_seen_push(bus_start.keys_view(),
                            event_key(EventType::VixDataReceived, nonce@), kk);
                    }
                }
                VixAction::NoChange
            }
        } else {
            proof {
                assert forall|kk: Seq<char>| #[trigger] bus.spec_seen(kk)
                    implies bus_start.spec_seen(kk)
                        || kk == event_key(EventType::VixDataReceived, nonce@) by {
                    crate::bus::lemma_seen_push(bus_start.keys_view(),
                        event_key(EventType::VixDataReceived, nonce@), kk);
                }
            }
            VixAction::NoChange
        }
    }

    /// Whether the circuit breaker is active.
    pub fn is_circuit_breaker_active(&self) -> (r: bool)
        ensures
            r == self.breaker(),
    {
        self.circuit_breaker_active
    }

    /// Whether today's PnL breaches the daily loss limit; a breach
    /// publishes `DailyLossLimitBreached` with the open position ids and
    /// one mandatory `ExitSignalGenerated` per position.
    pub fn check_daily_loss_limit(&self, daily_pnl: i64, open_position_ids: &Vec<String>,
        bus: &mut EventBus, now_ms: i64, nonce: String) -> (r: bool)
        requires
            self.inv(),
            old(bus).inv(),
            -2_000_000_000_000_000_000 <= daily_pnl <= 2_000_000_000_000_000_000,
            open_position_ids@.len() <= 1000,
            old(bus).log_view().len() + open_position_ids@.len() < 999_999_000,
            !old(bus).spec_seen(event_key(EventType::DailyLossLimitBreached, nonce@)),
            forall|k: int| 0 <= k < open_position_ids@.len()
                ==> !old(bus).spec_seen(#[trigger] event_key(
                    EventType::ExitSignalGenerated, derived_nonce(nonce@, k))),
        ensures
            final(bus).inv(),
            r == spec_loss_breached(daily_pnl as int, self.capital(), self.loss_limit_bp()),
            !r ==> final(bus).log_view() == old(bus).log_view()
                && final(bus).keys_view() == old(bus).keys_view(),
            forall|kk: Seq<char>| #[trigger] final(bus).spec_seen(kk)
                ==> old(bus).spec_seen(kk)
                    || kk == event_key(EventType::DailyLossLimitBreached, nonce@)
                    || exists|q: int| 0 <= q < open_position_ids@.len()
                        && kk == event_key(EventType::ExitSignalGenerated,
                            derived_nonce(nonce@, q)),
            r ==> {
                let base = old(bus).log_view().len() as int;
                let n = open_position_ids@.len() as int;
                &&& final(bus).log_view().len() == base + 1 + n
                &&& final(bus).log_view()[base].event_type
                    == EventType::DailyLossLimitBreached
                &&& (final(bus).log_view()[base].payload matches
                    EventPayload::DailyLossLimitBreached { daily_pnl: dp,
                        positions_to_close, .. }
                    && dp == daily_pnl && positions_to_close@ == open_position_ids@)
                &&& forall|k: int| 0 <= k < n ==> {
                    let e = #[trigger] final(bus).log_view()[base + 1 + k];
                    &&& e.event_type == EventType::ExitSignalGenerated
                    &&& (e.payload matches EventPayload::ExitSignalGenerated {
                        position_id, primary_reason, priority, .. }
                        && position_id@ == open_position_ids@[k]@
                        && primary_reason@ == "DAILY_LOSS_LIMIT"@
                        && priority == 1u8)
                }
            },
    {
        let lhs = (daily_pnl as i128) * 10_000;
        proof {
            assert(0 <= self.daily_loss_limit_pct as int * (self.daily_start_capital as int)
                <= 10_000 * 10_000_000_000) by (nonlinear_arith)
                requires
                    0 < self.daily_loss_limit_pct as int <= 10_000,
                    0 < self.daily_start_capital as int <= 10_000_000_000;
        }
        let limit_product = (self.daily_loss_limit_pct as i128)
            * (self.daily_start_capital as i128);
        let breached = lhs <= -limit_product;
        if !breached {
            return false;
        }
        let limit_value = -((limit_product / 10_000) as i64);
        let ghost bus_start = *bus;
        let breach_event = Event::new(EventType::DailyLossLimitBreached,
            EventPayload::DailyLossLimitBreached {
                daily_pnl,
                limit: limit_value,
                positions_to_close: clone_string_vec(open_position_ids),
            }, now_ms, nonce.clone());
        match bus.publish(breach_event) {
            Ok(_) => {},
            Err(_) => {},
        }
        let ghost log1 = bus.log_view();
        proof {
            lemma_loss_keys_still_fresh(bus_start, *bus, nonce@,
                open_position_ids@.len() as int);
        }
        let ghost bus1 = *bus;
        publish_mandatory_exits(bus, open_position_ids, "DAILY_LOSS_LIMIT", now_ms, &nonce);
        proof {
            let base = old(bus).log_view().len() as int;
            assert(bus.log_view().take(log1.len() as int) == log1);
            assert(bus.log_view()[base] == log1[base]);
            assert(log1[base] == log1.last());
            assert forall|kk: Seq<char>| #[trigger] bus.spec_seen(kk)
                implies bus_start.spec_seen(kk)
                    || kk == event_key(EventType::DailyLossLimitBreached, nonce@)
                    || exists|q: int| 0 <= q < open_position_ids@.len()
                        && kk == event_key(EventType::ExitSignalGenerated,
                            derived_nonce(nonce@, q)) by {
                crate::bus::lemma_seen_push(bus_start.keys_view(),
                    event_key(EventType::DailyLossLimitBreached, nonce@), kk);
            }
        }
        true
    }

    /// Record one trade outcome: a win resets the streak, a loss extends
    /// it; returns whether the streak has reached the configured cap.
    pub fn check_consecutive_losses(&mut self, trade_won: bool) -> (r: bool)
        requires
            old(self).inv(),
            old(self).losses() <= 1_000_000,
        ensures
            final(self).inv(),
            trade_won ==> final(self).losses() == 0 && r == false,
            !trade_won ==> final(self).losses() == old(self).losses() + 1
                && r == (final(self).losses() >= final(self).loss_cap()),
            final(self).breaker() == old(self).breaker(),
            final(self).capital() == old(self).capital(),
    {
        if trade_won {
            self.consecutive_losses = 0;
            false
        } else {
            self.consecutive_losses = self.consecutive_losses + 1;
            self.consecutive_losses >= self.consecutive_loss_limit
        }
    }

    /// Position size from capital, VIX and days to expiry: the base size
    /// is scaled by the two multipliers, floored to the instrument's lot
    /// size, and never less than one lot.
    pub fn calculate_position_size(&self, base_capital: i64, vix: i64, days_to_expiry: i64,
        lot_size: i64) -> (r: i64)
        requires
            self.inv(),
            0 < base_capital <= 10_000_000_000,
            0 <= vix <= 100_000,
            0 < lot_size <= 1_000_000,
        ensures
            ({
                let q = spec_sized_qty(base_capital as int, self.base_bp(),
                    spec_vix_mult(vix as int, self.anchors()),
                    spec_dte_mult(days_to_expiry as int, self.dte_anchors()),
                    lot_size as int);
                r == (if q >= lot_size { q } else { lot_size as int })
            }),
            r >= lot_size,
            r % lot_size == 0,
    {
        proof {
            let a = self.anchors();
            if 1200 < vix && vix <= 2000 {
                assert(0 <= a.vix_12_or_below * (2000 - vix) <= 100_000 * 800
                    && 0 <= a.vix_20 * (vix - 1200) <= 100_000 * 800) by (nonlinear_arith)
                    requires 0 <= a.vix_12_or_below <= 100_000, 0 <= a.vix_20 <= 100_000,
                        1200 < vix <= 2000;
            }
            if 2000 < vix && vix <= 3000 {
                assert(0 <= a.vix_20 * (3000 - vix) <= 100_000 * 1000
                    && 0 <= a.vix_30 * (vix - 2000) <= 100_000 * 1000) by (nonlinear_arith)
                    requires 0 <= a.vix_20 <= 100_000, 0 <= a.vix_30 <= 100_000,
                        2000 < vix <= 3000;
            }
        }
        let vix_mult = if vix <= 1200 {
            self.vix_mult_anchors.vix_12_or_below
        } else if vix <= 2000 {
            (self.vix_mult_anchors.vix_12_or_below * (2000 - vix)
                + self.vix_mult_anchors.vix_20 * (vix - 1200)) / 800
        } else if vix <= 3000 {
            (self.vix_mult_anchors.vix_20 * (3000 - vix)
                + self.vix_mult_anchors.vix_30 * (vix - 2000)) / 1000
        } else {
            self.vix_mult_anchors.vix_30_or_above
        };
        let dte_mult = if days_to_expiry >= 5 {
            self.dte_mult.gte_5_days
        } else if days_to_expiry >= 2 {
            self.dte_mult.days_2_to_4
        } else {
            self.dte_mult.day_1
        };
        proof {
            lemma_vix_mult_bounds(vix as int, self.anchors());
        }
        // The whole product in wide arithmetic, floored once.
        proof {
            let c = base_capital as int;
            let bp = self.base_bp();
            let vmi = vix_mult as int;
            let dmi = dte_mult as int;
            assert(0 < c * bp <= 1_000_000_000_000_000) by (nonlinear_arith)
                requires 0 < c <= 10_000_000_000, 0 < bp <= 100_000;
            assert(0 <= c * bp * vmi <= 100_000_000_000_000_000_000) by (nonlinear_arith)
                requires 0 < c * bp <= 1_000_000_000_000_000, 0 <= vmi <= 100_000;
            assert(0 <= c * bp * vmi * dmi <= 10_000_000_000_000_000_000_000_000)
                by (nonlinear_arith)
                requires 0 <= c * bp * vmi <= 100_000_000_000_000_000_000,
                    0 <= dmi <= 100_000;
        }
        let num: i128 = (base_capital as i128) * (self.base_position_size_pct as i128)
            * (vix_mult as i128) * (dte_mult as i128);
        proof {
            vstd::arithmetic::div_mod::lemma_div_pos_is_pos(num as int, 1_000_000_000_000);
            vstd::arithmetic::div_mod::lemma_div_is_ordered(num as int,
                10_000_000_000_000_000_000_000_000, 1_000_000_000_000);
        }
        let d128: i128 = num / 1_000_000_000_000;
        let d_size: i64 = d128 as i64;
        let lots = d_size / lot_size;
        proof {
            vstd::arithmetic::div_mod::lemma_div_pos_is_pos(d_size as int, lot_size as int);
            vstd::arithmetic::div_mod::lemma_div_nonincreasing(d_size as int, lot_size as int);
        }
        proof {
            assert(0 <= lots as int * lot_size <= d_size as int) by {
                let q = d_size as int / (lot_size as int);
                vstd::arithmetic::div_mod::lemma_fundamental_div_mod(d_size as int,
                    lot_size as int);
                vstd::arithmetic::div_mod::lemma_mod_division_less_than_divisor(
                    d_size as int, lot_size as int);
                assert(q * lot_size == lot_size as int * q) by (nonlinear_arith);
            }
            vstd::arithmetic::div_mod::lemma_mod_multiples_basic(lots as int, lot_size as int);
            vstd::arithmetic::div_mod::lemma_mod_self_0(lot_size as int);
        }
        let quantity = lots * lot_size;
        if quantity >= lot_size {
            quantity
        } else {
            lot_size
        }
    }

    /// The pre-entry gate: a new entry is allowed only when the breaker
    /// is off, the daily loss limit is not breached, room remains under
    /// the position cap and the consecutive-loss cap has not been
    /// reached; success publishes `RiskCheckPassed`.
    pub fn pre_entry_risk_check(&self, daily_pnl: i64, open_positions: usize,
        bus: &mut EventBus, now_ms: i64, nonce: String) -> (r: Result<(), TradingError>)
        requires
            self.inv(),
            old(bus).inv(),
            -2_000_000_000_000_000_000 <= daily_pnl <= 2_000_000_000_000_000_000,
            old(bus).log_view().len() < 999_999_000,
            !old(bus).spec_seen(event_key(EventType::RiskCheckPassed, nonce@)),
        ensures
            final(bus).inv(),
            final(bus).keys_view() == old(bus).keys_view()
                || final(bus).keys_view() == old(bus).keys_view().push(
                    event_key(EventType::RiskCheckPassed, nonce@)),
            r is Ok <==> {
                &&& !self.breaker()
                &&& !spec_loss_breached(daily_pnl as int, self.capital(), self.loss_limit_bp())
                &&& (open_positions as int) < self.pos_cap()
                &&& self.losses() < self.loss_cap()
            },
            r is Ok ==> final(bus).log_view().len() == old(bus).log_view().len() + 1
                && final(bus).log_view().last().event_type == EventType::RiskCheckPassed
                && (final(bus).log_view().last().payload matches
                    EventPayload::RiskCheckPassed { check_type }
                    && check_type@ == "PRE_ENTRY"@),
            r is Err ==> final(bus).log_view() == old(bus).log_view()
                && final(bus).keys_view() == old(bus).keys_view(),
            r matches Err(e) ==> (self.breaker() ==> e is RiskCheckFailed),
            r matches Err(e) ==> (!self.breaker()
                && spec_loss_breached(daily_pnl as int, self.capital(), self.loss_limit_bp())
                ==> e is DailyLossLimit),
            r matches Err(e) ==> (!self.breaker()
                && !spec_loss_breached(daily_pnl as int, self.capital(), self.loss_limit_bp())
                && open_positions as int >= self.pos_cap() ==> e is PositionLimitExceeded),
    {
        if self.circuit_breaker_active {
            return Err(TradingError::RiskCheckFailed(String::from_str(
                "VIX circuit breaker active")));
        }
        proof {
            assert(0 <= self.daily_loss_limit_pct as int * (self.daily_start_capital as int)
                <= 10_000 * 10_000_000_000) by (nonlinear_arith)
                requires
                    0 < self.daily_loss_limit_pct as int <= 10_000,
                    0 < self.daily_start_capital as int <= 10_000_000_000;
        }
        let lhs = (daily_pnl as i128) * 10_000;
        let rhs = -((self.daily_loss_limit_pct as i128)
            * (self.daily_start_capital as i128));
        if lhs <= rhs {
            return Err(TradingError::DailyLossLimit(String::from_str(
                "Daily loss limit breached")));
        }
        if open_positions >= self.max_positions {
            return Err(TradingError::PositionLimitExceeded(String::from_str(
                "Max positions reached")));
        }
        if self.consecutive_losses >= self.consecutive_loss_limit {
            return Err(TradingError::RiskCheckFailed(String::from_str(
                "Consecutive loss limit reached")));
        }
        let event = Event::new(EventType::RiskCheckPassed,
            EventPayload::RiskCheckPassed { check_type: String::from_str("PRE_ENTRY") },
            now_ms, nonce);
        match bus.publish(event) {
            Ok(_) => {},
            Err(_) => {},
        }
        Ok(())
    }

    /// The last VIX reading.
    pub fn get_current_vix(&self) -> (r: Option<i64>)
        ensures
            r == self.vix(),
    {
        self.current_vix
    }

    /// Set the capital base for today's loss-limit arithmetic.
    pub fn set_daily_start_capital(&mut self, capital: i64)
        requires
            old(self).inv(),
            0 < capital <= 10_000_000_000,
        ensures
            final(self).inv(),
            final(self).capital() == capital,
            final(self).breaker() == old(self).breaker(),
            final(self).losses() == old(self).losses(),
    {
        self.daily_start_capital = capital;
    }

    /// Daily reset: the loss streak and the breaker are cleared.
    pub fn reset_daily(&mut self)
        requires
            old(self).inv(),
        ensures
            final(self).inv(),
            final(self).losses() == 0,
            !final(self).breaker(),
            final(self).capital() == old(self).capital(),
    {
        self.consecutive_losses = 0;
        self.circuit_breaker_active = false;
    }
}

/// The interpolated VIX multiplier stays inside the anchor bounds.
proof fn lemma_vix_mult_bounds(vix: int, a: VixMultipliers)
    requires
        0 <= a.vix_12_or_below <= 100_000,
        0 <= a.vix_20 <= 100_000,
        0 <= a.vix_30 <= 100_000,
        0 <= a.vix_30_or_above <= 100_000,
    ensures
        0 <= spec_vix_mult(vix, a) <= 100_000,
{
    if vix <= 1200 {
    } else if vix <= 2000 {
        let num = a.vix_12_or_below * (2000 - vix) + a.vix_20 * (vix - 1200);
        assert(0 <= num <= 100_000 * 800) by (nonlinear_arith)
            requires 0 <= a.vix_12_or_below <= 100_000, 0 <= a.vix_20 <= 100_000,
                1200 < vix <= 2000,
                num == a.vix_12_or_below * (2000 - vix) + a.vix_20 * (vix - 1200);
        vstd::arithmetic::div_mod::lemma_div_pos_is_pos(num, 800);
        assert(num / 800 <= (100_000 * 800) / 800) by {
            vstd::arithmetic::div_mod::lemma_div_is_ordered(num, (100_000 * 800) as int, 800);
        }
        assert((100_000 * 800) / 800 == 100_000) by {
            vstd::arithmetic::div_mod::lemma_div_multiples_vanish(100_000, 800);
        }
    } else if vix <= 3000 {
        let num = a.vix_20 * (3000 - vix) + a.vix_30 * (vix - 2000);
        assert(0 <= num <= 100_000 * 1000) by (nonlinear_arith)
            requires 0 <= a.vix_20 <= 100_000, 0 <= a.vix_30 <= 100_000,
                2000 < vix <= 3000,
                num == a.vix_20 * (3000 - vix) + a.vix_30 * (vix - 2000);
        vstd::arithmetic::div_mod::lemma_div_pos_is_pos(num, 1000);
        assert(num / 1000 <= (100_000 * 1000) / 1000) by {
            vstd::arithmetic::div_mod::lemma_div_is_ordered(num, (100_000 * 1000) as int, 1000);
        }
        assert((100_000 * 1000) / 1000 == 100_000) by {
            vstd::arithmetic::div_mod::lemma_div_multiples_vanish(100_000, 1000);
        }
    } else {
    }
}

/// Hysteresis of the VIX circuit breaker: crossing the spike threshold
/// turns it on, falling below the resume threshold turns it off, and in
/// the band between the two thresholds it never moves.
pub proof fn lemma_vix_hysteresis(active: bool, vix: int, spike: int, resume: int)
    requires
        resume < spike,
    ensures
        vix >= spike ==> spec_breaker_step(active, vix, spike, resume),
        vix < resume ==> !spec_breaker_step(active, vix, spike, resume),
        resume <= vix < spike ==> spec_breaker_step(active, vix, spike, resume) == active,
{
}

/// Over any VIX path that stays inside the hysteresis band, the breaker
/// state never changes.
pub proof fn lemma_vix_band_stable(active: bool, path: Seq<int>, spike: int, resume: int)
    requires
        resume < spike,
        forall|i: int| 0 <= i < path.len() ==> resume <= #[trigger] path[i] < spike,
    ensures
        fold_breaker(active, path, spike, resume) == active,
    decreases path.len(),
{
    if path.len() > 0 {
        assert(resume <= path[0] < spike);
        lemma_vix_band_stable(spec_breaker_step(active, path[0], spike, resume),
            path.drop_first(), spike, resume);
        assert forall|i: int| 0 <= i < path.drop_first().len()
            implies resume <= #[trigger] path.drop_first()[i] < spike by {
            assert(path.drop_first()[i] == path[i + 1]);
        }
    }
}

/// The breaker state after a sequence of VIX readings.
pub open spec fn fold_breaker(active: bool, path: Seq<int>, spike: int, resume: int) -> bool
    decreases path.len(),
{
    if path.len() == 0 {
        active
    } else {
        fold_breaker(spec_breaker_step(active, path[0], spike, resume), path.drop_first(),
            spike, resume)
    }
}


/// Publishing a VIX data or spike record leaves the remaining keys of
/// the same nonce fresh: the other plain keys have different wire-name
/// lengths, and every derived exit key is strictly longer.
proof fn lemma_vix_keys_still_fresh(pre: EventBus, post: EventBus, nonce: Seq<char>, n: int)
    requires
        post.keys_view() == pre.keys_view()
            || post.keys_view() == pre.keys_view().push(
                event_key(EventType::VixDataReceived, nonce))
            || post.keys_view() == pre.keys_view().push(event_key(EventType::VixSpike, nonce)),
        !pre.spec_seen(event_key(EventType::VixSpike, nonce)),
        !pre.spec_seen(event_key(EventType::VixNormalResumed, nonce)),
        forall|k: int| 0 <= k < n
            ==> !pre.spec_seen(#[trigger] event_key(EventType::ExitSignalGenerated,
                derived_nonce(nonce, k))),
    ensures
        post.keys_view() == pre.keys_view().push(event_key(EventType::VixDataReceived, nonce))
            ==> !post.spec_seen(event_key(EventType::VixSpike, nonce)),
        !post.spec_seen(event_key(EventType::VixNormalResumed, nonce)),
        forall|k: int| 0 <= k < n
            ==> !post.spec_seen(#[trigger] event_key(EventType::ExitSignalGenerated,
                derived_nonce(nonce, k))),
{
    reveal_strlit("VIX_DATA_RECEIVED");
    reveal_strlit("VIX_SPIKE");
    reveal_strlit("VIX_NORMAL_RESUMED");
    reveal_strlit("EXIT_SIGNAL_GENERATED");
    assert(crate::events::spec_wire_name(EventType::VixDataReceived).len() == 17);
    assert(crate::events::spec_wire_name(EventType::VixSpike).len() == 9);
    assert(crate::events::spec_wire_name(EventType::VixNormalResumed).len() == 18);
    assert(crate::events::spec_wire_name(EventType::ExitSignalGenerated).len() == 21);
    crate::events::lemma_event_key_len(EventType::VixDataReceived, nonce);
    crate::events::lemma_event_key_len(EventType::VixSpike, nonce);
    crate::events::lemma_event_key_len(EventType::VixNormalResumed, nonce);
    if post.keys_view() != pre.keys_view() {
        let pushed = post.keys_view().last();
        assert forall|k: int| 0 <= k < n
            implies !post.spec_seen(#[trigger] event_key(EventType::ExitSignalGenerated,
                derived_nonce(nonce, k))) by {
            crate::events::lemma_event_key_len(EventType::ExitSignalGenerated,
                derived_nonce(nonce, k));
            crate::events::lemma_derived_nonce_len(nonce, k);
            crate::bus::lemma_seen_push(pre.keys_view(), pushed,
                event_key(EventType::ExitSignalGenerated, derived_nonce(nonce, k)));
        }
        crate::bus::lemma_seen_push(pre.keys_view(), pushed,
            event_key(EventType::VixSpike, nonce));
        crate::bus::lemma_seen_push(pre.keys_view(), pushed,
            event_key(EventType::VixNormalResumed, nonce));
    }
}

/// Publishing the loss-limit record leaves the derived exit keys fresh:
/// every derived key is strictly longer than the breach key.
proof fn lemma_loss_keys_still_fresh(pre: EventBus, post: EventBus, nonce: Seq<char>, n: int)
    requires
        post.keys_view() == pre.keys_view()
            || post.keys_view() == pre.keys_view().push(
                event_key(EventType::DailyLossLimitBreached, nonce)),
        forall|k: int| 0 <= k < n
            ==> !pre.spec_seen(#[trigger] event_key(EventType::ExitSignalGenerated,
                derived_nonce(nonce, k))),
    ensures
        forall|k: int| 0 <= k < n
            ==> !post.spec_seen(#[trigger] event_key(EventType::ExitSignalGenerated,
                derived_nonce(nonce, k))),
{
    reveal_strlit("DAILY_LOSS_LIMIT_BREACHED");
    reveal_strlit("EXIT_SIGNAL_GENERATED");
    assert(crate::events::spec_wire_name(EventType::DailyLossLimitBreached).len() == 25);
    assert(crate::events::spec_wire_name(EventType::ExitSignalGenerated).len() == 21);
    crate::events::lemma_event_key_len(EventType::DailyLossLimitBreached, nonce);
    if post.keys_view() != pre.keys_view() {
        assert forall|k: int| 0 <= k < n
            implies !post.spec_seen(#[trigger] event_key(EventType::ExitSignalGenerated,
                derived_nonce(nonce, k))) by {
            // The two keys differ already in their first character.
            assert(event_key(EventType::DailyLossLimitBreached, nonce)[0] == 'D');
            assert(event_key(EventType::ExitSignalGenerated,
                derived_nonce(nonce, k))[0] == 'E');
            crate::bus::lemma_seen_push(pre.keys_view(),
                event_key(EventType::DailyLossLimitBreached, nonce),
                event_key(EventType::ExitSignalGenerated, derived_nonce(nonce, k)));
        }
    }
}

/// Publish one mandatory `ExitSignalGenerated` per open position, in
/// order, under nonces derived per position.
fn publish_mandatory_exits(bus: &mut EventBus, ids: &Vec<String>, reason: &str, now_ms: i64,
    nonce: &String)
    requires
        old(bus).inv(),
        ids@.len() <= 1000,
        old(bus).log_view().len() + ids@.len() < 1_000_000_000,
        forall|k: int| 0 <= k < ids@.len()
            ==> !old(bus).spec_seen(#[trigger] event_key(EventType::ExitSignalGenerated,
                derived_nonce(nonce@, k))),
    ensures
        final(bus).inv(),
        final(bus).log_view().len() == old(bus).log_view().len() + ids@.len(),
        final(bus).log_view().take(old(bus).log_view().len() as int)
            == old(bus).log_view(),
        forall|k: int| 0 <= k < ids@.len() ==> {
            let e = #[trigger] final(bus).log_view()[old(bus).log_view().len() + k];
            &&& e.event_type == EventType::ExitSignalGenerated
            &&& (e.payload matches EventPayload::ExitSignalGenerated { position_id,
                primary_reason, priority, .. }
                && position_id@ == ids@[k]@
                && primary_reason@ == reason@
                && priority == 1u8)
        },
        forall|kk: Seq<char>| #[trigger] final(bus).spec_seen(kk)
            ==> old(bus).spec_seen(kk)
                || exists|q: int| 0 <= q < ids@.len()
                    && kk == event_key(EventType::ExitSignalGenerated,
                        derived_nonce(nonce@, q)),
{
    let n = ids.len();
    let mut k: usize = 0;
    while k < n
        invariant
            0 <= k <= n,
            n == ids@.len() <= 1000,
            bus.inv(),
            bus.log_view().len() == old(bus).log_view().len() + k,
            bus.log_view().take(old(bus).log_view().len() as int) == old(bus).log_view(),
            old(bus).log_view().len() + n < 1_000_000_000,
            forall|j: int| k <= j < n
                ==> !bus.spec_seen(#[trigger] event_key(EventType::ExitSignalGenerated,
                    derived_nonce(nonce@, j))),
            forall|kk: Seq<char>| #[trigger] bus.spec_seen(kk)
                ==> old(bus).spec_seen(kk)
                    || exists|q: int| 0 <= q < k
                        && kk == event_key(EventType::ExitSignalGenerated,
                            derived_nonce(nonce@, q)),
            forall|j: int| 0 <= j < k ==> {
                let e = #[trigger] bus.log_view()[old(bus).log_view().len() + j];
                &&& e.event_type == EventType::ExitSignalGenerated
                &&& (e.payload matches EventPayload::ExitSignalGenerated { position_id,
                    primary_reason, priority, .. }
                    && position_id@ == ids@[j]@
                    && primary_reason@ == reason@
                    && priority == 1u8)
            },
        decreases n - k,
    {
        let ghost bus0 = *bus;
        let item_nonce = make_derived_nonce(nonce, k);
        let payload = EventPayload::ExitSignalGenerated {
            position_id: clone_string(&ids[k]),
            primary_reason: String::from_str(reason),
            secondary_reasons: Vec::new(),
            priority: 1,
        };
        let event = Event::new(EventType::ExitSignalGenerated, payload, now_ms, item_nonce);
        match bus.publish(event) {
            Ok(_) => {},
            Err(_) => {},
        }
        proof {
            assert(bus.log_view().take(old(bus).log_view().len() as int)
                =~= bus0.log_view().take(old(bus).log_view().len() as int));
            assert forall|j: int| k as int + 1 <= j < n
                implies !bus.spec_seen(#[trigger] event_key(EventType::ExitSignalGenerated,
                    derived_nonce(nonce@, j))) by {
                crate::bus::lemma_seen_push(bus0.keys_view(),
                    event_key(EventType::ExitSignalGenerated,
                        derived_nonce(nonce@, k as int)),
                    event_key(EventType::ExitSignalGenerated, derived_nonce(nonce@, j)));
                crate::events::lemma_derived_nonce_injective(nonce@, k as int, j);
                crate::events::lemma_event_key_nonce_injective(
                    EventType::ExitSignalGenerated, derived_nonce(nonce@, k as int),
                    derived_nonce(nonce@, j));
            }
            // Only the derived keys handed out so far have been seen.
            assert forall|kk: Seq<char>| #[trigger] bus.spec_seen(kk)
                implies old(bus).spec_seen(kk)
                    || exists|q: int| 0 <= q < k as int + 1
                        && kk == event_key(EventType::ExitSignalGenerated,
                            derived_nonce(nonce@, q)) by {
                crate::bus::lemma_seen_push(bus0.keys_view(),
                    event_key(EventType::ExitSignalGenerated,
                        derived_nonce(nonce@, k as int)), kk);
                if !bus0.spec_seen(kk) {
                    assert(kk == event_key(EventType::ExitSignalGenerated,
                        derived_nonce(nonce@, k as int)));
                }
            }
            assert forall|j: int| 0 <= j < k as int + 1 implies {
                let e = #[trigger] bus.log_view()[old(bus).log_view().len() + j];
                &&& e.event_type == EventType::ExitSignalGenerated
                &&& (e.payload matches EventPayload::ExitSignalGenerated { position_id,
                    primary_reason, priority, .. }
                    && position_id@ == ids@[j]@
                    && primary_reason@ == reason@
                    && priority == 1u8)
            } by {
                if j < k as int {
                    assert(bus.log_view()[old(bus).log_view().len() + j]
                        == bus0.log_view()[old(bus).log_view().len() + j]);
                } else {
                    assert(bus.log_view()[old(bus).log_view().len() + j]
                        == bus.log_view().last());
                }
            }
        }
        k = k + 1;
    }
}

} // verus!
