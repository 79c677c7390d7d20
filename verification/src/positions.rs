//! Position lifecycle: open, price update with stop / trailing / target
//! checks, close with PnL accounting.
//!
//! The manager is pure state: callers publish the event records that each
//! transition calls for.  The daily PnL accumulator always equals the sum
//! of the day's closed trades' net PnL.

use vstd::prelude::*;
use vstd::string::StringExecFns;
use crate::types::{Position, PositionStatus, Trade, MAX_PREMIUM, MAX_QUANTITY};
use crate::error::TradingError;
use crate::store::clone_string;
use crate::bus::EventBus;
use crate::events::{event_key, Event, EventPayload, EventType};

verus! {

/// Basis points in one whole (100%).
pub const BP_SCALE: i64 = 10_000;

/// Some live position carries this id.
pub open spec fn contains_id(ps: Seq<Position>, id: Seq<char>) -> bool {
    exists|i: int| 0 <= i < ps.len() && (#[trigger] ps[i]).position_id@ == id
}

/// Sum of net PnL over a trade sequence.
pub open spec fn sum_net_pnl(trades: Seq<Trade>) -> int
    decreases trades.len(),
{
    if trades.len() == 0 {
        0
    } else {
        sum_net_pnl(trades.drop_last()) + trades.last().pnl_net
    }
}

pub proof fn lemma_sum_net_pnl_bounds(trades: Seq<Trade>, bound: int)
    requires
        0 <= bound,
        forall|i: int| 0 <= i < trades.len()
            ==> -bound <= (#[trigger] trades[i]).pnl_net <= bound,
    ensures
        -(trades.len() * bound) <= sum_net_pnl(trades) <= trades.len() * bound,
    decreases trades.len(),
{
    if trades.len() == 0 {
    } else {
        lemma_sum_net_pnl_bounds(trades.drop_last(), bound);
        assert((trades.len() - 1) * bound + bound == trades.len() * bound) by (nonlinear_arith);
    }
}

/// Signed relative change in basis points, rounded toward zero.
pub open spec fn spec_pnl_pct(entry: int, price: int) -> int {
    if price >= entry {
        (price - entry) * (BP_SCALE as int) / entry
    } else {
        -((entry - price) * (BP_SCALE as int) / entry)
    }
}

/// A trailing level one gap below the price.
pub open spec fn spec_trail_candidate(price: int, gap_bp: int) -> int {
    price * (BP_SCALE as int - gap_bp) / (BP_SCALE as int)
}

/// The trailing candidate lies between zero and the price.
pub proof fn lemma_trail_candidate_bounds(price: int, gap_bp: int)
    requires
        0 <= price,
        0 <= gap_bp < BP_SCALE,
    ensures
        0 <= spec_trail_candidate(price, gap_bp) <= price,
        0 <= price * (BP_SCALE as int - gap_bp) <= price * (BP_SCALE as int),
{
    let num = price * (BP_SCALE as int - gap_bp);
    assert(0 <= num <= price * (BP_SCALE as int)) by (nonlinear_arith)
        requires 0 <= price, 0 <= BP_SCALE as int - gap_bp <= BP_SCALE as int,
            num == price * (BP_SCALE as int - gap_bp);
    vstd::arithmetic::div_mod::lemma_div_pos_is_pos(num, BP_SCALE as int);
    assert(num / (BP_SCALE as int) <= (price * (BP_SCALE as int)) / (BP_SCALE as int)) by {
        vstd::arithmetic::div_mod::lemma_div_is_ordered(num, price * (BP_SCALE as int),
            BP_SCALE as int);
    }
    assert((price * (BP_SCALE as int)) / (BP_SCALE as int) == price) by {
        assert(price * (BP_SCALE as int) == (BP_SCALE as int) * price) by (nonlinear_arith);
        vstd::arithmetic::div_mod::lemma_div_multiples_vanish(price, BP_SCALE as int);
    }
}

/// The trailing ratchet fires: trailing is on and active and the
/// candidate exceeds the current stop.
pub open spec fn ratchet_fires(p: Position, price: int, use_ts: bool, gap_bp: int) -> bool {
    use_ts && p.trailing_active && p.trailing_stop is Some
        && spec_trail_candidate(price, gap_bp) > p.trailing_stop->0
}

/// Trailing activation fires: trailing is on, not yet active, and the
/// PnL has reached the activation level.
pub open spec fn activation_fires(p: Position, price: int, use_ts: bool, act_bp: int) -> bool {
    use_ts && !p.trailing_active
        && spec_pnl_pct(p.entry_price as int, price) >= act_bp
}

/// The position after a price refresh: price, PnL, trailing ratchet and
/// trailing activation, in that order.
pub open spec fn spec_update(p: Position, price: int, use_ts: bool, act_bp: int,
    gap_bp: int) -> Position {
    let pnl = (price - p.entry_price) * p.quantity;
    let pnl_pct = spec_pnl_pct(p.entry_price as int, price);
    let cand = spec_trail_candidate(price, gap_bp);
    let p1 = Position {
        current_price: price as i64,
        pnl: pnl as i64,
        pnl_pct: pnl_pct as i64,
        ..p
    };
    let p2 = if use_ts && p1.trailing_active && p1.trailing_stop is Some
        && cand > p1.trailing_stop->0 {
        Position { trailing_stop: Some(cand as i64), ..p1 }
    } else {
        p1
    };
    if use_ts && !p2.trailing_active && pnl_pct >= act_bp {
        Position { trailing_active: true, trailing_stop: Some(cand as i64), ..p2 }
    } else {
        p2
    }
}

/// Which exit fires for the refreshed position, first match wins:
/// stop-loss, then trailing stop, then target.
pub open spec fn spec_exit(p: Position, price: int) -> Option<Seq<char>> {
    if price <= p.stop_loss {
        Some("STOP_LOSS"@)
    } else if p.trailing_active && p.trailing_stop is Some && price <= p.trailing_stop->0 {
        Some("TRAILING_STOP"@)
    } else if p.target is Some && price >= p.target->0 {
        Some("TARGET"@)
    } else {
        None
    }
}

/// Gross PnL of a close.
pub open spec fn spec_pnl_gross(entry: int, exit: int, qty: int) -> int {
    (exit - entry) * qty
}

/// Brokerage estimate: 3 basis points of the exit notional, with a floor
/// of twenty rupees.
pub open spec fn spec_brokerage(exit: int, qty: int) -> int {
    let fee = exit * qty * 3 / (BP_SCALE as int);
    if fee >= 2000 { fee } else { 2000 }
}

pub struct PositionManager {
    positions: Vec<Position>,
    trades: Vec<Trade>,
    daily_pnl: i64,
    use_trailing_stop: bool,
    trail_activate_pnl_pct: i64,
    trail_gap_pct: i64,
}

impl PositionManager {
    /// Live positions, in opening order.
    pub closed spec fn live(&self) -> Seq<Position> {
        self.positions@
    }

    /// Closed trades of the day, in closing order.
    pub closed spec fn daily_trades(&self) -> Seq<Trade> {
        self.trades@
    }

    pub closed spec fn pnl(&self) -> int {
        self.daily_pnl as int
    }

    pub closed spec fn cfg_use_ts(&self) -> bool {
        self.use_trailing_stop
    }

    pub closed spec fn cfg_act_bp(&self) -> int {
        self.trail_activate_pnl_pct as int
    }

    pub closed spec fn cfg_gap_bp(&self) -> int {
        self.trail_gap_pct as int
    }

    /// Live position ids are unique, every entity is well formed, and the
    /// daily PnL accumulator equals the sum of the day's trades' net PnL.
    pub open spec fn inv(&self) -> bool {
        &&& forall|i: int, j: int| 0 <= i < j < self.live().len()
            ==> (#[trigger] self.live()[i]).position_id@ != (#[trigger] self.live()[j]).position_id@
        &&& forall|i: int| 0 <= i < self.live().len()
            ==> (#[trigger] self.live()[i]).well_formed()
        &&& forall|i: int| 0 <= i < self.daily_trades().len()
            ==> -2_000_000_000_000_000 <= (#[trigger] self.daily_trades()[i]).pnl_net
                <= 2_000_000_000_000_000
        &&& self.live().len() <= 1000
        &&& self.daily_trades().len() <= 1000
        &&& self.pnl() == sum_net_pnl(self.daily_trades())
        &&& 0 <= self.cfg_gap_bp() < BP_SCALE
        &&& 0 <= self.cfg_act_bp()
    }

    pub fn new(use_trailing_stop: bool, trail_activate_pnl_pct: i64, trail_gap_pct: i64) -> (
        r: PositionManager)
        requires
            0 <= trail_gap_pct < BP_SCALE,
            0 <= trail_activate_pnl_pct,
        ensures
            r.inv(),
            r.live() == Seq::<Position>::empty(),
            r.daily_trades() == Seq::<Trade>::empty(),
            r.pnl() == 0,
            r.cfg_use_ts() == use_trailing_stop,
            r.cfg_act_bp() == trail_activate_pnl_pct,
            r.cfg_gap_bp() == trail_gap_pct,
    {
        PositionManager {
            positions: Vec::new(),
            trades: Vec::new(),
            daily_pnl: 0,
            use_trailing_stop,
            trail_activate_pnl_pct,
            trail_gap_pct,
        }
    }

    /// Index of a live position by id.
    fn find(&self, position_id: &str) -> (r: Option<usize>)
        ensures
            match r {
                Some(i) => i < self.live().len()
                    && self.live()[i as int].position_id@ == position_id@,
                None => forall|i: int| 0 <= i < self.live().len()
                    ==> (#[trigger] self.live()[i]).position_id@ != position_id@,
            },
    {
        let mut i: usize = 0;
        while i < self.positions.len()
            invariant
                0 <= i <= self.live().len(),
                forall|j: int| 0 <= j < i
                    ==> (#[trigger] self.live()[j]).position_id@ != position_id@,
            decreases self.live().len() - i,
        {
            if crate::types::str_eq(self.positions[i].position_id.as_str(), position_id) {
                return Some(i);
            }
            i = i + 1;
        }
        None
    }

    /// Open a position and publish `PositionOpened`; a duplicate id is
    /// refused and nothing changes, not even the event log.
    pub fn open_position(&mut self, position: Position, bus: &mut EventBus, now_ms: i64,
        nonce: String) -> (r: Result<(), TradingError>)
        requires
            old(self).inv(),
            old(bus).inv(),
            position.well_formed(),
            old(self).live().len() < 1000,
            old(bus).log_view().len() < 999_999_000,
            !old(bus).spec_seen(event_key(EventType::PositionOpened, nonce@)),
        ensures
            final(self).inv(),
            final(bus).inv(),
            final(bus).keys_view() == old(bus).keys_view()
                || final(bus).keys_view() == old(bus).keys_view().push(
                    event_key(EventType::PositionOpened, nonce@)),
            contains_id(old(self).live(), position.position_id@) ==> r is Err
                && final(self).live() == old(self).live()
                && final(bus).log_view() == old(bus).log_view()
                && final(bus).keys_view() == old(bus).keys_view(),
            !contains_id(old(self).live(), position.position_id@) ==> r is Ok
                && final(self).live() == old(self).live().push(position)
                && final(bus).log_view().len() == old(bus).log_view().len() + 1
                && final(bus).log_view().last().event_type == EventType::PositionOpened
                && (final(bus).log_view().last().payload matches
                    EventPayload::PositionOpened { position_id, symbol, quantity,
                        entry_price, entry_reason }
                    && position_id@ == position.position_id@
                    && symbol@ == position.symbol@
                    && quantity == position.quantity
                    && entry_price == position.entry_price
                    && entry_reason@ == position.entry_reason@),
            final(self).daily_trades() == old(self).daily_trades(),
            final(self).pnl() == old(self).pnl(),
    {
        match self.find(position.position_id.as_str()) {
            Some(_) => {
                proof {
                    assert(contains_id(old(self).live(), position.position_id@));
                }
                Err(TradingError::DuplicatePosition(clone_string(&position.position_id)))
            },
            None => {
                proof {
                    if contains_id(old(self).live(), position.position_id@) {
                        let i = choose|i: int| 0 <= i < old(self).live().len()
                            && (#[trigger] old(self).live()[i]).position_id@
                                == position.position_id@;
                        assert(false);
                    }
                }
                let payload = EventPayload::PositionOpened {
                    position_id: clone_string(&position.position_id),
                    symbol: clone_string(&position.symbol),
                    quantity: position.quantity,
                    entry_price: position.entry_price,
                    entry_reason: clone_string(&position.entry_reason),
                };
                let event = Event::new(EventType::PositionOpened, payload, now_ms, nonce);
                match bus.publish(event) {
                    Ok(_) => {},
                    Err(_) => {},
                }
                self.positions.push(position);
                Ok(())
            },
        }
    }

    /// Refresh a position with the latest price: PnL is recomputed, the
    /// trailing stop is activated or ratcheted, and the first matching
    /// exit (stop-loss, trailing stop, target) is reported.
    pub fn update_position(&mut self, position_id: &str, current_price: i64,
        bus: &mut EventBus, now_ms: i64, nonce: String) -> (r: Result<
        Option<String>, TradingError>)
        requires
            old(self).inv(),
            old(bus).inv(),
            0 <= current_price <= MAX_PREMIUM,
            old(bus).log_view().len() < 999_999_000,
            !old(bus).spec_seen(event_key(EventType::TrailingStopUpdated, nonce@)),
            !old(bus).spec_seen(event_key(EventType::TrailingStopActivated, nonce@)),
            !old(bus).spec_seen(event_key(EventType::StopLossTriggered, nonce@)),
            !old(bus).spec_seen(event_key(EventType::TargetReached, nonce@)),
            !old(bus).spec_seen(event_key(EventType::PositionUpdated, nonce@)),
        ensures
            final(self).inv(),
            final(bus).inv(),
            final(self).daily_trades() == old(self).daily_trades(),
            final(self).pnl() == old(self).pnl(),
            forall|k: Seq<char>| #[trigger] final(bus).spec_seen(k)
                ==> old(bus).spec_seen(k)
                    || k == event_key(EventType::TrailingStopUpdated, nonce@)
                    || k == event_key(EventType::TrailingStopActivated, nonce@)
                    || k == event_key(EventType::StopLossTriggered, nonce@)
                    || k == event_key(EventType::TargetReached, nonce@)
                    || k == event_key(EventType::PositionUpdated, nonce@),
            (forall|i: int| 0 <= i < old(self).live().len()
                ==> (#[trigger] old(self).live()[i]).position_id@ != position_id@)
                ==> r is Err,
            r is Err ==> final(self).live() == old(self).live()
                && final(bus).log_view() == old(bus).log_view()
                && final(bus).keys_view() == old(bus).keys_view()
                && (forall|i: int| 0 <= i < old(self).live().len()
                    ==> (#[trigger] old(self).live()[i]).position_id@ != position_id@),
            r matches Ok(exit) ==> exists|i: int| {
                &&& 0 <= i < old(self).live().len()
                &&& (#[trigger] old(self).live()[i]).position_id@ == position_id@
                &&& final(self).live() == old(self).live().update(i,
                    spec_update(old(self).live()[i], current_price as int,
                        old(self).cfg_use_ts(), old(self).cfg_act_bp(), old(self).cfg_gap_bp()))
                &&& (match exit {
                    Some(s) => spec_exit(spec_update(old(self).live()[i], current_price as int,
                        old(self).cfg_use_ts(), old(self).cfg_act_bp(),
                        old(self).cfg_gap_bp()), current_price as int) == Some(s@),
                    None => spec_exit(spec_update(old(self).live()[i], current_price as int,
                        old(self).cfg_use_ts(), old(self).cfg_act_bp(),
                        old(self).cfg_gap_bp()), current_price as int) is None,
                })
                &&& ({
                    let p0 = old(self).live()[i];
                    let cand = spec_trail_candidate(current_price as int,
                        old(self).cfg_gap_bp());
                    let pnew = spec_update(p0, current_price as int, old(self).cfg_use_ts(),
                        old(self).cfg_act_bp(), old(self).cfg_gap_bp());
                    let ex = spec_exit(pnew, current_price as int);
                    let trail_evts: int = if ratchet_fires(p0, current_price as int,
                        old(self).cfg_use_ts(), old(self).cfg_gap_bp())
                        || activation_fires(p0, current_price as int, old(self).cfg_use_ts(),
                            old(self).cfg_act_bp()) { 1 } else { 0 };
                    let exit_evts: int = match ex {
                        Some(sx) => if sx == "TRAILING_STOP"@ { 0int } else { 1int },
                        None => 1int,
                    };
                    let base = old(bus).log_view().len() as int;
                    &&& final(bus).log_view().len() == base + trail_evts + exit_evts
                    &&& (ratchet_fires(p0, current_price as int, old(self).cfg_use_ts(),
                        old(self).cfg_gap_bp()) ==> {
                        &&& final(bus).log_view()[base].event_type
                            == EventType::TrailingStopUpdated
                        &&& (final(bus).log_view()[base].payload matches
                            EventPayload::TrailingStopUpdated { position_id: pid,
                                new_trail_stop, high_price }
                            && pid@ == position_id@ && new_trail_stop == cand
                            && high_price == current_price)
                    })
                    &&& (activation_fires(p0, current_price as int, old(self).cfg_use_ts(),
                        old(self).cfg_act_bp()) ==> {
                        &&& final(bus).log_view()[base].event_type
                            == EventType::TrailingStopActivated
                        &&& (final(bus).log_view()[base].payload matches
                            EventPayload::TrailingStopActivated { position_id: pid,
                                activation_pnl_pct, trail_stop }
                            && pid@ == position_id@
                            && activation_pnl_pct == spec_pnl_pct(p0.entry_price as int,
                                current_price as int)
                            && trail_stop == cand)
                    })
                    &&& (ex == Some("STOP_LOSS"@) ==> {
                        &&& final(bus).log_view()[base + trail_evts].event_type
                            == EventType::StopLossTriggered
                        &&& (final(bus).log_view()[base + trail_evts].payload matches
                            EventPayload::StopLossTriggered { position_id: pid, stop_loss,
                                current_price: cp }
                            && pid@ == position_id@ && stop_loss == p0.stop_loss
                            && cp == current_price)
                    })
                    &&& (ex == Some("TARGET"@) ==> {
                        &&& final(bus).log_view()[base + trail_evts].event_type
                            == EventType::TargetReached
                        &&& (final(bus).log_view()[base + trail_evts].payload matches
                            EventPayload::TargetReached { position_id: pid, target,
                                current_price: cp }
                            && pid@ == position_id@ && cp == current_price)
                    })
                    &&& (ex is None ==> {
                        &&& final(bus).log_view()[base + trail_evts].event_type
                            == EventType::PositionUpdated
                        &&& (final(bus).log_view()[base + trail_evts].payload matches
                            EventPayload::PositionUpdated { position_id: pid,
                                current_price: cp, pnl, pnl_pct: pp }
                            && pid@ == position_id@ && cp == current_price)
                    })
                })
            },
    {
        let idx = match self.find(position_id) {
            Some(i) => i,
            None => {
                return Err(TradingError::PositionNotFound(String::from_str(
                    position_id)));
            },
        };
        let ghost p0 = self.positions@[idx as int];
        let mut p = self.positions.remove(idx);
        proof {
            assert(p.well_formed());
        }
        let entry = p.entry_price;
        p.current_price = current_price;
        let diff_pos = current_price >= entry;
        proof {
            assert(-(MAX_PREMIUM * MAX_QUANTITY) <= (current_price - entry) as int * p.quantity
                <= MAX_PREMIUM * MAX_QUANTITY) by (nonlinear_arith)
                requires
                    -MAX_PREMIUM <= current_price - entry <= MAX_PREMIUM,
                    0 < p.quantity <= MAX_QUANTITY;
        }
        p.pnl = (current_price - entry) * p.quantity;
        let pnl_pct = if diff_pos {
            (current_price - entry) * BP_SCALE / entry
        } else {
            -((entry - current_price) * BP_SCALE / entry)
        };
        p.pnl_pct = pnl_pct;
        proof {
            lemma_trail_candidate_bounds(current_price as int, self.trail_gap_pct as int);
        }
        let cand = current_price * (BP_SCALE - self.trail_gap_pct) / BP_SCALE;
        let mut ratcheted = false;
        let mut activated = false;
        if self.use_trailing_stop && p.trailing_active {
            match p.trailing_stop {
                Some(cur) => {
                    if cand > cur {
                        p.trailing_stop = Some(cand);
                        ratcheted = true;
                    }
                },
                None => {},
            }
        }
        if self.use_trailing_stop && !p.trailing_active && pnl_pct >= self.trail_activate_pnl_pct {
            p.trailing_active = true;
            p.trailing_stop = Some(cand);
            activated = true;
        }
        let mut exit_is_stop = false;
        let mut exit_is_target = false;
        let mut exit_is_none = false;
        let exit: Option<String> = if current_price <= p.stop_loss {
            exit_is_stop = true;
            Some(String::from_str("STOP_LOSS"))
        } else {
            let trail_hit = if p.trailing_active {
                match p.trailing_stop {
                    Some(t) => current_price <= t,
                    None => false,
                }
            } else {
                false
            };
            if trail_hit {
                Some(String::from_str("TRAILING_STOP"))
            } else {
                let target_hit = match p.target {
                    Some(t) => current_price >= t,
                    None => false,
                };
                if target_hit {
                    exit_is_target = true;
                    Some(String::from_str("TARGET"))
                } else {
                    exit_is_none = true;
                    None
                }
            }
        };
        let ghost pnew = spec_update(p0, current_price as int, self.use_trailing_stop,
            self.trail_activate_pnl_pct as int, self.trail_gap_pct as int);
        proof {
            assert(p == pnew);
        }
        proof {
            reveal_strlit("STOP_LOSS");
            reveal_strlit("TRAILING_STOP");
            reveal_strlit("TARGET");
            assert(ratcheted == ratchet_fires(p0, current_price as int,
                old(self).cfg_use_ts(), old(self).cfg_gap_bp()));
            assert(activated == activation_fires(p0, current_price as int,
                old(self).cfg_use_ts(), old(self).cfg_act_bp()));
            assert(!(ratcheted && activated));
            let ex = spec_exit(pnew, current_price as int);
            assert("STOP_LOSS"@.len() == 9);
            assert("TRAILING_STOP"@.len() == 13);
            assert("TARGET"@.len() == 6);
            assert("STOP_LOSS"@ != "TRAILING_STOP"@);
            assert("TARGET"@ != "TRAILING_STOP"@);
            if exit_is_stop {
                assert(ex == Some("STOP_LOSS"@));
            } else if exit_is_target {
                assert(ex == Some("TARGET"@));
            } else if exit_is_none {
                assert(ex is None);
            } else {
                assert(ex == Some("TRAILING_STOP"@));
            }
        }
        let pid_for_events = clone_string(&p.position_id);
        let stop_loss_level = p.stop_loss;
        let target_level = match p.target {
            Some(t) => t,
            None => 0,
        };
        let pnl_for_events = p.pnl;
        self.positions.insert(idx, p);
        proof {
            assert(self.positions@ =~= old(self).live().update(idx as int, pnew));
        }
        // Publish the trailing-stop transition, then the exit decision.
        let ghost bus0 = *bus;
        let mut first_kind: Option<EventType> = None;
        if ratcheted {
            let payload = EventPayload::TrailingStopUpdated {
                position_id: clone_string(&pid_for_events),
                new_trail_stop: cand,
                high_price: current_price,
            };
            let event = Event::new(EventType::TrailingStopUpdated, payload, now_ms,
                clone_string(&nonce));
            match bus.publish(event) {
                Ok(_) => {},
                Err(_) => {},
            }
            first_kind = Some(EventType::TrailingStopUpdated);
        } else if activated {
            let payload = EventPayload::TrailingStopActivated {
                position_id: clone_string(&pid_for_events),
                activation_pnl_pct: pnl_pct,
                trail_stop: cand,
            };
            let event = Event::new(EventType::TrailingStopActivated, payload, now_ms,
                clone_string(&nonce));
            match bus.publish(event) {
                Ok(_) => {},
                Err(_) => {},
            }
            first_kind = Some(EventType::TrailingStopActivated);
        }
        proof {
            lemma_second_keys_fresh(bus0, *bus, nonce@, first_kind);
        }
        let ghost bus_mid = *bus;
        if exit_is_stop {
            let payload = EventPayload::StopLossTriggered {
                position_id: pid_for_events,
                stop_loss: stop_loss_level,
                current_price,
            };
            let event = Event::new(EventType::StopLossTriggered, payload, now_ms, nonce);
            match bus.publish(event) {
                Ok(_) => {},
                Err(_) => {},
            }
        } else if exit_is_target {
            let payload = EventPayload::TargetReached {
                position_id: pid_for_events,
                target: target_level,
                current_price,
            };
            let event = Event::new(EventType::TargetReached, payload, now_ms, nonce);
            match bus.publish(event) {
                Ok(_) => {},
                Err(_) => {},
            }
        } else if exit_is_none {
            let payload = EventPayload::PositionUpdated {
                position_id: pid_for_events,
                current_price,
                pnl: pnl_for_events,
                pnl_pct,
            };
            let event = Event::new(EventType::PositionUpdated, payload, now_ms, nonce);
            match bus.publish(event) {
                Ok(_) => {},
                Err(_) => {},
            }
        }
        proof {
            assert forall|k: Seq<char>| #[trigger] bus.spec_seen(k)
                implies bus0.spec_seen(k)
                    || k == event_key(EventType::TrailingStopUpdated, nonce@)
                    || k == event_key(EventType::TrailingStopActivated, nonce@)
                    || k == event_key(EventType::StopLossTriggered, nonce@)
                    || k == event_key(EventType::TargetReached, nonce@)
                    || k == event_key(EventType::PositionUpdated, nonce@) by {
                crate::bus::lemma_seen_push(bus_mid.keys_view(),
                    event_key(EventType::StopLossTriggered, nonce@), k);
                crate::bus::lemma_seen_push(bus_mid.keys_view(),
                    event_key(EventType::TargetReached, nonce@), k);
                crate::bus::lemma_seen_push(bus_mid.keys_view(),
                    event_key(EventType::PositionUpdated, nonce@), k);
                crate::bus::lemma_seen_push(bus0.keys_view(),
                    event_key(EventType::TrailingStopUpdated, nonce@), k);
                crate::bus::lemma_seen_push(bus0.keys_view(),
                    event_key(EventType::TrailingStopActivated, nonce@), k);
            }
        }
        Ok(exit)
    }

    /// Close a position at `exit_price`: the position leaves the live
    /// set, a trade is recorded and the daily PnL grows by the trade's
    /// net PnL.  The new trade's index is returned; an unknown id fails
    /// with `PositionNotFound`.
    pub fn close_position(&mut self, position_id: &str, exit_price: i64, exit_reason: String,
        trade_id: String, bus: &mut EventBus, now_ms: i64, nonce: String) -> (r: Result<usize,
        TradingError>)
        requires
            old(self).inv(),
            old(bus).inv(),
            0 <= exit_price <= MAX_PREMIUM,
            0 <= now_ms,
            old(self).daily_trades().len() < 1000,
            old(bus).log_view().len() < 999_999_000,
            !old(bus).spec_seen(event_key(EventType::PositionClosed, nonce@)),
        ensures
            final(self).inv(),
            final(bus).inv(),
            final(bus).keys_view() == old(bus).keys_view()
                || final(bus).keys_view() == old(bus).keys_view().push(
                    event_key(EventType::PositionClosed, nonce@)),
            (forall|i: int| 0 <= i < old(self).live().len()
                ==> (#[trigger] old(self).live()[i]).position_id@ != position_id@)
                ==> r is Err,
            r is Err ==> final(self).live() == old(self).live()
                && final(self).daily_trades() == old(self).daily_trades()
                && final(self).pnl() == old(self).pnl()
                && final(bus).log_view() == old(bus).log_view()
                && final(bus).keys_view() == old(bus).keys_view()
                && (forall|i: int| 0 <= i < old(self).live().len()
                    ==> (#[trigger] old(self).live()[i]).position_id@ != position_id@),
            r matches Ok(t) ==> {
                &&& t == old(self).daily_trades().len()
                &&& final(self).daily_trades().len() == old(self).daily_trades().len() + 1
                &&& final(self).daily_trades().drop_last() == old(self).daily_trades()
                &&& final(bus).log_view().drop_last() == old(bus).log_view()
                &&& exists|i: int| {
                    &&& 0 <= i < old(self).live().len()
                    &&& (#[trigger] old(self).live()[i]).position_id@ == position_id@
                    &&& final(self).live() == old(self).live().remove(i)
                    &&& ({
                        let p = old(self).live()[i];
                        let tr = final(self).daily_trades().last();
                        &&& tr.position_id@ == position_id@
                        &&& tr.exit_price == exit_price
                        &&& tr.pnl_gross == spec_pnl_gross(p.entry_price as int,
                            exit_price as int, p.quantity as int)
                        &&& tr.brokerage == spec_brokerage(exit_price as int, p.quantity as int)
                        &&& tr.pnl_net == tr.pnl_gross - tr.brokerage
                        &&& tr.quantity == p.quantity
                        &&& tr.entry_price == p.entry_price
                        &&& tr.exit_reason@ == exit_reason@
                    })
                }
                &&& final(self).pnl() == old(self).pnl()
                    + final(self).daily_trades().last().pnl_net
                &&& final(bus).log_view().len() == old(bus).log_view().len() + 1
                &&& final(bus).log_view().last().event_type == EventType::PositionClosed
                &&& (final(bus).log_view().last().payload matches
                    EventPayload::PositionClosed { position_id: pid, exit_price: xp,
                        exit_reason: xr, pnl_gross: pg, .. }
                    && pid@ == position_id@ && xp == exit_price
                    && xr@ == exit_reason@
                    && pg == final(self).daily_trades().last().pnl_gross)
            },
    {
        let idx = match self.find(position_id) {
            Some(i) => i,
            None => {
                return Err(TradingError::PositionNotFound(String::from_str(
                    position_id)));
            },
        };
        let ghost p0 = self.positions@[idx as int];
        let mut position = self.positions.remove(idx);
        proof {
            assert(p0.well_formed());
        }
        position.status = PositionStatus::Closed;
        let entry = position.entry_price;
        let qty = position.quantity;
        proof {
            assert(-(MAX_PREMIUM * MAX_QUANTITY) <= (exit_price - entry) as int * qty
                <= MAX_PREMIUM * MAX_QUANTITY) by (nonlinear_arith)
                requires
                    -MAX_PREMIUM <= exit_price - entry <= MAX_PREMIUM,
                    0 < qty <= MAX_QUANTITY;
            assert(0 <= exit_price as int * qty * 3 <= MAX_PREMIUM * MAX_QUANTITY * 3)
                by (nonlinear_arith)
                requires 0 <= exit_price <= MAX_PREMIUM, 0 < qty <= MAX_QUANTITY;
        }
        let pnl_gross = (exit_price - entry) * qty;
        let pnl_gross_pct = if exit_price >= entry {
            (exit_price - entry) * BP_SCALE / entry
        } else {
            -((entry - exit_price) * BP_SCALE / entry)
        };
        let fee = exit_price * qty * 3 / BP_SCALE;
        let brokerage = if fee >= 2000 { fee } else { 2000 };
        proof {
            let f = exit_price as int * qty * 3;
            vstd::arithmetic::div_mod::lemma_div_pos_is_pos(f, BP_SCALE as int);
            vstd::arithmetic::div_mod::lemma_div_nonincreasing(f, BP_SCALE as int);
        }
        let pnl_net = pnl_gross - brokerage;
        let high_price = if position.current_price >= entry { position.current_price } else {
            entry
        };
        let low_price = if position.current_price <= entry { position.current_price } else {
            entry
        };
        let duration_sec = if now_ms >= position.entry_time_ms {
            (now_ms - position.entry_time_ms) / 1000
        } else {
            0
        };
        let trade = Trade {
            trade_id,
            position_id: clone_string(&position.position_id),
            symbol: position.symbol,
            underlying: position.underlying,
            strike: position.strike,
            option_type: position.option_type,
            quantity: qty,
            entry_time_ms: position.entry_time_ms,
            entry_price: entry,
            entry_reason: position.entry_reason,
            exit_time_ms: now_ms,
            exit_price,
            exit_reason,
            secondary_reasons: Vec::new(),
            pnl_gross,
            pnl_gross_pct,
            pnl_net,
            brokerage,
            duration_sec,
            high_price,
            low_price,
            vix_at_entry: 0,
            vix_at_exit: 0,
        };
        let t_idx = self.trades.len();
        proof {
            lemma_sum_net_pnl_bounds(self.trades@, 2_000_000_000_000_000);
        }
        self.daily_pnl = self.daily_pnl + pnl_net;
        let payload = EventPayload::PositionClosed {
            position_id: clone_string(&trade.position_id),
            exit_price,
            exit_reason: clone_string(&trade.exit_reason),
            pnl_gross,
            pnl_gross_pct,
        };
        self.trades.push(trade);
        let event = Event::new(EventType::PositionClosed, payload, now_ms, nonce);
        match bus.publish(event) {
            Ok(_) => {},
            Err(_) => {},
        }
        proof {
            assert(self.trades@.drop_last() =~= old(self).daily_trades());
            assert(sum_net_pnl(self.trades@) == sum_net_pnl(old(self).daily_trades())
                + self.trades@.last().pnl_net);
        }
        Ok(t_idx)
    }

    /// Borrow a recorded trade.
    pub fn get_trade(&self, idx: usize) -> (r: &Trade)
        requires
            self.inv(),
            (idx as int) < self.daily_trades().len(),
        ensures
            *r == self.daily_trades()[idx as int],
    {
        &self.trades[idx]
    }

    /// Number of trades recorded today.
    pub fn trades_len(&self) -> (r: usize)
        requires
            self.inv(),
        ensures
            r == self.daily_trades().len(),
    {
        self.trades.len()
    }

    /// Copy of a live position by id.
    pub fn get_position(&self, position_id: &str) -> (r: Option<Position>)
        requires
            self.inv(),
        ensures
            match r {
                Some(p) => exists|i: int| 0 <= i < self.live().len()
                    && (#[trigger] self.live()[i]).position_id@ == position_id@
                    && p == self.live()[i],
                None => forall|i: int| 0 <= i < self.live().len()
                    ==> (#[trigger] self.live()[i]).position_id@ != position_id@,
            },
    {
        match self.find(position_id) {
            Some(i) => Some(clone_position(&self.positions[i])),
            None => None,
        }
    }

    /// Copies of all live positions, in opening order.
    pub fn get_open_positions(&self) -> (r: Vec<Position>)
        requires
            self.inv(),
        ensures
            r@ == self.live(),
    {
        let mut out: Vec<Position> = Vec::new();
        let mut i: usize = 0;
        while i < self.positions.len()
            invariant
                0 <= i <= self.live().len(),
                out@ == self.live().subrange(0, i as int),
            decreases self.live().len() - i,
        {
            out.push(clone_position(&self.positions[i]));
            proof {
                assert(out@ =~= self.live().subrange(0, i as int + 1));
            }
            i = i + 1;
        }
        proof {
            assert(out@ =~= self.live());
        }
        out
    }

    /// Ids of all live positions, in opening order.
    pub fn open_position_ids(&self) -> (r: Vec<String>)
        requires
            self.inv(),
        ensures
            r@.len() == self.live().len(),
            forall|i: int| 0 <= i < r@.len()
                ==> (#[trigger] r@[i])@ == self.live()[i].position_id@,
    {
        let mut out: Vec<String> = Vec::new();
        let mut i: usize = 0;
        while i < self.positions.len()
            invariant
                0 <= i <= self.live().len(),
                out@.len() == i,
                forall|j: int| 0 <= j < i
                    ==> (#[trigger] out@[j])@ == self.live()[j].position_id@,
            decreases self.live().len() - i,
        {
            out.push(clone_string(&self.positions[i].position_id));
            i = i + 1;
        }
        out
    }

    /// Today's accumulated net PnL.
    pub fn get_daily_pnl(&self) -> (r: i64)
        requires
            self.inv(),
        ensures
            r == self.pnl(),
            r == sum_net_pnl(self.daily_trades()),
    {
        self.daily_pnl
    }

    /// Start a fresh trading day: the PnL accumulator and the (already
    /// persisted) trade list are cleared together.
    pub fn reset_daily_pnl(&mut self)
        requires
            old(self).inv(),
        ensures
            final(self).inv(),
            final(self).pnl() == 0,
            final(self).daily_trades() == Seq::<Trade>::empty(),
            final(self).live() == old(self).live(),
    {
        self.daily_pnl = 0;
        self.trades = Vec::new();
    }

    /// Close every live position at its last seen price, oldest first:
    /// one trade and one `PositionClosed` record per position, each trade
    /// at the position's last `current_price` with the given reason.
    pub fn close_all_positions(&mut self, reason: &str, bus: &mut EventBus, now_ms: i64,
        nonce: String) -> (r: Result<usize, TradingError>)
        requires
            old(self).inv(),
            old(bus).inv(),
            0 <= now_ms,
            old(self).daily_trades().len() + old(self).live().len() <= 1000,
            old(bus).log_view().len() + old(self).live().len() < 999_999_000,
            forall|k: int| 0 <= k < old(self).live().len()
                ==> !old(bus).spec_seen(#[trigger] event_key(EventType::PositionClosed,
                    crate::events::derived_nonce(nonce@, k))),
        ensures
            final(self).inv(),
            final(bus).inv(),
            r is Ok,
            r matches Ok(n) ==> {
                &&& n == old(self).live().len()
                &&& final(self).live().len() == 0
                &&& final(self).daily_trades().len() == old(self).daily_trades().len()
                    + old(self).live().len()
            },
            final(bus).log_view().len() == old(bus).log_view().len()
                + old(self).live().len(),
            forall|k: Seq<char>| #[trigger] final(bus).spec_seen(k)
                ==> old(bus).spec_seen(k)
                    || exists|q: int| 0 <= q < old(self).live().len()
                        && k == event_key(EventType::PositionClosed,
                            crate::events::derived_nonce(nonce@, q)),
            forall|k: int| 0 <= k < old(self).live().len() ==> {
                let tr = #[trigger] final(self).daily_trades()[
                    old(self).daily_trades().len() + k];
                &&& tr.position_id@ == old(self).live()[k].position_id@
                &&& tr.exit_price == old(self).live()[k].current_price
                &&& tr.exit_reason@ == reason@
            },
            forall|k: int| 0 <= k < old(self).live().len() ==> {
                let e = #[trigger] final(bus).log_view()[old(bus).log_view().len() + k];
                &&& e.event_type == EventType::PositionClosed
                &&& (e.payload matches EventPayload::PositionClosed { position_id: pid,
                    exit_price: xp, exit_reason: xr, .. }
                    && pid@ == old(self).live()[k].position_id@
                    && xp == old(self).live()[k].current_price
                    && xr@ == reason@)
            },
    {
        let mut closed: usize = 0;
        let ghost n0 = self.live().len();
        while self.positions.len() > 0
            invariant
                self.inv(),
                bus.inv(),
                0 <= now_ms,
                self.live().len() + closed == n0,
                self.live() == old(self).live().skip(closed as int),
                self.daily_trades().len() == old(self).daily_trades().len() + closed,
                old(self).daily_trades().len() + n0 <= 1000,
                n0 == old(self).live().len(),
                bus.log_view().len() == old(bus).log_view().len() + closed,
                old(bus).log_view().len() + n0 < 999_999_000,
                forall|k: int| closed <= k < n0
                    ==> !bus.spec_seen(#[trigger] event_key(EventType::PositionClosed,
                        crate::events::derived_nonce(nonce@, k))),
                forall|k: Seq<char>| #[trigger] bus.spec_seen(k)
                    ==> old(bus).spec_seen(k)
                        || exists|q: int| 0 <= q < closed
                            && k == event_key(EventType::PositionClosed,
                                crate::events::derived_nonce(nonce@, q)),
                forall|k: int| 0 <= k < closed ==> {
                    let tr = #[trigger] self.daily_trades()[
                        old(self).daily_trades().len() + k];
                    &&& tr.position_id@ == old(self).live()[k].position_id@
                    &&& tr.exit_price == old(self).live()[k].current_price
                    &&& tr.exit_reason@ == reason@
                },
                forall|k: int| 0 <= k < closed ==> {
                    let e = #[trigger] bus.log_view()[old(bus).log_view().len() + k];
                    &&& e.event_type == EventType::PositionClosed
                    &&& (e.payload matches EventPayload::PositionClosed { position_id: pid,
                        exit_price: xp, exit_reason: xr, .. }
                        && pid@ == old(self).live()[k].position_id@
                        && xp == old(self).live()[k].current_price
                        && xr@ == reason@)
                },
            decreases self.live().len(),
        {
            let id = clone_string(&self.positions[0].position_id);
            let price = self.positions[0].current_price;
            let trade_id = clone_string(&self.positions[0].position_id);
            let item_nonce = crate::events::make_derived_nonce(&nonce, closed);
            let ghost bus0 = *bus;
            let ghost trades0 = self.daily_trades();
            let ghost live0 = self.live();
            proof {
                assert(self.live()[0].well_formed());
                assert(self.live()[0] == old(self).live()[closed as int]);
            }
            match self.close_position(id.as_str(), price, String::from_str(reason),
                trade_id, bus, now_ms, item_nonce) {
                Ok(_) => {},
                Err(_) => {
                    proof {
                        assert(live0[0].position_id@ == id@);
                        assert(false);
                    }
                },
            }
            proof {
                // The closed position was the head (ids are unique), so
                // the live list advanced by one.
                let i = choose|i: int| 0 <= i < live0.len()
                    && (#[trigger] live0[i]).position_id@ == id@
                    && self.live() == live0.remove(i);
                if i != 0 {
                    assert(live0[0].position_id@ == id@);
                }
                assert(self.live() =~= old(self).live().skip(closed as int + 1));
                // Freshness of the remaining derived keys.
                assert forall|k: int| closed as int + 1 <= k < n0
                    implies !bus.spec_seen(#[trigger] event_key(EventType::PositionClosed,
                        crate::events::derived_nonce(nonce@, k))) by {
                    crate::bus::lemma_seen_push(bus0.keys_view(),
                        event_key(EventType::PositionClosed,
                            crate::events::derived_nonce(nonce@, closed as int)),
                        event_key(EventType::PositionClosed,
                            crate::events::derived_nonce(nonce@, k)));
                    crate::events::lemma_derived_nonce_injective(nonce@, closed as int, k);
                    crate::events::lemma_event_key_nonce_injective(EventType::PositionClosed,
                        crate::events::derived_nonce(nonce@, closed as int),
                        crate::events::derived_nonce(nonce@, k));
                }
                // Only the derived keys handed out so far have been seen.
                assert forall|k: Seq<char>| #[trigger] bus.spec_seen(k)
                    implies old(bus).spec_seen(k)
                        || exists|q: int| 0 <= q < closed as int + 1
                            && k == event_key(EventType::PositionClosed,
                                crate::events::derived_nonce(nonce@, q)) by {
                    crate::bus::lemma_seen_push(bus0.keys_view(),
                        event_key(EventType::PositionClosed,
                            crate::events::derived_nonce(nonce@, closed as int)), k);
                    if !bus0.spec_seen(k) {
                        assert(k == event_key(EventType::PositionClosed,
                            crate::events::derived_nonce(nonce@, closed as int)));
                    }
                }
                assert forall|k: int| 0 <= k < closed as int + 1 implies {
                    let tr = #[trigger] self.daily_trades()[
                        old(self).daily_trades().len() + k];
                    &&& tr.position_id@ == old(self).live()[k].position_id@
                    &&& tr.exit_price == old(self).live()[k].current_price
                    &&& tr.exit_reason@ == reason@
                } by {
                    if k < closed as int {
                        assert(self.daily_trades()[old(self).daily_trades().len() + k]
                            == self.daily_trades().drop_last()[
                                old(self).daily_trades().len() + k]);
                        assert(self.daily_trades().drop_last() == trades0);
                    } else {
                        assert(self.daily_trades()[old(self).daily_trades().len() + k]
                            == self.daily_trades().last());
                    }
                }
                assert forall|k: int| 0 <= k < closed as int + 1 implies {
                    let e = #[trigger] bus.log_view()[old(bus).log_view().len() + k];
                    &&& e.event_type == EventType::PositionClosed
                    &&& (e.payload matches EventPayload::PositionClosed { position_id: pid,
                        exit_price: xp, exit_reason: xr, .. }
                        && pid@ == old(self).live()[k].position_id@
                        && xp == old(self).live()[k].current_price
                        && xr@ == reason@)
                } by {
                    if k < closed as int {
                        assert(bus.log_view()[old(bus).log_view().len() + k]
                            == bus.log_view().drop_last()[old(bus).log_view().len() + k]);
                        assert(bus.log_view().drop_last() == bus0.log_view());
                    } else {
                        assert(bus.log_view()[old(bus).log_view().len() + k]
                            == bus.log_view().last());
                    }
                }
            }
            closed = closed + 1;
        }
        proof {
            assert(old(self).live().skip(n0 as int) =~= Seq::<Position>::empty());
        }
        Ok(closed)
    }
}

/// After the optional trailing-stop publish, the exit-event keys of the
/// same nonce are still fresh: their kinds' wire names differ.
proof fn lemma_second_keys_fresh(pre: EventBus, post: EventBus, nonce: Seq<char>,
    first: Option<EventType>)
    requires
        !pre.spec_seen(event_key(EventType::StopLossTriggered, nonce)),
        !pre.spec_seen(event_key(EventType::TargetReached, nonce)),
        !pre.spec_seen(event_key(EventType::PositionUpdated, nonce)),
        match first {
            Some(k) => post.keys_view() == pre.keys_view().push(event_key(k, nonce))
                && (k == EventType::TrailingStopUpdated
                    || k == EventType::TrailingStopActivated),
            None => post.keys_view() == pre.keys_view(),
        },
    ensures
        !post.spec_seen(event_key(EventType::StopLossTriggered, nonce)),
        !post.spec_seen(event_key(EventType::TargetReached, nonce)),
        !post.spec_seen(event_key(EventType::PositionUpdated, nonce)),
{
    match first {
        Some(k) => {
            reveal_strlit("TRAILING_STOP_UPDATED");
            reveal_strlit("TRAILING_STOP_ACTIVATED");
            reveal_strlit("STOP_LOSS_TRIGGERED");
            reveal_strlit("TARGET_REACHED");
            reveal_strlit("POSITION_UPDATED");
            crate::events::lemma_event_key_kind_differs(k, EventType::StopLossTriggered,
                nonce);
            crate::events::lemma_event_key_kind_differs(k, EventType::TargetReached, nonce);
            crate::events::lemma_event_key_kind_differs(k, EventType::PositionUpdated, nonce);
            crate::bus::lemma_seen_push(pre.keys_view(), event_key(k, nonce),
                event_key(EventType::StopLossTriggered, nonce));
            crate::bus::lemma_seen_push(pre.keys_view(), event_key(k, nonce),
                event_key(EventType::TargetReached, nonce));
            crate::bus::lemma_seen_push(pre.keys_view(), event_key(k, nonce),
                event_key(EventType::PositionUpdated, nonce));
        },
        None => {},
    }
}

/// Field-for-field copy of a position.
pub fn clone_position(p: &Position) -> (r: Position)
    ensures
        r == *p,
{
    Position {
        position_id: clone_string(&p.position_id),
        symbol: clone_string(&p.symbol),
        underlying: clone_string(&p.underlying),
        strike: p.strike,
        option_type: p.option_type,
        side: p.side,
        quantity: p.quantity,
        entry_price: p.entry_price,
        entry_time_ms: p.entry_time_ms,
        underlying_entry: p.underlying_entry,
        stop_loss: p.stop_loss,
        target: p.target,
        trailing_stop: p.trailing_stop,
        trailing_active: p.trailing_active,
        current_price: p.current_price,
        pnl: p.pnl,
        pnl_pct: p.pnl_pct,
        status: p.status,
        entry_reason: clone_string(&p.entry_reason),
        idempotency_key: clone_string(&p.idempotency_key),
    }
}

/// The daily PnL accumulator equals the sum of the day's trades' net PnL
/// in every reachable manager state.
pub proof fn lemma_daily_pnl_is_trade_sum(m: PositionManager)
    requires
        m.inv(),
    ensures
        m.pnl() == sum_net_pnl(m.daily_trades()),
{
}

/// The position after a whole path of price refreshes.
pub open spec fn spec_update_path(p: Position, prices: Seq<int>, use_ts: bool, act_bp: int,
    gap_bp: int) -> Position
    decreases prices.len(),
{
    if prices.len() == 0 {
        p
    } else {
        spec_update(spec_update_path(p, prices.drop_last(), use_ts, act_bp, gap_bp),
            prices.last(), use_ts, act_bp, gap_bp)
    }
}

/// A price refresh keeps a position well formed.
pub proof fn lemma_update_well_formed(p: Position, price: int, use_ts: bool, act_bp: int,
    gap_bp: int)
    requires
        p.well_formed(),
        0 < price <= MAX_PREMIUM,
        0 <= gap_bp < BP_SCALE,
    ensures
        spec_update(p, price, use_ts, act_bp, gap_bp).well_formed(),
{
    lemma_trail_candidate_bounds(price, gap_bp);
}

/// Over the lifetime of a position with trailing active, the sequence of
/// trailing-stop levels produced by any price path is non-decreasing:
/// every prefix of the path leaves the stop at or above where any
/// shorter prefix left it.
pub proof fn lemma_trailing_monotone_over_path(p: Position, prices: Seq<int>, k: int,
    use_ts: bool, act_bp: int, gap_bp: int)
    requires
        p.well_formed(),
        p.trailing_active,
        0 <= gap_bp < BP_SCALE,
        forall|i: int| 0 <= i < prices.len() ==> 0 < #[trigger] prices[i] <= MAX_PREMIUM,
        0 <= k <= prices.len(),
    ensures
        spec_update_path(p, prices, use_ts, act_bp, gap_bp).trailing_stop->0
            >= spec_update_path(p, prices.take(k), use_ts, act_bp, gap_bp).trailing_stop->0,
        spec_update_path(p, prices, use_ts, act_bp, gap_bp).trailing_active,
        spec_update_path(p, prices, use_ts, act_bp, gap_bp).well_formed(),
    decreases prices.len(),
{
    if prices.len() == 0 {
        assert(prices.take(k) =~= prices);
    } else {
        let shorter = prices.drop_last();
        assert forall|i: int| 0 <= i < shorter.len()
            implies 0 < #[trigger] shorter[i] <= MAX_PREMIUM by {
            assert(shorter[i] == prices[i]);
        }
        let mid = spec_update_path(p, shorter, use_ts, act_bp, gap_bp);
        lemma_trailing_monotone_over_path(p, shorter, if k < prices.len() { k } else {
            shorter.len() as int
        }, use_ts, act_bp, gap_bp);
        assert(mid.well_formed() && mid.trailing_active);
        lemma_trailing_stop_monotone(mid, prices.last(), use_ts, act_bp, gap_bp);
        lemma_update_well_formed(mid, prices.last(), use_ts, act_bp, gap_bp);
        if k < prices.len() {
            assert(prices.take(k) =~= shorter.take(k));
        } else {
            assert(prices.take(k) =~= prices);
        }
    }
}

/// One price refresh never lowers an active trailing stop.
pub proof fn lemma_trailing_stop_monotone(p: Position, price: int, use_ts: bool, act_bp: int,
    gap_bp: int)
    requires
        p.well_formed(),
        p.trailing_active,
        0 <= price <= MAX_PREMIUM,
        0 <= gap_bp < BP_SCALE,
    ensures
        spec_update(p, price, use_ts, act_bp, gap_bp).trailing_stop->0 >= p.trailing_stop->0,
        spec_update(p, price, use_ts, act_bp, gap_bp).trailing_active,
{
    lemma_trail_candidate_bounds(price, gap_bp);
}

} // verus!
