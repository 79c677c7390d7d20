//! Typed publish/subscribe with per-event idempotency and an append-only
//! event log.
//!
//! The bus owns the in-process log (the model of the durable event file);
//! the caller writes each accepted event's encoded line to disk and runs
//! the handlers that `next_event` names.  A duplicate idempotency key is
//! rejected before anything is logged or queued.

use vstd::prelude::*;
use crate::events::{Event, EventType};
use crate::error::TradingError;
use crate::store::clone_string;

verus! {

/// One unfolding of `Seq::filter` over a push.
pub proof fn lemma_filter_step<A>(s: Seq<A>, pred: spec_fn(A) -> bool, x: A)
    ensures
        s.push(x).filter(pred) == (if pred(x) {
            s.filter(pred).push(x)
        } else {
            s.filter(pred)
        }),
{
    reveal(Seq::filter);
    assert(s.push(x).drop_last() =~= s);
    assert(s.push(x).last() == x);
}

/// In-process event bus.
pub struct EventBus {
    /// Handler registrations: `(kind, handler id)`, in subscription
    /// order.  Handler ids are chosen by the caller, which owns the
    /// actual callbacks.
    subscribers: Vec<(EventType, usize)>,
    /// All accepted events, oldest first (the durable log's content).
    log: Vec<Event>,
    /// Indices into `log` of events not yet handed to `next_event`.
    queue: Vec<usize>,
    /// Idempotency keys of every accepted event.
    processed_events: Vec<String>,
    event_log_path: String,
}

/// What `publish` promises: either the key was already seen and nothing
/// changed, or the event was appended to the log and queued exactly once.
pub open spec fn publish_post(pre: EventBus, post: EventBus, event: Event,
    r: Result<(), TradingError>) -> bool {
    &&& (pre.spec_seen(event.idempotency_key@) ==> {
        &&& r is Err
        &&& post.log_view() == pre.log_view()
        &&& post.queue_view() == pre.queue_view()
        &&& post.keys_view() == pre.keys_view()
    })
    &&& (!pre.spec_seen(event.idempotency_key@) ==> {
        &&& r is Ok
        &&& post.log_view() == pre.log_view().push(event)
        &&& post.queue_view() == pre.queue_view().push(pre.log_view().len() as usize)
        &&& post.keys_view() == pre.keys_view().push(event.idempotency_key@)
    })
}

impl EventBus {
    /// Accepted events, oldest first.
    pub closed spec fn log_view(&self) -> Seq<Event> {
        self.log@
    }

    /// Pending log indices, oldest first.
    pub closed spec fn queue_view(&self) -> Seq<usize> {
        self.queue@
    }

    /// Keys accepted so far, in order.
    pub closed spec fn keys_view(&self) -> Seq<Seq<char>> {
        self.processed_events@.map_values(|s: String| s@)
    }

    /// Subscription list as `(kind, handler id)` pairs.
    pub closed spec fn subs_view(&self) -> Seq<(EventType, usize)> {
        self.subscribers@
    }

    /// Whether `key` has been accepted before.
    pub open spec fn spec_seen(&self, key: Seq<char>) -> bool {
        self.keys_view().contains(key)
    }

    pub closed spec fn inv(&self) -> bool {
        &&& self.keys_view().len() == self.log_view().len()
        &&& forall|i: int| 0 <= i < self.queue_view().len()
            ==> (#[trigger] self.queue_view()[i]) < self.log_view().len()
    }

    pub fn new(event_log_path: String) -> (r: EventBus)
        ensures
            r.inv(),
            r.log_view() == Seq::<Event>::empty(),
            r.queue_view() == Seq::<usize>::empty(),
            r.keys_view() == Seq::<Seq<char>>::empty(),
            r.subs_view() == Seq::<(EventType, usize)>::empty(),
    {
        let r = EventBus {
            subscribers: Vec::new(),
            log: Vec::new(),
            queue: Vec::new(),
            processed_events: Vec::new(),
            event_log_path,
        };
        proof {
            assert(r.keys_view() =~= Seq::<Seq<char>>::empty());
        }
        r
    }

    /// Register a handler id for an event kind.
    pub fn subscribe(&mut self, event_type: EventType, handler_id: usize)
        requires
            old(self).inv(),
        ensures
            final(self).inv(),
            final(self).subs_view() == old(self).subs_view().push((event_type, handler_id)),
            final(self).log_view() == old(self).log_view(),
            final(self).queue_view() == old(self).queue_view(),
            final(self).keys_view() == old(self).keys_view(),
    {
        self.subscribers.push((event_type, handler_id));
        proof {
            assert(self.keys_view() =~= old(self).keys_view());
            assert(self.queue_view() == old(self).queue_view());
            assert(self.log_view() == old(self).log_view());
            assert forall|i: int| 0 <= i < self.queue_view().len()
                implies (#[trigger] self.queue_view()[i]) < self.log_view().len() by {
                assert(old(self).queue_view()[i] < old(self).log_view().len());
            }
        }
    }

    /// Whether this exact key has been accepted before.
    fn seen(&self, key: &String) -> (r: bool)
        ensures
            r == self.spec_seen(key@),
    {
        let mut i: usize = 0;
        while i < self.processed_events.len()
            invariant
                0 <= i <= self.processed_events@.len(),
                forall|j: int| 0 <= j < i ==> (#[trigger] self.processed_events@[j])@ != key@,
            decreases self.processed_events@.len() - i,
        {
            if crate::types::str_eq(self.processed_events[i].as_str(), key.as_str()) {
                proof {
                    assert(self.keys_view()[i as int] == key@);
                }
                return true;
            }
            i = i + 1;
        }
        proof {
            assert forall|j: int| 0 <= j < self.keys_view().len()
                implies #[trigger] self.keys_view()[j] != key@ by {
                assert(self.keys_view()[j] == self.processed_events@[j]@);
            }
            if self.spec_seen(key@) {
                let j = choose|j: int| 0 <= j < self.keys_view().len()
                    && self.keys_view()[j] == key@;
                assert(false);
            }
        }
        false
    }

    /// Publish an event: rejected with `DuplicateEvent` when its key was
    /// already accepted (and then neither logged nor queued); otherwise
    /// appended to the log and queued for delivery exactly once.
    pub fn publish(&mut self, event: Event) -> (r: Result<(), TradingError>)
        requires
            old(self).inv(),
            old(self).log_view().len() < 1_000_000_000,
        ensures
            final(self).inv(),
            publish_post(*old(self), *final(self), event, r),
            final(self).subs_view() == old(self).subs_view(),
            r matches Err(e) ==> e is DuplicateEvent,
    {
        let key_copy = clone_string(&event.idempotency_key);
        if self.seen(&event.idempotency_key) {
            return Err(TradingError::DuplicateEvent(key_copy));
        }
        let idx = self.log.len();
        self.processed_events.push(key_copy);
        self.log.push(event);
        self.queue.push(idx);
        proof {
            assert(self.keys_view() =~= old(self).keys_view().push(
                self.log@[self.log@.len() - 1].idempotency_key@));
            assert forall|i: int| 0 <= i < self.queue_view().len()
                implies (#[trigger] self.queue_view()[i]) < self.log_view().len() by {
                if i < self.queue_view().len() - 1 {
                    assert(self.queue_view()[i] == old(self).queue_view()[i]);
                }
            }
        }
        Ok(())
    }

    /// Take the oldest undelivered event: its log index and the handler
    /// ids subscribed to its kind, in subscription order.
    pub fn next_event(&mut self) -> (r: Option<(usize, Vec<usize>)>)
        requires
            old(self).inv(),
        ensures
            final(self).inv(),
            final(self).log_view() == old(self).log_view(),
            final(self).keys_view() == old(self).keys_view(),
            final(self).subs_view() == old(self).subs_view(),
            old(self).queue_view().len() == 0 ==> r is None
                && final(self).queue_view() == old(self).queue_view(),
            old(self).queue_view().len() > 0 ==> (match r {
                Some((idx, ref handlers)) => {
                    &&& idx == old(self).queue_view()[0]
                    &&& (idx as int) < old(self).log_view().len()
                    &&& final(self).queue_view() == old(self).queue_view().drop_first()
                    &&& handlers@ == old(self).subs_view().filter(
                        |s: (EventType, usize)| s.0 == old(self).log_view()[
                            old(self).queue_view()[0] as int].event_type).map_values(
                        |s: (EventType, usize)| s.1)
                },
                None => false,
            }),
    {
        if self.queue.len() == 0 {
            return None;
        }
        let idx = self.queue.remove(0);
        let kind = self.log[idx].event_type;
        let ghost pred = |s: (EventType, usize)| s.0 == self.log@[idx as int].event_type;
        let mut handlers: Vec<usize> = Vec::new();
        let mut i: usize = 0;
        while i < self.subscribers.len()
            invariant
                0 <= i <= self.subscribers@.len(),
                kind == self.log@[idx as int].event_type,
                idx < self.log@.len(),
                pred == (|s: (EventType, usize)| s.0 == self.log@[idx as int].event_type),
                handlers@ == self.subscribers@.take(i as int).filter(pred).map_values(
                    |s: (EventType, usize)| s.1),
            decreases self.subscribers@.len() - i,
        {
            let entry = self.subscribers[i];
            if entry.0 == kind {
                handlers.push(entry.1);
            }
            proof {
                let t = self.subscribers@.take(i as int + 1);
                assert(t =~= self.subscribers@.take(i as int).push(self.subscribers@[i as int]));
                lemma_filter_step(self.subscribers@.take(i as int), pred,
                    self.subscribers@[i as int]);
                if pred(self.subscribers@[i as int]) {
                    assert(handlers@ =~= t.filter(pred).map_values(
                        |s: (EventType, usize)| s.1));
                } else {
                    assert(handlers@ =~= t.filter(pred).map_values(
                        |s: (EventType, usize)| s.1));
                }
            }
            i = i + 1;
        }
        proof {
            assert(self.subscribers@.take(self.subscribers@.len() as int)
                =~= self.subscribers@);
        }
        Some((idx, handlers))
    }

    /// Borrow an accepted event by its log index.
    pub fn get_event(&self, idx: usize) -> (r: &Event)
        requires
            self.inv(),
            (idx as int) < self.log_view().len(),
        ensures
            *r == self.log_view()[idx as int],
    {
        &self.log[idx]
    }

    /// Number of accepted events.
    pub fn log_len(&self) -> (r: usize)
        requires
            self.inv(),
        ensures
            r == self.log_view().len(),
    {
        self.log.len()
    }

    /// Log indices of all events with `timestamp_ms >= from_ts_ms`, in
    /// log order (recovery replay).
    pub fn replay_events(&self, from_ts_ms: i64) -> (r: Vec<usize>)
        requires
            self.inv(),
        ensures
            r@ == Seq::new(self.log_view().len(), |i: int| i as usize).filter(
                |i: usize| self.log_view()[i as int].timestamp_ms >= from_ts_ms),
    {
        let ghost idxs = Seq::new(self.log_view().len(), |i: int| i as usize);
        let ghost pred = |i: usize| self.log_view()[i as int].timestamp_ms >= from_ts_ms;
        let mut out: Vec<usize> = Vec::new();
        let mut i: usize = 0;
        while i < self.log.len()
            invariant
                0 <= i <= self.log@.len(),
                idxs == Seq::new(self.log@.len(), |j: int| j as usize),
                pred == (|j: usize| self.log@[j as int].timestamp_ms >= from_ts_ms),
                out@ == idxs.take(i as int).filter(pred),
            decreases self.log@.len() - i,
        {
            proof {
                let t = idxs.take(i as int + 1);
                assert(t =~= idxs.take(i as int).push(idxs[i as int]));
                lemma_filter_step(idxs.take(i as int), pred, idxs[i as int]);
            }
            if self.log[i].timestamp_ms >= from_ts_ms {
                out.push(i);
            }
            i = i + 1;
        }
        proof {
            assert(idxs.take(self.log@.len() as int) =~= idxs);
        }
        out
    }

    /// Forget all idempotency keys (testing or daily reset); the log and
    /// queue are untouched.
    pub fn clear_processed_events(&mut self)
        requires
            old(self).inv(),
        ensures
            final(self).log_view() == old(self).log_view(),
            final(self).queue_view() == old(self).queue_view(),
            final(self).keys_view() == Seq::<Seq<char>>::empty(),
            final(self).subs_view() == old(self).subs_view(),
    {
        self.processed_events = Vec::new();
        proof {
            assert(self.keys_view() =~= Seq::<Seq<char>>::empty());
        }
    }

    /// Whether an idempotency key was already accepted (callers check
    /// this before operations that must publish under a fresh key).
    pub fn has_processed(&self, key: &String) -> (r: bool)
        ensures
            r == self.spec_seen(key@),
    {
        self.seen(key)
    }

    /// Number of accepted idempotency keys.
    pub fn processed_count(&self) -> (r: usize)
        ensures
            r == self.keys_view().len(),
    {
        self.processed_events.len()
    }
}

/// A key is seen after a push exactly when it was seen before or is the
/// pushed key.
pub proof fn lemma_seen_push(keys: Seq<Seq<char>>, pushed: Seq<char>, probe: Seq<char>)
    ensures
        keys.push(pushed).contains(probe) <==> keys.contains(probe) || pushed == probe,
{
    if keys.push(pushed).contains(probe) {
        let i = choose|i: int| 0 <= i < keys.push(pushed).len()
            && keys.push(pushed)[i] == probe;
        if i < keys.len() {
            assert(keys[i] == probe);
        }
    }
    if keys.contains(probe) {
        let i = choose|i: int| 0 <= i < keys.len() && keys[i] == probe;
        assert(keys.push(pushed)[i] == probe);
    }
    if pushed == probe {
        assert(keys.push(pushed)[keys.len() as int] == probe);
    }
}

/// Two sequential publishes of events with the same idempotency key: the
/// first is accepted, the second is rejected, and the first event sits in
/// the log and the queue exactly once afterward.
pub proof fn lemma_duplicate_publish_rejected(b0: EventBus, b1: EventBus, b2: EventBus,
    e1: Event, e2: Event, r1: Result<(), TradingError>, r2: Result<(), TradingError>)
    requires
        !b0.spec_seen(e1.idempotency_key@),
        e2.idempotency_key@ == e1.idempotency_key@,
        publish_post(b0, b1, e1, r1),
        publish_post(b1, b2, e2, r2),
    ensures
        r1 is Ok,
        r2 is Err,
        b2.log_view() == b0.log_view().push(e1),
        b2.queue_view() == b0.queue_view().push(b0.log_view().len() as usize),
{
    assert(b1.keys_view() == b0.keys_view().push(e1.idempotency_key@));
    assert(b1.keys_view()[b1.keys_view().len() - 1] == e2.idempotency_key@);
    assert(b1.spec_seen(e2.idempotency_key@));
}

} // verus!
