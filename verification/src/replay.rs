//! Recovery: rebuilding the open-position set from the durable event
//! log.
//!
//! Every position open and close publishes its event, so after a restart
//! the fold of `PositionOpened` / `PositionClosed` records over the log
//! is the live set at the last fsynced event.

use vstd::prelude::*;
use crate::bus::EventBus;
use crate::events::{Event, EventPayload};
use crate::types::Position;
use crate::store::clone_string;
use crate::types::str_eq;

verus! {

/// The open-position id set after folding a log prefix.
pub open spec fn spec_replay_open_set(events: Seq<Event>) -> Set<Seq<char>>
    decreases events.len(),
{
    if events.len() == 0 {
        Set::empty()
    } else {
        let s = spec_replay_open_set(events.drop_last());
        match events.last().payload {
            EventPayload::PositionOpened { position_id, .. } => s.insert(position_id@),
            EventPayload::PositionClosed { position_id, .. } => s.remove(position_id@),
            _ => s,
        }
    }
}

/// The id set of a live position list.
pub open spec fn ids_of(ps: Seq<Position>) -> Set<Seq<char>> {
    Set::new(|id: Seq<char>| exists|i: int| 0 <= i < ps.len()
        && (#[trigger] ps[i]).position_id@ == id)
}

/// Rebuild the open-position id set from the bus log: one pass over the
/// events, inserting on `PositionOpened` and removing on
/// `PositionClosed`.  The result lists each open id once.
pub fn rebuild_open_positions(bus: &EventBus) -> (r: Vec<String>)
    requires
        bus.inv(),
    ensures
        forall|j: int| 0 <= j < r@.len()
            ==> spec_replay_open_set(bus.log_view()).contains((#[trigger] r@[j])@),
        forall|id: Seq<char>| spec_replay_open_set(bus.log_view()).contains(id)
            ==> exists|j: int| 0 <= j < r@.len() && (#[trigger] r@[j])@ == id,
        forall|a: int, b: int| 0 <= a < b < r@.len()
            ==> (#[trigger] r@[a])@ != (#[trigger] r@[b])@,
{
    let mut out: Vec<String> = Vec::new();
    let n = bus.log_len();
    let mut i: usize = 0;
    while i < n
        invariant
            0 <= i <= n,
            bus.inv(),
            n == bus.log_view().len(),
            forall|j: int| 0 <= j < out@.len()
                ==> spec_replay_open_set(bus.log_view().take(i as int)).contains(
                    (#[trigger] out@[j])@),
            forall|id: Seq<char>| spec_replay_open_set(bus.log_view().take(i as int)).contains(
                id) ==> exists|j: int| 0 <= j < out@.len() && (#[trigger] out@[j])@ == id,
            forall|a: int, b: int| 0 <= a < b < out@.len()
                ==> (#[trigger] out@[a])@ != (#[trigger] out@[b])@,
        decreases n - i,
    {
        proof {
            let t = bus.log_view().take(i as int + 1);
            assert(t.drop_last() =~= bus.log_view().take(i as int));
            assert(t.last() == bus.log_view()[i as int]);
        }
        let event = bus.get_event(i);
        match &event.payload {
            EventPayload::PositionOpened { position_id, .. } => {
                let ghost out_pre = out@;
                let mut present = false;
                let mut j: usize = 0;
                let m = out.len();
                while j < m && !present
                    invariant
                        0 <= j <= m,
                        m == out@.len(),
                        out@ == out_pre,
                        i < n,
                        n == bus.log_view().len(),
                        !present ==> forall|k: int| 0 <= k < j
                            ==> (#[trigger] out@[k])@ != position_id@,
                        present ==> exists|k: int| 0 <= k < m
                            && (#[trigger] out@[k])@ == position_id@,
                        forall|jj: int| 0 <= jj < out@.len()
                            ==> spec_replay_open_set(bus.log_view().take(i as int)).contains(
                                (#[trigger] out@[jj])@),
                        forall|id: Seq<char>| spec_replay_open_set(
                            bus.log_view().take(i as int)).contains(id)
                            ==> exists|jj: int| 0 <= jj < out@.len()
                                && (#[trigger] out@[jj])@ == id,
                        forall|a: int, b: int| 0 <= a < b < out@.len()
                            ==> (#[trigger] out@[a])@ != (#[trigger] out@[b])@,
                    decreases m - j + (if present { 0int } else { 1int }),
                {
                    if str_eq(out[j].as_str(), position_id.as_str()) {
                        proof {
                            assert(out@[j as int]@ == position_id@);
                        }
                        present = true;
                    } else {
                        j = j + 1;
                    }
                }
                if !present {
                    let ghost out0 = out@;
                    out.push(clone_string(position_id));
                    proof {
                        assert forall|a: int, b: int| 0 <= a < b < out@.len()
                            implies (#[trigger] out@[a])@ != (#[trigger] out@[b])@ by {
                            if b == out@.len() - 1 {
                                assert(out@[a] == out0[a]);
                            } else {
                                assert(out@[a] == out0[a] && out@[b] == out0[b]);
                            }
                        }
                    }
                }
                proof {
                    let t = bus.log_view().take(i as int + 1);
                    assert(t.drop_last() =~= bus.log_view().take(i as int));
                    assert(t.last() == bus.log_view()[i as int]);
                    assert(spec_replay_open_set(t) =~= spec_replay_open_set(
                        bus.log_view().take(i as int)).insert(position_id@));
                    assert(exists|jj: int| 0 <= jj < out@.len()
                        && (#[trigger] out@[jj])@ == position_id@) by {
                        if !present {
                            assert(out@[out@.len() - 1]@ == position_id@);
                        }
                    }
                    assert forall|id: Seq<char>| spec_replay_open_set(t).contains(id)
                        implies exists|jj: int| 0 <= jj < out@.len()
                            && (#[trigger] out@[jj])@ == id by {
                        if id != position_id@ {
                            assert(spec_replay_open_set(bus.log_view().take(i as int))
                                .contains(id));
                            assert(exists|k: int| 0 <= k < out_pre.len()
                                && (#[trigger] out_pre[k])@ == id);
                            let k = choose|k: int| 0 <= k < out_pre.len()
                                && (#[trigger] out_pre[k])@ == id;
                            assert(out@[k] == out_pre[k]);
                        }
                    }
                    assert forall|jj: int| 0 <= jj < out@.len()
                        implies spec_replay_open_set(t).contains((#[trigger] out@[jj])@) by {
                        if !present && jj == out@.len() - 1 {
                            assert(out@[jj]@ == position_id@);
                        } else {
                            assert(out@[jj] == out_pre[jj]);
                            assert(spec_replay_open_set(bus.log_view().take(i as int))
                                .contains(out@[jj]@));
                        }
                    }
                }
            },
            EventPayload::PositionClosed { position_id, .. } => {
                let mut j: usize = 0;
                let mut removed = false;
                while j < out.len() && !removed
                    invariant
                        0 <= j <= out@.len(),
                        i < n,
                        n == bus.log_view().len(),
                        !removed ==> forall|k: int| 0 <= k < j
                            ==> (#[trigger] out@[k])@ != position_id@,
                        forall|a: int, b: int| 0 <= a < b < out@.len()
                            ==> (#[trigger] out@[a])@ != (#[trigger] out@[b])@,
                        removed ==> forall|k: int| 0 <= k < out@.len()
                            ==> (#[trigger] out@[k])@ != position_id@,
                        forall|jj: int| 0 <= jj < out@.len()
                            ==> spec_replay_open_set(bus.log_view().take(i as int)).contains(
                                (#[trigger] out@[jj])@),
                        forall|id: Seq<char>| id != position_id@
                            && spec_replay_open_set(bus.log_view().take(i as int)).contains(id)
                            ==> exists|jj: int| 0 <= jj < out@.len()
                                && (#[trigger] out@[jj])@ == id,
                    decreases out@.len() - j + (if removed { 0int } else { 1int }),
                {
                    if str_eq(out[j].as_str(), position_id.as_str()) {
                        let ghost out0 = out@;
                        out.remove(j);
                        proof {
                            assert forall|k: int| 0 <= k < out@.len()
                                implies (#[trigger] out@[k])@ != position_id@ by {
                                if k < j {
                                    assert(out@[k] == out0[k]);
                                } else {
                                    assert(out@[k] == out0[k + 1]);
                                }
                            }
                            assert forall|a: int, b: int| 0 <= a < b < out@.len()
                                implies (#[trigger] out@[a])@ != (#[trigger] out@[b])@ by {
                                let a0 = if a < j { a } else { a + 1 };
                                let b0 = if b < j { b } else { b + 1 };
                                assert(out@[a] == out0[a0] && out@[b] == out0[b0]);
                            }
                            assert forall|id: Seq<char>| id != position_id@
                                && spec_replay_open_set(bus.log_view().take(i as int)).contains(
                                    id)
                                implies exists|jj: int| 0 <= jj < out@.len()
                                    && (#[trigger] out@[jj])@ == id by {
                                let k = choose|k: int| 0 <= k < out0.len()
                                    && (#[trigger] out0[k])@ == id;
                                if k < j {
                                    assert(out@[k]@ == id);
                                } else if k == j {
                                    assert(out0[j as int]@ == position_id@);
                                } else {
                                    assert(out@[k - 1]@ == id);
                                }
                            }
                        }
                        removed = true;
                    } else {
                        j = j + 1;
                    }
                }
                proof {
                    let t = bus.log_view().take(i as int + 1);
                    assert(t.drop_last() =~= bus.log_view().take(i as int));
                    assert(t.last() == bus.log_view()[i as int]);
                    assert(spec_replay_open_set(t) =~= spec_replay_open_set(
                        bus.log_view().take(i as int)).remove(position_id@));
                    assert forall|id: Seq<char>| spec_replay_open_set(t).contains(id)
                        implies exists|jj: int| 0 <= jj < out@.len()
                            && (#[trigger] out@[jj])@ == id by {
                        assert(id != position_id@);
                        assert(spec_replay_open_set(bus.log_view().take(i as int))
                            .contains(id));
                    }
                    assert forall|jj: int| 0 <= jj < out@.len()
                        implies spec_replay_open_set(t).contains((#[trigger] out@[jj])@) by {
                        assert(out@[jj]@ != position_id@);
                        assert(spec_replay_open_set(bus.log_view().take(i as int))
                            .contains(out@[jj]@));
                    }
                }
            },
            _ => {
                proof {
                    let t = bus.log_view().take(i as int + 1);
                    assert(t.drop_last() =~= bus.log_view().take(i as int));
                    assert(t.last() == bus.log_view()[i as int]);
                    assert(spec_replay_open_set(t) =~= spec_replay_open_set(
                        bus.log_view().take(i as int)));
                }
            },
        }
        i = i + 1;
    }
    proof {
        assert(bus.log_view().take(n as int) =~= bus.log_view());
    }
    out
}

/// Opening a position and publishing its `PositionOpened` record keep
/// the live-id set and the replayed set in step.
pub proof fn lemma_open_matches_replay(pre: Seq<Position>, post: Seq<Position>, p: Position,
    log_pre: Seq<Event>, log_post: Seq<Event>, e: Event)
    requires
        post == pre.push(p),
        log_post == log_pre.push(e),
        e.payload matches EventPayload::PositionOpened { position_id, .. }
            && position_id@ == p.position_id@,
        ids_of(pre) == spec_replay_open_set(log_pre),
    ensures
        ids_of(post) == spec_replay_open_set(log_post),
{
    assert(log_post.drop_last() =~= log_pre);
    assert(log_post.last() == e);
    assert(ids_of(post) =~= ids_of(pre).insert(p.position_id@)) by {
        assert forall|id: Seq<char>| #[trigger] ids_of(post).contains(id)
            implies ids_of(pre).insert(p.position_id@).contains(id) by {
            let i = choose|i: int| 0 <= i < post.len() && (#[trigger] post[i]).position_id@
                == id;
            if i < pre.len() {
                assert(pre[i].position_id@ == id);
            }
        }
        assert forall|id: Seq<char>| #[trigger] ids_of(pre).insert(p.position_id@).contains(id)
            implies ids_of(post).contains(id) by {
            if id == p.position_id@ {
                assert(post[post.len() - 1].position_id@ == id);
            } else {
                let i = choose|i: int| 0 <= i < pre.len() && (#[trigger] pre[i]).position_id@
                    == id;
                assert(post[i].position_id@ == id);
            }
        }
    }
}

/// Closing a position and publishing its `PositionClosed` record keep
/// the live-id set and the replayed set in step.
pub proof fn lemma_close_matches_replay(pre: Seq<Position>, post: Seq<Position>, idx: int,
    log_pre: Seq<Event>, log_post: Seq<Event>, e: Event)
    requires
        0 <= idx < pre.len(),
        post == pre.remove(idx),
        log_post == log_pre.push(e),
        e.payload matches EventPayload::PositionClosed { position_id, .. }
            && position_id@ == pre[idx].position_id@,
        ids_of(pre) == spec_replay_open_set(log_pre),
        forall|i: int, j: int| 0 <= i < j < pre.len()
            ==> (#[trigger] pre[i]).position_id@ != (#[trigger] pre[j]).position_id@,
    ensures
        ids_of(post) == spec_replay_open_set(log_post),
{
    assert(log_post.drop_last() =~= log_pre);
    assert(log_post.last() == e);
    let cid = pre[idx].position_id@;
    assert(ids_of(post) =~= ids_of(pre).remove(cid)) by {
        assert forall|id: Seq<char>| #[trigger] ids_of(post).contains(id)
            implies ids_of(pre).remove(cid).contains(id) by {
            let i = choose|i: int| 0 <= i < post.len() && (#[trigger] post[i]).position_id@
                == id;
            let i0 = if i < idx { i } else { i + 1 };
            assert(pre[i0].position_id@ == id);
            assert(id != cid);
        }
        assert forall|id: Seq<char>| #[trigger] ids_of(pre).remove(cid).contains(id)
            implies ids_of(post).contains(id) by {
            let i = choose|i: int| 0 <= i < pre.len() && (#[trigger] pre[i]).position_id@
                == id;
            if i < idx {
                assert(post[i].position_id@ == id);
            } else {
                assert(i != idx);
                assert(post[i - 1].position_id@ == id);
            }
        }
    }
}

} // verus!
