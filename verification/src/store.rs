//! Bar storage and tick history.
//!
//! `HybridBarStore` keeps the full append-only series together with a
//! bounded most-recent window (the hot tier); the durable file that
//! mirrors the series is written by the caller from the records this
//! store hands out.

use vstd::prelude::*;
use crate::types::{Bar, Tick};

verus! {

/// Append-only bar series with a bounded in-memory window of the most
/// recent bars.
pub struct HybridBarStore {
    /// Every bar ever appended, oldest first (the durable series).
    log: Vec<Bar>,
    /// Hot tier: a suffix of `log`, at most `memory_capacity` long.
    memory_buffer: Vec<Bar>,
    memory_capacity: usize,
    total_bars: usize,
    symbol: String,
    timeframe: String,
}

impl HybridBarStore {
    /// All bars appended so far, oldest first.
    pub closed spec fn series(&self) -> Seq<Bar> {
        self.log@
    }

    pub closed spec fn window(&self) -> Seq<Bar> {
        self.memory_buffer@
    }

    pub closed spec fn capacity(&self) -> int {
        self.memory_capacity as int
    }

    /// The hot tier is a suffix of the series, bounded by the capacity.
    pub closed spec fn inv(&self) -> bool {
        &&& 1 <= self.memory_capacity <= 1_000_000
        &&& self.total_bars == self.log@.len()
        &&& self.memory_buffer@.len() <= self.memory_capacity
        &&& self.memory_buffer@.len() <= self.log@.len()
        &&& self.memory_buffer@ == self.log@.subrange(
            self.log@.len() - self.memory_buffer@.len(), self.log@.len() as int)
    }

    pub fn new(symbol: String, timeframe: String, memory_capacity: usize) -> (r: HybridBarStore)
        requires
            1 <= memory_capacity <= 1_000_000,
        ensures
            r.inv(),
            r.series() == Seq::<Bar>::empty(),
            r.window() == Seq::<Bar>::empty(),
            r.capacity() == memory_capacity,
    {
        let r = HybridBarStore {
            log: Vec::new(),
            memory_buffer: Vec::new(),
            memory_capacity,
            total_bars: 0,
            symbol,
            timeframe,
        };
        proof {
            assert(r.memory_buffer@ =~= r.log@.subrange(0, 0));
        }
        r
    }

    /// Append one bar: it becomes the newest element of the series and of
    /// the hot tier, which evicts its oldest entry when full.
    pub fn append(&mut self, bar: Bar) -> (r: Result<(), ()>)
        requires
            old(self).inv(),
            old(self).series().len() < usize::MAX,
        ensures
            final(self).inv(),
            r is Ok,
            final(self).series() == old(self).series().push(bar),
            final(self).capacity() == old(self).capacity(),
            final(self).window() == (if old(self).window().len() >= old(self).capacity() {
                old(self).window().drop_first().push(bar)
            } else {
                old(self).window().push(bar)
            }),
    {
        self.log.push(bar);
        if self.memory_buffer.len() >= self.memory_capacity {
            self.memory_buffer.remove(0);
        }
        self.memory_buffer.push(bar);
        self.total_bars = self.total_bars + 1;
        proof {
            assert(self.memory_buffer@ =~= self.log@.subrange(
                self.log@.len() - self.memory_buffer@.len(), self.log@.len() as int));
        }
        Ok(())
    }

    /// The `n` most recent bars (all of them when fewer exist), oldest
    /// first.
    pub fn get_recent(&self, n: usize) -> (r: Vec<Bar>)
        requires
            self.inv(),
        ensures
            r@ == self.series().subrange(
                self.series().len() - (if n <= self.series().len() {
                    n as int
                } else {
                    self.series().len() as int
                }), self.series().len() as int),
    {
        if n <= self.memory_buffer.len() {
            let start = self.memory_buffer.len() - n;
            let mut out: Vec<Bar> = Vec::new();
            let mut i: usize = start;
            while i < self.memory_buffer.len()
                invariant
                    start <= i <= self.memory_buffer@.len(),
                    out@ == self.memory_buffer@.subrange(start as int, i as int),
                decreases self.memory_buffer@.len() - i,
            {
                out.push(self.memory_buffer[i]);
                proof {
                    assert(out@ =~= self.memory_buffer@.subrange(start as int, i as int + 1));
                }
                i = i + 1;
            }
            proof {
                assert(out@ =~= self.series().subrange(self.series().len() - n,
                    self.series().len() as int));
            }
            out
        } else {
            let count = if n <= self.log.len() { n } else { self.log.len() };
            let start = self.log.len() - count;
            let mut out: Vec<Bar> = Vec::new();
            let mut i: usize = start;
            while i < self.log.len()
                invariant
                    start <= i <= self.log@.len(),
                    out@ == self.log@.subrange(start as int, i as int),
                decreases self.log@.len() - i,
            {
                out.push(self.log[i]);
                proof {
                    assert(out@ =~= self.log@.subrange(start as int, i as int + 1));
                }
                i = i + 1;
            }
            out
        }
    }

    /// The most recent bar, if any.
    pub fn get_last(&self) -> (r: Option<Bar>)
        requires
            self.inv(),
        ensures
            self.series().len() == 0 ==> r is None,
            self.series().len() > 0 ==> r == Some(self.series().last()),
    {
        if self.memory_buffer.len() == 0 {
            proof {
                if self.log@.len() > 0 {
                    assert(self.memory_buffer@.len() == 0);
                    assert(self.log@ == self.log@.subrange(self.log@.len() as int,
                        self.log@.len() as int) ==> false);
                }
            }
            if self.log.len() == 0 {
                None
            } else {
                Some(self.log[self.log.len() - 1])
            }
        } else {
            let b = self.memory_buffer[self.memory_buffer.len() - 1];
            proof {
                assert(b == self.log@[self.log@.len() - 1]);
            }
            Some(b)
        }
    }

    /// Copy of the hot tier, oldest first.
    pub fn get_all_in_memory(&self) -> (r: Vec<Bar>)
        requires
            self.inv(),
        ensures
            r@ == self.window(),
    {
        let mut out: Vec<Bar> = Vec::new();
        let mut i: usize = 0;
        while i < self.memory_buffer.len()
            invariant
                0 <= i <= self.memory_buffer@.len(),
                out@ == self.memory_buffer@.subrange(0, i as int),
            decreases self.memory_buffer@.len() - i,
        {
            out.push(self.memory_buffer[i]);
            proof {
                assert(out@ =~= self.memory_buffer@.subrange(0, i as int + 1));
            }
            i = i + 1;
        }
        proof {
            assert(out@ =~= self.memory_buffer@);
        }
        out
    }

    /// Number of bars in the whole series.
    pub fn total_count(&self) -> (r: usize)
        requires
            self.inv(),
        ensures
            r == self.series().len(),
    {
        self.total_bars
    }

    /// Number of bars held in the hot tier.
    pub fn memory_count(&self) -> (r: usize)
        requires
            self.inv(),
        ensures
            r == self.window().len(),
    {
        self.memory_buffer.len()
    }

    /// Rehydrate from a decoded series (the caller read and parsed the
    /// durable log): the series is replaced and the hot tier holds its
    /// last `load_last_n` bars, capped by the capacity.
    pub fn load_from_disk(&mut self, bars: Vec<Bar>, load_last_n: usize) -> (r: Result<(), ()>)
        requires
            old(self).inv(),
        ensures
            final(self).inv(),
            r is Ok,
            final(self).series() == bars@,
            final(self).capacity() == old(self).capacity(),
            final(self).window().len() == (if load_last_n <= bars@.len() {
                if load_last_n <= old(self).capacity() {
                    load_last_n as int
                } else {
                    old(self).capacity()
                }
            } else {
                if bars@.len() <= old(self).capacity() {
                    bars@.len() as int
                } else {
                    old(self).capacity()
                }
            }),
    {
        let take = if load_last_n <= bars.len() { load_last_n } else { bars.len() };
        let take = if take <= self.memory_capacity { take } else { self.memory_capacity };
        let start = bars.len() - take;
        let mut window: Vec<Bar> = Vec::new();
        let mut i: usize = start;
        while i < bars.len()
            invariant
                start <= i <= bars@.len(),
                window@ == bars@.subrange(start as int, i as int),
            decreases bars@.len() - i,
        {
            window.push(bars[i]);
            proof {
                assert(window@ =~= bars@.subrange(start as int, i as int + 1));
            }
            i = i + 1;
        }
        self.total_bars = bars.len();
        self.log = bars;
        self.memory_buffer = window;
        Ok(())
    }

    /// Start a fresh durable series holding only the hot tier (the old
    /// series was archived by the caller).
    pub fn rotate_disk_file(&mut self) -> (r: Result<(), ()>)
        requires
            old(self).inv(),
        ensures
            final(self).inv(),
            r is Ok,
            final(self).series() == old(self).window(),
            final(self).capacity() == old(self).capacity(),
    {
        let window = self.get_all_in_memory();
        self.total_bars = window.len();
        self.log = window;
        proof {
            assert(self.memory_buffer@ =~= self.log@.subrange(
                self.log@.len() - self.memory_buffer@.len(), self.log@.len() as int));
        }
        Ok(())
    }
}

/// First index of `sym` among the per-symbol buffers, or -1.
pub open spec fn tick_idx_of(bufs: Seq<(String, Vec<Tick>)>, sym: Seq<char>) -> int
    decreases bufs.len(),
{
    if bufs.len() == 0 {
        -1
    } else if bufs[0].0@ == sym {
        0
    } else {
        let rest = tick_idx_of(bufs.drop_first(), sym);
        if rest == -1 { -1 } else { rest + 1 }
    }
}

proof fn lemma_tick_idx_of_range(bufs: Seq<(String, Vec<Tick>)>, sym: Seq<char>)
    ensures
        -1 <= tick_idx_of(bufs, sym) < bufs.len(),
        tick_idx_of(bufs, sym) >= 0 ==> bufs[tick_idx_of(bufs, sym)].0@ == sym,
        forall|j: int| 0 <= j < tick_idx_of(bufs, sym) ==> (#[trigger] bufs[j].0)@ != sym,
        tick_idx_of(bufs, sym) == -1
            ==> forall|j: int| 0 <= j < bufs.len() ==> (#[trigger] bufs[j].0)@ != sym,
    decreases bufs.len(),
{
    if bufs.len() == 0 {
    } else if bufs[0].0@ == sym {
    } else {
        lemma_tick_idx_of_range(bufs.drop_first(), sym);
        let rest = bufs.drop_first();
        assert forall|j: int| 1 <= j < bufs.len() implies (#[trigger] bufs[j].0)
            == rest[j - 1].0 by {}
    }
}

proof fn lemma_tick_idx_of_first(bufs: Seq<(String, Vec<Tick>)>, sym: Seq<char>, i: int)
    requires
        0 <= i < bufs.len(),
        bufs[i].0@ == sym,
        forall|j: int| 0 <= j < i ==> bufs[j].0@ != sym,
    ensures
        tick_idx_of(bufs, sym) == i,
    decreases bufs.len(),
{
    if i == 0 {
    } else {
        assert(bufs[0].0@ != sym);
        lemma_tick_idx_of_first(bufs.drop_first(), sym, i - 1);
    }
}

proof fn lemma_tick_idx_of_none(bufs: Seq<(String, Vec<Tick>)>, sym: Seq<char>)
    requires
        forall|j: int| 0 <= j < bufs.len() ==> bufs[j].0@ != sym,
    ensures
        tick_idx_of(bufs, sym) == -1,
    decreases bufs.len(),
{
    if bufs.len() == 0 {
    } else {
        lemma_tick_idx_of_none(bufs.drop_first(), sym);
    }
}

/// Bounded most-recent tick history per symbol.
pub struct TickBuffer {
    buffers: Vec<(String, Vec<Tick>)>,
    capacity: usize,
}

/// Index of the first entry whose key is `symbol`, if any.
fn find_entry(bufs: &Vec<(String, Vec<Tick>)>, symbol: &str) -> (r: Option<usize>)
    ensures
        match r {
            Some(k) => k < bufs@.len() && tick_idx_of(bufs@, symbol@) == k as int,
            None => tick_idx_of(bufs@, symbol@) == -1,
        },
{
    let n = bufs.len();
    let mut i: usize = 0;
    while i < n
        invariant
            0 <= i <= n,
            n == bufs@.len(),
            forall|j: int| 0 <= j < i ==> bufs@[j].0@ != symbol@,
        decreases n - i,
    {
        if crate::types::str_eq(bufs[i].0.as_str(), symbol) {
            proof {
                lemma_tick_idx_of_first(bufs@, symbol@, i as int);
            }
            return Some(i);
        }
        i = i + 1;
    }
    proof {
        lemma_tick_idx_of_none(bufs@, symbol@);
    }
    None
}

impl TickBuffer {
    /// Ticks held for `sym`, oldest first (empty when the symbol is
    /// unknown).
    pub closed spec fn ticks_for(&self, sym: Seq<char>) -> Seq<Tick> {
        let i = tick_idx_of(self.buffers@, sym);
        if i >= 0 { self.buffers@[i].1@ } else { Seq::empty() }
    }

    pub closed spec fn cap(&self) -> int {
        self.capacity as int
    }

    pub closed spec fn inv(&self) -> bool {
        &&& 1 <= self.capacity <= 1_000_000
        &&& forall|i: int| 0 <= i < self.buffers@.len()
            ==> (#[trigger] self.buffers@[i].1@.len()) <= self.capacity as int
    }

    pub fn new(capacity: usize) -> (r: TickBuffer)
        requires
            1 <= capacity <= 1_000_000,
        ensures
            r.inv(),
            r.cap() == capacity,
            forall|s: Seq<char>| #[trigger] r.ticks_for(s) == Seq::<Tick>::empty(),
    {
        let r = TickBuffer { buffers: Vec::new(), capacity };
        proof {
            assert forall|s: Seq<char>| #[trigger] r.ticks_for(s) == Seq::<Tick>::empty() by {
                lemma_tick_idx_of_range(r.buffers@, s);
            }
        }
        r
    }

    /// Append a tick under its symbol, evicting the oldest entry of that
    /// symbol's buffer when it is full.  Other symbols are untouched.
    pub fn push(&mut self, tick: Tick)
        requires
            old(self).inv(),
        ensures
            final(self).inv(),
            final(self).cap() == old(self).cap(),
            final(self).ticks_for(tick.symbol@) == (if old(self).ticks_for(tick.symbol@).len()
                >= old(self).cap() {
                old(self).ticks_for(tick.symbol@).drop_first().push(tick)
            } else {
                old(self).ticks_for(tick.symbol@).push(tick)
            }),
            forall|s: Seq<char>| s != tick.symbol@
                ==> #[trigger] final(self).ticks_for(s) == old(self).ticks_for(s),
    {
        let ghost sym = tick.symbol@;
        let ghost bufs0 = self.buffers@;
        match find_entry(&self.buffers, tick.symbol.as_str()) {
            Some(idx) => {
                let mut entry = self.buffers.remove(idx);
                if entry.1.len() >= self.capacity {
                    entry.1.remove(0);
                }
                entry.1.push(tick);
                let ghost e = entry;
                self.buffers.insert(idx, entry);
                proof {
                    lemma_tick_idx_of_range(bufs0, sym);
                    assert(self.buffers@ =~= bufs0.update(idx as int, e));
                    lemma_tick_idx_of_first(self.buffers@, sym, idx as int);
                    assert forall|s: Seq<char>| s != sym
                        implies #[trigger] self.ticks_for(s) == old(self).ticks_for(s) by {
                        let i0 = tick_idx_of(bufs0, s);
                        lemma_tick_idx_of_range(bufs0, s);
                        if i0 >= 0 {
                            lemma_tick_idx_of_first(self.buffers@, s, i0);
                        } else {
                            lemma_tick_idx_of_none(self.buffers@, s);
                        }
                    }
                }
            },
            None => {
                let mut fresh: Vec<Tick> = Vec::new();
                let key = clone_string(&tick.symbol);
                fresh.push(tick);
                self.buffers.push((key, fresh));
                proof {
                    lemma_tick_idx_of_range(bufs0, sym);
                    let m = self.buffers@.len() - 1;
                    lemma_tick_idx_of_first(self.buffers@, sym, m);
                    assert(self.ticks_for(sym) =~= old(self).ticks_for(sym).push(tick));
                    assert forall|s: Seq<char>| s != sym
                        implies #[trigger] self.ticks_for(s) == old(self).ticks_for(s) by {
                        let i0 = tick_idx_of(bufs0, s);
                        lemma_tick_idx_of_range(bufs0, s);
                        if i0 >= 0 {
                            lemma_tick_idx_of_first(self.buffers@, s, i0);
                        } else {
                            lemma_tick_idx_of_none(self.buffers@, s);
                        }
                    }
                }
            },
        }
    }

    /// The most recent tick for a symbol.
    pub fn get_last(&self, symbol: &str) -> (r: Option<Tick>)
        requires
            self.inv(),
        ensures
            self.ticks_for(symbol@).len() == 0 ==> r is None,
            self.ticks_for(symbol@).len() > 0 ==> r == Some(self.ticks_for(symbol@).last()),
    {
        let mut ticks = self.get_all(symbol);
        if ticks.len() == 0 {
            None
        } else {
            let last = ticks.remove(ticks.len() - 1);
            Some(last)
        }
    }

    /// The most recent `n` ticks for a symbol, oldest first.
    pub fn get_recent(&self, symbol: &str, n: usize) -> (r: Vec<Tick>)
        requires
            self.inv(),
        ensures
            r@ == self.ticks_for(symbol@).subrange(
                self.ticks_for(symbol@).len() - (if n <= self.ticks_for(symbol@).len() {
                    n as int
                } else {
                    self.ticks_for(symbol@).len() as int
                }), self.ticks_for(symbol@).len() as int),
    {
        let all = self.get_all(symbol);
        let count = if n <= all.len() { n } else { all.len() };
        let start = all.len() - count;
        let mut out: Vec<Tick> = Vec::new();
        let mut i: usize = start;
        while i < all.len()
            invariant
                start <= i <= all@.len(),
                out@ == all@.subrange(start as int, i as int),
            decreases all@.len() - i,
        {
            out.push(clone_tick(&all[i]));
            proof {
                assert(out@ =~= all@.subrange(start as int, i as int + 1));
            }
            i = i + 1;
        }
        out
    }

    /// All ticks held for a symbol, oldest first.
    pub fn get_all(&self, symbol: &str) -> (r: Vec<Tick>)
        requires
            self.inv(),
        ensures
            r@ == self.ticks_for(symbol@),
    {
        match find_entry(&self.buffers, symbol) {
            Some(i) => {
                let src = &self.buffers[i].1;
                let mut out: Vec<Tick> = Vec::new();
                let mut j: usize = 0;
                while j < src.len()
                    invariant
                        0 <= j <= src@.len(),
                        out@ == src@.subrange(0, j as int),
                    decreases src@.len() - j,
                {
                    out.push(clone_tick(&src[j]));
                    proof {
                        assert(out@ =~= src@.subrange(0, j as int + 1));
                    }
                    j = j + 1;
                }
                proof {
                    assert(out@ =~= src@);
                }
                out
            },
            None => Vec::new(),
        }
    }

    /// Drop every tick held for one symbol.
    pub fn clear(&mut self, symbol: &str)
        requires
            old(self).inv(),
        ensures
            final(self).inv(),
            final(self).cap() == old(self).cap(),
            final(self).ticks_for(symbol@) == Seq::<Tick>::empty(),
            forall|s: Seq<char>| s != symbol@
                ==> #[trigger] final(self).ticks_for(s) == old(self).ticks_for(s),
    {
        let ghost sym = symbol@;
        let ghost bufs0 = self.buffers@;
        match find_entry(&self.buffers, symbol) {
            Some(i) => {
                let mut entry = self.buffers.remove(i);
                entry.1 = Vec::new();
                let ghost e = entry;
                self.buffers.insert(i, entry);
                proof {
                    lemma_tick_idx_of_range(bufs0, sym);
                    assert(self.buffers@ =~= bufs0.update(i as int, e));
                    lemma_tick_idx_of_first(self.buffers@, sym, i as int);
                    assert(self.ticks_for(sym) =~= Seq::<Tick>::empty());
                    assert forall|s: Seq<char>| s != sym
                        implies #[trigger] self.ticks_for(s) == old(self).ticks_for(s) by {
                        let i0 = tick_idx_of(bufs0, s);
                        lemma_tick_idx_of_range(bufs0, s);
                        if i0 >= 0 {
                            lemma_tick_idx_of_first(self.buffers@, s, i0);
                        } else {
                            lemma_tick_idx_of_none(self.buffers@, s);
                        }
                    }
                }
            },
            None => {
                proof {
                    lemma_tick_idx_of_range(self.buffers@, sym);
                }
            },
        }
    }

    /// Drop all buffers.
    pub fn clear_all(&mut self)
        requires
            old(self).inv(),
        ensures
            final(self).inv(),
            final(self).cap() == old(self).cap(),
            forall|s: Seq<char>| #[trigger] final(self).ticks_for(s) == Seq::<Tick>::empty(),
    {
        self.buffers = Vec::new();
        proof {
            assert forall|s: Seq<char>| #[trigger] self.ticks_for(s)
                == Seq::<Tick>::empty() by {
                lemma_tick_idx_of_range(self.buffers@, s);
            }
        }
    }
}

/// Field-for-field copy of a string.
pub fn clone_string(s: &String) -> (r: String)
    ensures
        r == *s,
{
    s.clone()
}

/// Field-for-field copy of a string list.
pub fn clone_string_vec(v: &Vec<String>) -> (r: Vec<String>)
    ensures
        r@ == v@,
{
    let mut out: Vec<String> = Vec::new();
    let mut i: usize = 0;
    while i < v.len()
        invariant
            0 <= i <= v@.len(),
            out@ == v@.subrange(0, i as int),
        decreases v@.len() - i,
    {
        out.push(clone_string(&v[i]));
        proof {
            assert(out@ =~= v@.subrange(0, i as int + 1));
        }
        i = i + 1;
    }
    proof {
        assert(out@ =~= v@);
    }
    out
}

/// Field-for-field copy of a tick.
pub fn clone_tick(t: &Tick) -> (r: Tick)
    ensures
        r == *t,
{
    Tick {
        symbol: clone_string(&t.symbol),
        token: clone_string(&t.token),
        ltp: t.ltp,
        bid: t.bid,
        ask: t.ask,
        volume: t.volume,
        timestamp_ms: t.timestamp_ms,
    }
}

} // verus!
