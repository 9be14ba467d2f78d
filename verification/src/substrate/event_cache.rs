//! Deduplication of observed message events: the hash that identifies an
//! event, the cache of recently seen hashes and its expiry.

use vstd::prelude::*;
use crate::bytes::{append_bytes, be64, be128, bytes_equal, push_be64, push_be128};
use crate::digest::{blake2b512, blake2b512_digest};
use crate::message::{MessageEvent, MessageEventView};
use crate::scale::copy_range;

verus! {

/// How long, in seconds, a seen event stays in the cache.
pub const MAX_CACHE_AGE: u64 = 3600;

/// The most entries the cache keeps after a cleanup.
pub const MAX_CACHE_SIZE: usize = 10000;

/// The bytes hashed to identify an observed event: the message id (16 bytes,
/// big-endian), the block number (8 bytes, big-endian) when known, and the
/// transaction hash when known.
pub open spec fn event_hash_input(e: MessageEventView) -> Seq<u8> {
    be128(e.message.id)
        + match e.block_number {
            Some(b) => be64(b),
            None => Seq::<u8>::empty(),
        }
        + match e.tx_hash {
            Some(h) => h,
            None => Seq::<u8>::empty(),
        }
}

/// The 32-byte hash that identifies an observed event: the first half of the
/// BLAKE2b-512 digest of [`event_hash_input`].
pub open spec fn event_hash(e: MessageEventView) -> Seq<u8> {
    blake2b512(event_hash_input(e)).subrange(0, 32)
}

/// Computes the hash that identifies an observed event.
pub fn compute_event_hash(event: &MessageEvent) -> (h: Vec<u8>)
    ensures
        h@ == event_hash(event@),
        h@.len() == 32,
{
    let mut data: Vec<u8> = Vec::new();
    push_be128(&mut data, event.message.id);
    let ghost after_id = data@;
    match event.block_number {
        Some(b) => push_be64(&mut data, b),
        None => {},
    }
    let ghost after_block = data@;
    match &event.tx_hash {
        Some(t) => append_bytes(&mut data, t.as_slice()),
        None => {},
    }
    assert(data@ =~= event_hash_input(event@));
    let digest = blake2b512_digest(data.as_slice());
    copy_range(digest.as_slice(), 0, 32)
}

/// Whether an entry of the cache (hash, message timestamp) is still young
/// enough at `now` (seconds) to be kept.
pub open spec fn is_recent(entry: (Seq<u8>, u64), now: u64) -> bool {
    (if now >= entry.1 { now - entry.1 } else { 0 }) < MAX_CACHE_AGE
}

/// No hash occurs twice among the entries.
pub open spec fn keys_distinct(s: Seq<(Seq<u8>, u64)>) -> bool {
    forall|i: int, j: int| 0 <= i < j < s.len() ==> s[i].0 != s[j].0
}

/// Whether some entry has the given hash.
pub open spec fn has_key(s: Seq<(Seq<u8>, u64)>, k: Seq<u8>) -> bool {
    exists|i: int| 0 <= i < s.len() && #[trigger] s[i].0 == k
}

/// The entries after recording `(k, ts)`: an entry with hash `k` is
/// overwritten in place, otherwise the entry is appended.
pub open spec fn spec_insert(s: Seq<(Seq<u8>, u64)>, k: Seq<u8>, ts: u64) -> Seq<(Seq<u8>, u64)> {
    if has_key(s, k) {
        let i = choose|i: int| 0 <= i < s.len() && #[trigger] s[i].0 == k;
        s.update(i, (k, ts))
    } else {
        s.push((k, ts))
    }
}

/// Takes in a batch of events one by one: an event whose hash the cache
/// holds (from before, or from an earlier event of the batch) is dropped;
/// any other is let through and recorded. Gives the cache after the batch and
/// the events let through, in order.
pub open spec fn accept_seq(s: Seq<(Seq<u8>, u64)>, evs: Seq<MessageEventView>) -> (Seq<(Seq<u8>, u64)>, Seq<MessageEventView>)
    decreases evs.len(),
{
    if evs.len() == 0 {
        (s, Seq::empty())
    } else {
        let (c, f) = accept_seq(s, evs.drop_last());
        let e = evs.last();
        if has_key(c, event_hash(e)) {
            (c, f)
        } else {
            (spec_insert(c, event_hash(e), e.message.timestamp), f.push(e))
        }
    }
}

/// `kept` holds exactly `n` of the entries of `r`, and none of those left out
/// is newer than one kept.
pub open spec fn keeps_newest(r: Seq<(Seq<u8>, u64)>, kept: Seq<(Seq<u8>, u64)>, n: nat) -> bool {
    &&& kept.len() == n
    &&& keys_distinct(kept)
    &&& forall|i: int| 0 <= i < kept.len() ==> r.contains(#[trigger] kept[i])
    &&& forall|j: int, i: int|
        0 <= j < r.len() && 0 <= i < kept.len() && !kept.contains(#[trigger] r[j])
            ==> #[trigger] kept[i].1 >= r[j].1
}

/// `after` is what a cleanup at `now` leaves of `before`: the recent entries,
/// and of those, when there are more than [`MAX_CACHE_SIZE`], the newest
/// [`MAX_CACHE_SIZE`].
pub open spec fn cleaned(before: Seq<(Seq<u8>, u64)>, now: u64, after: Seq<(Seq<u8>, u64)>) -> bool {
    let r = before.filter(|e: (Seq<u8>, u64)| is_recent(e, now));
    if r.len() <= MAX_CACHE_SIZE {
        after == r
    } else {
        keeps_newest(r, after, MAX_CACHE_SIZE as nat)
    }
}

/// The views of a list of events.
pub open spec fn events_view(v: Seq<MessageEvent>) -> Seq<MessageEventView> {
    v.map_values(|e: MessageEvent| e@)
}

/// Hashes of recently seen events with the timestamps of their messages.
pub struct EventCache {
    entries: Vec<(Vec<u8>, u64)>,
}

impl View for EventCache {
    type V = Seq<(Seq<u8>, u64)>;

    closed spec fn view(&self) -> Seq<(Seq<u8>, u64)> {
        self.entries@.map_values(|p: (Vec<u8>, u64)| (p.0@, p.1))
    }
}

impl EventCache {
    /// No hash occurs twice in the cache.
    pub open spec fn wf(&self) -> bool {
        keys_distinct(self@)
    }

    /// An empty cache.
    pub fn new() -> (c: EventCache)
        ensures
            c@ == Seq::<(Seq<u8>, u64)>::empty(),
            c.wf(),
    {
        let c = EventCache { entries: Vec::new() };
        assert(c@ =~= Seq::<(Seq<u8>, u64)>::empty());
        c
    }

    /// Number of entries.
    pub fn len(&self) -> (n: usize)
        ensures
            n == self@.len(),
    {
        self.entries.len()
    }

    /// Position of the entry with the given hash, if any.
    fn find(&self, h: &[u8]) -> (r: Option<usize>)
        ensures
            match r {
                Some(i) => i < self@.len() && self@[i as int].0 == h@,
                None => !has_key(self@, h@),
            },
    {
        let mut i: usize = 0;
        while i < self.entries.len()
            invariant
                i <= self.entries.len(),
                self@.len() == self.entries@.len(),
                forall|j: int| 0 <= j < i ==> self@[j].0 != h@,
            decreases self.entries.len() - i,
        {
            if bytes_equal(self.entries[i].0.as_slice(), h) {
                return Some(i);
            }
            i += 1;
        }
        None
    }

    /// Whether an event with the given hash has been seen.
    pub fn contains(&self, h: &[u8]) -> (r: bool)
        ensures
            r == has_key(self@, h@),
    {
        self.find(h).is_some()
    }

    /// Records an event hash with its message timestamp, overwriting the
    /// timestamp of an entry with the same hash.
    pub fn insert(&mut self, h: Vec<u8>, ts: u64)
        requires
            old(self).wf(),
        ensures
            final(self).wf(),
            final(self)@ == spec_insert(old(self)@, h@, ts),
    {
        let ghost s = self@;
        match self.find(h.as_slice()) {
            Some(i) => {
                proof {
                    let c = choose|c: int| 0 <= c < s.len() && #[trigger] s[c].0 == h@;
                    assert(c == i as int);
                }
                self.entries.set(i, (h, ts));
                assert(self@ =~= s.update(i as int, (h@, ts)));
            },
            None => {
                self.entries.push((h, ts));
                assert(self@ =~= s.push((h@, ts)));
            },
        }
    }

    /// Drops the entries that are no longer recent at `now`.
    fn retain_recent(&mut self, now: u64)
        requires
            old(self).wf(),
        ensures
            final(self).wf(),
            final(self)@ == old(self)@.filter(|e: (Seq<u8>, u64)| is_recent(e, now)),
    {
        let ghost s = self@;
        let ghost pred = |e: (Seq<u8>, u64)| is_recent(e, now);
        let mut kept: Vec<(Vec<u8>, u64)> = Vec::new();
        let mut rest: Vec<(Vec<u8>, u64)> = Vec::new();
        std::mem::swap(&mut rest, &mut self.entries);
        let n = rest.len();
        let mut i: usize = 0;
        while i < n
            invariant
                n == s.len(),
                i <= n,
                rest@.len() == n - i,
                forall|j: int| 0 <= j < n - i ==> (#[trigger] rest@[j]).0@ == s[i + j].0 && rest@[j].1 == s[i + j].1,
                kept@.map_values(|p: (Vec<u8>, u64)| (p.0@, p.1)) == s.take(i as int).filter(pred),
                keys_distinct(s),
                pred == (|e: (Seq<u8>, u64)| is_recent(e, now)),
            decreases n - i,
        {
            let ghost before = kept@;
            let (k, ts) = rest.remove(0);
            assert(s.take(i as int + 1) =~= s.take(i as int).push(s[i as int]));
            proof {
                s.take(i as int).lemma_filter_push(s[i as int], pred);
            }
            let age = if now >= ts { now - ts } else { 0 };
            if age < MAX_CACHE_AGE {
                kept.push((k, ts));
                assert(kept@.map_values(|p: (Vec<u8>, u64)| (p.0@, p.1))
                    =~= before.map_values(|p: (Vec<u8>, u64)| (p.0@, p.1)).push(s[i as int]));
            } else {
                assert(kept@ == before);
            }
            i += 1;
        }
        assert(s.take(n as int) =~= s);
        self.entries = kept;
        proof {
            let f = s.filter(pred);
            assert forall|a: int, b: int| 0 <= a < b < f.len() implies f[a].0 != f[b].0 by {
                lemma_filter_distinct(s, pred, a, b);
            }
        }
    }

    /// Evicts the oldest entries until at most `max` remain.
    fn evict_oldest(&mut self, max: usize)
        requires
            old(self).wf(),
            old(self)@.len() > max,
        ensures
            keeps_newest(old(self)@, final(self)@, max as nat),
    {
        let ghost r = self@;
        assert forall|i: int| 0 <= i < self@.len() implies r.contains(#[trigger] self@[i]) by {}
        while self.entries.len() > max
            invariant
                self.entries.len() >= max,
                keys_distinct(self@),
                forall|i: int| 0 <= i < self@.len() ==> r.contains(#[trigger] self@[i]),
                forall|j: int, i: int|
                    0 <= j < r.len() && 0 <= i < self@.len() && !self@.contains(#[trigger] r[j])
                        ==> #[trigger] self@[i].1 >= r[j].1,
            decreases self.entries.len(),
        {
            let ghost cur = self@;
            let mut m: usize = 0;
            let mut k: usize = 1;
            while k < self.entries.len()
                invariant
                    self@ == cur,
                    self.entries@.len() == cur.len(),
                    cur.len() > 0,
                    m < cur.len(),
                    1 <= k <= cur.len(),
                    forall|x: int| 0 <= x < k ==> #[trigger] cur[x].1 >= cur[m as int].1,
                decreases self.entries.len() - k,
            {
                if self.entries[k].1 < self.entries[m].1 {
                    m = k;
                }
                k += 1;
            }
            self.entries.remove(m);
            let ghost nxt = self@;
            assert(nxt =~= cur.remove(m as int));
            proof {
                cur.remove_ensures(m as int);
                assert forall|i: int| 0 <= i < nxt.len() implies r.contains(#[trigger] nxt[i]) by {
                    if i < m { assert(nxt[i] == cur[i]); } else { assert(nxt[i] == cur[i + 1]); }
                }
                assert forall|a: int, b: int| 0 <= a < b < nxt.len() implies nxt[a].0 != nxt[b].0 by {
                    let ca = if a < m { a } else { a + 1 };
                    let cb = if b < m { b } else { b + 1 };
                    assert(nxt[a] == cur[ca]);
                    assert(nxt[b] == cur[cb]);
                }
                assert forall|j: int, i: int|
                    0 <= j < r.len() && 0 <= i < nxt.len() && !nxt.contains(#[trigger] r[j])
                        implies #[trigger] nxt[i].1 >= r[j].1 by {
                    let ci = if i < m { i } else { i + 1 };
                    assert(nxt[i] == cur[ci]);
                    if cur.contains(r[j]) {
                        let c = choose|c: int| 0 <= c < cur.len() && cur[c] == r[j];
                        if c < m {
                            assert(nxt[c] == cur[c]);
                        } else if c > m {
                            assert(nxt[c - 1] == cur[c]);
                        }
                        assert(c == m);
                    } else {
                        assert(cur[ci].1 >= r[j].1);
                    }
                }
            }
        }
    }

    /// Drops the entries that are no longer recent at `now` (seconds), then,
    /// while more than [`MAX_CACHE_SIZE`] remain, the oldest of them.
    pub fn cleanup(&mut self, now: u64)
        requires
            old(self).wf(),
        ensures
            final(self).wf(),
            cleaned(old(self)@, now, final(self)@),
    {
        self.retain_recent(now);
        if self.entries.len() > MAX_CACHE_SIZE {
            self.evict_oldest(MAX_CACHE_SIZE);
        }
    }

    /// Takes in a batch of observed events: returns, in order, those whose
    /// hash was neither in the cache before the call nor that of an earlier
    /// event of the batch, records them, and cleans the cache at `now`
    /// (seconds).
    pub fn accept_batch(&mut self, events: Vec<MessageEvent>, now: u64) -> (fresh: Vec<MessageEvent>)
        requires
            old(self).wf(),
        ensures
            final(self).wf(),
            events_view(fresh@) == accept_seq(old(self)@, events_view(events@)).1,
            cleaned(accept_seq(old(self)@, events_view(events@)).0, now, final(self)@),
    {
        let ghost s = self@;
        let ghost evs = events_view(events@);
        let mut events = events;
        let n = events.len();
        let mut fresh: Vec<MessageEvent> = Vec::new();
        let mut i: usize = 0;
        while i < n
            invariant
                self.wf(),
                n == evs.len(),
                i <= n,
                events@.len() == n - i,
                forall|j: int| 0 <= j < n - i ==> (#[trigger] events@[j])@ == evs[i + j],
                self@ == accept_seq(s, evs.take(i as int)).0,
                events_view(fresh@) == accept_seq(s, evs.take(i as int)).1,
            decreases n - i,
        {
            let ghost fresh_before = fresh@;
            let e = events.remove(0);
            assert(e@ == evs[i as int]);
            assert(evs.take(i as int + 1).drop_last() =~= evs.take(i as int));
            assert(evs.take(i as int + 1).last() == evs[i as int]);
            let h = compute_event_hash(&e);
            if !self.contains(h.as_slice()) {
                let ts = e.message.timestamp;
                self.insert(h, ts);
                fresh.push(e);
                assert(events_view(fresh@) =~= events_view(fresh_before).push(evs[i as int]));
            }
            i += 1;
        }
        assert(evs.take(n as int) =~= evs);
        self.cleanup(now);
        fresh
    }
}

/// Recording an entry keeps every hash already present, and makes its own
/// hash present.
proof fn lemma_insert_keeps_keys(s: Seq<(Seq<u8>, u64)>, k: Seq<u8>, ts: u64, other: Seq<u8>)
    ensures
        has_key(spec_insert(s, k, ts), k),
        has_key(s, other) ==> has_key(spec_insert(s, k, ts), other),
{
    let t = spec_insert(s, k, ts);
    if has_key(s, k) {
        let i = choose|i: int| 0 <= i < s.len() && #[trigger] s[i].0 == k;
        assert(t[i].0 == k);
        if has_key(s, other) {
            let j = choose|j: int| 0 <= j < s.len() && #[trigger] s[j].0 == other;
            if j == i {
                assert(t[j].0 == other);
            } else {
                assert(t[j] == s[j]);
            }
        }
    } else {
        assert(t[s.len() as int].0 == k);
        if has_key(s, other) {
            let j = choose|j: int| 0 <= j < s.len() && #[trigger] s[j].0 == other;
            assert(t[j] == s[j]);
        }
    }
}

/// Taking in a batch lets through events with pairwise distinct hashes,
/// none of which the cache held before; afterwards the cache holds the hash
/// of every event of the batch, and every hash it held before.
pub proof fn lemma_accepted_events_become_seen(s: Seq<(Seq<u8>, u64)>, evs: Seq<MessageEventView>)
    ensures
        ({
            let (c, f) = accept_seq(s, evs);
            &&& forall|i: int, j: int| 0 <= i < j < f.len() ==> event_hash(#[trigger] f[i]) != event_hash(#[trigger] f[j])
            &&& forall|i: int| 0 <= i < f.len() ==> !has_key(s, event_hash(#[trigger] f[i]))
            &&& forall|i: int| 0 <= i < evs.len() ==> has_key(c, event_hash(#[trigger] evs[i]))
            &&& forall|k: Seq<u8>| has_key(s, k) ==> #[trigger] has_key(c, k)
            &&& forall|i: int| 0 <= i < f.len() ==> has_key(c, event_hash(#[trigger] f[i]))
        }),
    decreases evs.len(),
{
    if evs.len() > 0 {
        let init = evs.drop_last();
        lemma_accepted_events_become_seen(s, init);
        let (c0, f0) = accept_seq(s, init);
        let e = evs.last();
        let h = event_hash(e);
        let (c, f) = accept_seq(s, evs);
        assert forall|k: Seq<u8>| has_key(c0, k) implies #[trigger] has_key(c, k) by {
            if !has_key(c0, h) {
                lemma_insert_keeps_keys(c0, h, e.message.timestamp, k);
            }
        }
        if !has_key(c0, h) {
            lemma_insert_keeps_keys(c0, h, e.message.timestamp, h);
        }
        assert forall|i: int| 0 <= i < evs.len() implies has_key(c, event_hash(#[trigger] evs[i])) by {
            if i < evs.len() - 1 {
                assert(evs[i] == init[i]);
                assert(has_key(c0, event_hash(init[i])));
            } else {
                assert(evs[i] == e);
            }
        }
        assert forall|i: int| 0 <= i < f.len() implies has_key(c, event_hash(#[trigger] f[i])) by {
            if i < f0.len() {
                assert(f[i] == f0[i]);
                assert(has_key(c0, event_hash(f0[i])));
            } else {
                assert(f[i] == e);
            }
        }
        if !has_key(c0, h) {
            assert forall|i: int, j: int| 0 <= i < j < f.len() implies event_hash(#[trigger] f[i]) != event_hash(#[trigger] f[j]) by {
                if j < f0.len() {
                    assert(f[i] == f0[i] && f[j] == f0[j]);
                } else {
                    assert(f[j] == e);
                    assert(f[i] == f0[i]);
                    assert(has_key(c0, event_hash(f0[i])));
                }
            }
            assert forall|i: int| 0 <= i < f.len() implies !has_key(s, event_hash(#[trigger] f[i])) by {
                if i < f0.len() {
                    assert(f[i] == f0[i]);
                } else {
                    assert(f[i] == e);
                }
            }
        }
    }
}

/// After a cleanup the cache holds at most [`MAX_CACHE_SIZE`] entries, all of
/// them recent, each one of those it held before.
pub proof fn lemma_cleaned_bounds(before: Seq<(Seq<u8>, u64)>, now: u64, after: Seq<(Seq<u8>, u64)>)
    requires
        cleaned(before, now, after),
    ensures
        after.len() <= MAX_CACHE_SIZE,
        forall|i: int| 0 <= i < after.len() ==> is_recent(#[trigger] after[i], now),
        forall|i: int| 0 <= i < after.len() ==> before.contains(#[trigger] after[i]),
{
    let pred = |e: (Seq<u8>, u64)| is_recent(e, now);
    let r = before.filter(pred);
    assert forall|i: int| 0 <= i < after.len() implies is_recent(#[trigger] after[i], now) && before.contains(after[i]) by {
        if r.len() <= MAX_CACHE_SIZE {
            before.lemma_filter_pred(pred, i);
            assert(r.contains(r[i]));
            before.lemma_filter_contains_rev(pred, r[i]);
        } else {
            assert(r.contains(after[i]));
            let j = choose|j: int| 0 <= j < r.len() && r[j] == after[i];
            before.lemma_filter_pred(pred, j);
            before.lemma_filter_contains_rev(pred, r[j]);
        }
    }
}

/// Filtering keeps distinct hashes distinct.
proof fn lemma_filter_distinct(s: Seq<(Seq<u8>, u64)>, pred: spec_fn((Seq<u8>, u64)) -> bool, a: int, b: int)
    requires
        keys_distinct(s),
        0 <= a < b < s.filter(pred).len(),
    ensures
        s.filter(pred)[a].0 != s.filter(pred)[b].0,
    decreases s.len(),
{
    reveal(Seq::filter);
    if s.len() > 0 {
        let t = s.drop_last();
        assert forall|x: int, y: int| 0 <= x < y < t.len() implies t[x].0 != t[y].0 by {
            assert(t[x] == s[x]);
            assert(t[y] == s[y]);
        }
        let ft = t.filter(pred);
        if pred(s.last()) {
            assert(s.filter(pred) == ft.push(s.last()));
            if b < ft.len() {
                lemma_filter_distinct(t, pred, a, b);
            } else {
                assert(ft.contains(ft[a]));
                t.lemma_filter_contains_rev(pred, ft[a]);
                let x = choose|x: int| 0 <= x < t.len() && t[x] == ft[a];
                assert(s[x] == t[x]);
                assert(s[s.len() - 1] == s.last());
            }
        } else {
            assert(s.filter(pred) == ft);
            lemma_filter_distinct(t, pred, a, b);
        }
    }
}

} // verus!
