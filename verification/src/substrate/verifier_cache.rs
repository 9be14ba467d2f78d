//! The cache of proof verifiers, by the hash of the kind of message they
//! verify: entries expire an hour after their last use, and when too many
//! remain the least used are dropped. Also the bytes a message's proof is
//! checked against, and the outcome of a check.

use vstd::prelude::*;
use crate::bytes::{append_bytes, be64, bytes_equal, push_be64};
use crate::chain::{AdapterError, chain_code};
use crate::message::FrostMessage;
use crate::text::owned;

verus! {

broadcast use vstd::string::group_string_axioms;

/// Seconds a verifier stays cached after its last use.
pub const VERIFIER_CACHE_TTL: u64 = 3600;

/// The most verifiers kept after a cleanup.
pub const MAX_VERIFIER_CACHE_SIZE: usize = 1000;

/// The bytes a message's proof attests: origin and destination chain codes,
/// payload, nonce and timestamp, numbers as 8 big-endian bytes.
pub open spec fn spec_verification_input(m: FrostMessage) -> Seq<u8> {
    be64(chain_code(m.from_chain)) + be64(chain_code(m.to_chain)) + m.payload@ + be64(m.nonce) + be64(m.timestamp)
}

/// The bytes a message's proof attests.
pub fn verification_input(message: &FrostMessage) -> (v: Vec<u8>)
    ensures
        v@ == spec_verification_input(*message),
{
    let mut data: Vec<u8> = Vec::new();
    push_be64(&mut data, message.from_chain.to_u64());
    push_be64(&mut data, message.to_chain.to_u64());
    append_bytes(&mut data, message.payload.as_slice());
    push_be64(&mut data, message.nonce);
    push_be64(&mut data, message.timestamp);
    assert(data@ =~= spec_verification_input(*message));
    data
}

/// The error for a message that carries no proof.
pub fn missing_proof_error() -> (e: AdapterError)
    ensures
        e matches AdapterError::Other(m) && m@ == "Message has no attached proof"@,
{
    AdapterError::Other(owned("Message has no attached proof"))
}

/// The outcome of a proof check: a proof found invalid is an error.
pub fn proof_check_outcome(is_valid: bool) -> (r: Result<(), AdapterError>)
    ensures
        is_valid ==> r is Ok,
        !is_valid ==> (r matches Err(AdapterError::Other(m)) && m@ == "Invalid proof"@),
{
    if is_valid {
        Ok(())
    } else {
        Err(AdapterError::Other(owned("Invalid proof")))
    }
}

/// A cached verifier with its key, when it was last used (seconds since the
/// epoch) and how often it was used.
pub struct VerifierEntry<V> {
    pub key: Vec<u8>,
    pub value: V,
    pub last_used: u64,
    pub use_count: u64,
}

/// No key occurs twice.
pub open spec fn verifier_keys_distinct<V>(s: Seq<VerifierEntry<V>>) -> bool {
    forall|x: int, y: int| #![trigger s[x], s[y]] 0 <= x < y < s.len() ==> s[x].key@ != s[y].key@
}

/// Whether some entry has the given key.
pub open spec fn has_verifier<V>(s: Seq<VerifierEntry<V>>, k: Seq<u8>) -> bool {
    exists|i: int| 0 <= i < s.len() && #[trigger] s[i].key@ == k
}

/// The position of the entry with the given key.
pub open spec fn verifier_index<V>(s: Seq<VerifierEntry<V>>, k: Seq<u8>) -> int {
    choose|i: int| 0 <= i < s.len() && #[trigger] s[i].key@ == k
}

/// Whether an entry last used at `last_used` is still fresh at `now`: used
/// no later than `now` and less than [`VERIFIER_CACHE_TTL`] seconds before.
pub open spec fn is_fresh(last_used: u64, now: u64) -> bool {
    last_used <= now && now - last_used < VERIFIER_CACHE_TTL
}

/// `kept` holds exactly `n` of the entries of `r`, and none of those left out
/// was used more often than one kept.
pub open spec fn keeps_most_used<V>(r: Seq<VerifierEntry<V>>, kept: Seq<VerifierEntry<V>>, n: nat) -> bool {
    &&& kept.len() == n
    &&& verifier_keys_distinct(kept)
    &&& forall|i: int| 0 <= i < kept.len() ==> r.contains(#[trigger] kept[i])
    &&& forall|j: int, i: int|
        0 <= j < r.len() && 0 <= i < kept.len() && !kept.contains(#[trigger] r[j])
            ==> r[j].use_count <= #[trigger] kept[i].use_count
}

/// `after` is what a cleanup at `now` leaves of `before`: the fresh entries,
/// and of those, when there are more than [`MAX_VERIFIER_CACHE_SIZE`], the
/// most used [`MAX_VERIFIER_CACHE_SIZE`].
pub open spec fn verifiers_cleaned<V>(before: Seq<VerifierEntry<V>>, now: u64, after: Seq<VerifierEntry<V>>) -> bool {
    let r = before.filter(|e: VerifierEntry<V>| is_fresh(e.last_used, now));
    if r.len() <= MAX_VERIFIER_CACHE_SIZE {
        after == r
    } else {
        keeps_most_used(r, after, MAX_VERIFIER_CACHE_SIZE as nat)
    }
}

/// Verifiers by key.
pub struct VerifierCache<V> {
    entries: Vec<VerifierEntry<V>>,
}

impl<V> VerifierCache<V> {
    /// The entries.
    pub closed spec fn entries(&self) -> Seq<VerifierEntry<V>> {
        self.entries@
    }

    /// No key occurs twice.
    pub open spec fn wf(&self) -> bool {
        verifier_keys_distinct(self.entries())
    }

    /// An empty cache.
    pub fn new() -> (c: Self)
        ensures
            c.wf(),
            c.entries().len() == 0,
    {
        VerifierCache { entries: Vec::new() }
    }

    /// Number of cached verifiers.
    pub fn len(&self) -> (n: usize)
        ensures
            n == self.entries().len(),
    {
        self.entries.len()
    }

    fn find(&self, key: &[u8]) -> (r: Option<usize>)
        ensures
            match r {
                Some(i) => i < self.entries().len() && self.entries()[i as int].key@ == key@,
                None => !has_verifier(self.entries(), key@),
            },
    {
        let mut i: usize = 0;
        while i < self.entries.len()
            invariant
                i <= self.entries.len(),
                forall|j: int| 0 <= j < i ==> self.entries@[j].key@ != key@,
            decreases self.entries.len() - i,
        {
            if bytes_equal(self.entries[i].key.as_slice(), key) {
                return Some(i);
            }
            i += 1;
        }
        None
    }

    /// The cached verifier for a key, if any.
    pub fn get(&self, key: &[u8]) -> (r: Option<&V>)
        requires
            self.wf(),
        ensures
            has_verifier(self.entries(), key@) ==> r == Some(&self.entries()[verifier_index(self.entries(), key@)].value),
            !has_verifier(self.entries(), key@) ==> r is None,
    {
        match self.find(key) {
            Some(i) => {
                proof {
                    let s = self.entries@;
                    let c = verifier_index(s, key@);
                    if c < i as int {
                        assert(s[c].key@ != s[i as int].key@);
                    } else if c > i as int {
                        assert(s[i as int].key@ != s[c].key@);
                    }
                }
                Some(&self.entries[i].value)
            },
            None => None,
        }
    }

    /// Records a use at `now` of the verifier for a key, if cached: its last
    /// use becomes `now` and its count grows by one. Returns whether it was
    /// cached.
    pub fn touch(&mut self, key: &[u8], now: u64) -> (hit: bool)
        requires
            old(self).wf(),
            forall|i: int| 0 <= i < old(self).entries().len() && #[trigger] old(self).entries()[i].key@ == key@
                ==> old(self).entries()[i].use_count < u64::MAX,
        ensures
            final(self).wf(),
            hit == has_verifier(old(self).entries(), key@),
            final(self).entries().len() == old(self).entries().len(),
            forall|i: int| 0 <= i < final(self).entries().len() ==> {
                let e = old(self).entries()[i];
                let f = #[trigger] final(self).entries()[i];
                &&& f.key == e.key
                &&& f.value == e.value
                &&& if e.key@ == key@ {
                    f.last_used == now && f.use_count == e.use_count + 1
                } else {
                    f.last_used == e.last_used && f.use_count == e.use_count
                }
            },
    {
        let ghost s = self.entries@;
        match self.find(key) {
            Some(i) => {
                let mut e = self.entries.remove(i);
                e.last_used = now;
                e.use_count = e.use_count + 1;
                self.entries.insert(i, e);
                proof {
                    assert forall|j: int| 0 <= j < s.len() && j != i as int implies s[j].key@ != key@ by {
                        if j < i as int {
                            assert(s[j].key@ != s[i as int].key@);
                        } else {
                            assert(s[i as int].key@ != s[j].key@);
                        }
                    }
                    assert forall|x: int, y: int| #![trigger self.entries@[x], self.entries@[y]]
                        0 <= x < y < self.entries@.len() implies self.entries@[x].key@ != self.entries@[y].key@ by {
                        assert(s[x].key@ != s[y].key@);
                    }
                }
                true
            },
            None => false,
        }
    }

    /// Caches a verifier for a key, used once at `now`, replacing what was
    /// cached for the key.
    pub fn insert(&mut self, key: Vec<u8>, value: V, now: u64)
        requires
            old(self).wf(),
        ensures
            final(self).wf(),
            ({
                let e = VerifierEntry { key, value, last_used: now, use_count: 1 };
                let s = old(self).entries();
                final(self).entries() == if has_verifier(s, key@) {
                    s.update(verifier_index(s, key@), e)
                } else {
                    s.push(e)
                }
            }),
    {
        let ghost s = self.entries@;
        let ghost k = key@;
        match self.find(key.as_slice()) {
            Some(i) => {
                proof {
                    let c = verifier_index(s, k);
                    if c < i as int {
                        assert(s[c].key@ != s[i as int].key@);
                    } else if c > i as int {
                        assert(s[i as int].key@ != s[c].key@);
                    }
                }
                self.entries.set(i, VerifierEntry { key, value, last_used: now, use_count: 1 });
                proof {
                    assert forall|x: int, y: int| #![trigger self.entries@[x], self.entries@[y]]
                        0 <= x < y < self.entries@.len() implies self.entries@[x].key@ != self.entries@[y].key@ by {
                        assert(s[x].key@ != s[y].key@);
                    }
                }
            },
            None => {
                self.entries.push(VerifierEntry { key, value, last_used: now, use_count: 1 });
                proof {
                    assert forall|x: int, y: int| #![trigger self.entries@[x], self.entries@[y]]
                        0 <= x < y < self.entries@.len() implies self.entries@[x].key@ != self.entries@[y].key@ by {
                        assert(self.entries@[x] == s[x]);
                        if y < s.len() {
                            assert(s[x].key@ != s[y].key@);
                        }
                    }
                }
            },
        }
    }

    fn retain_fresh(&mut self, now: u64)
        requires
            old(self).wf(),
        ensures
            final(self).wf(),
            final(self).entries() == old(self).entries().filter(|e: VerifierEntry<V>| is_fresh(e.last_used, now)),
    {
        let ghost s = self.entries@;
        let ghost keep = |e: VerifierEntry<V>| is_fresh(e.last_used, now);
        let mut rest: Vec<VerifierEntry<V>> = Vec::new();
        std::mem::swap(&mut rest, &mut self.entries);
        let mut kept: Vec<VerifierEntry<V>> = Vec::new();
        let n = rest.len();
        let mut i: usize = 0;
        while i < n
            invariant
                n == s.len(),
                i <= n,
                rest@ == s.skip(i as int),
                kept@ == s.take(i as int).filter(keep),
                keep == (|e: VerifierEntry<V>| is_fresh(e.last_used, now)),
            decreases n - i,
        {
            assert(rest@[0] == s[i as int]);
            let e = rest.remove(0);
            assert(rest@ =~= s.skip(i as int + 1));
            assert(s.take(i as int + 1) =~= s.take(i as int).push(s[i as int]));
            proof {
                s.take(i as int).lemma_filter_push(s[i as int], keep);
            }
            if e.last_used <= now && now - e.last_used < VERIFIER_CACHE_TTL {
                kept.push(e);
            }
            i += 1;
        }
        assert(s.take(n as int) =~= s);
        self.entries = kept;
        proof {
            assert forall|x: int, y: int| #![trigger self.entries@[x], self.entries@[y]]
                0 <= x < y < self.entries@.len() implies self.entries@[x].key@ != self.entries@[y].key@ by {
                lemma_filter_verifiers_distinct(s, keep, x, y);
            }
        }
    }

    fn evict_least_used(&mut self, max: usize)
        requires
            old(self).wf(),
            old(self).entries().len() > max,
        ensures
            keeps_most_used(old(self).entries(), final(self).entries(), max as nat),
    {
        let ghost r = self.entries@;
        while self.entries.len() > max
            invariant
                self.entries.len() >= max,
                verifier_keys_distinct(self.entries@),
                forall|i: int| 0 <= i < self.entries@.len() ==> r.contains(#[trigger] self.entries@[i]),
                forall|j: int, i: int|
                    0 <= j < r.len() && 0 <= i < self.entries@.len() && !self.entries@.contains(#[trigger] r[j])
                        ==> r[j].use_count <= #[trigger] self.entries@[i].use_count,
            decreases self.entries.len(),
        {
            let ghost cur = self.entries@;
            let mut m: usize = 0;
            let mut k: usize = 1;
            while k < self.entries.len()
                invariant
                    self.entries@ == cur,
                    cur.len() > 0,
                    m < cur.len(),
                    1 <= k <= cur.len(),
                    forall|x: int| 0 <= x < k ==> cur[m as int].use_count <= #[trigger] cur[x].use_count,
                decreases self.entries.len() - k,
            {
                if self.entries[k].use_count < self.entries[m].use_count {
                    m = k;
                }
                k += 1;
            }
            self.entries.remove(m);
            let ghost nxt = self.entries@;
            proof {
                cur.remove_ensures(m as int);
                assert(nxt =~= cur.remove(m as int));
                assert forall|i: int| 0 <= i < nxt.len() implies r.contains(#[trigger] nxt[i]) by {
                    if i < m { assert(nxt[i] == cur[i]); } else { assert(nxt[i] == cur[i + 1]); }
                }
                assert forall|a: int, b: int| #![trigger nxt[a], nxt[b]] 0 <= a < b < nxt.len() implies nxt[a].key@ != nxt[b].key@ by {
                    let ca = if a < m { a } else { a + 1 };
                    let cb = if b < m { b } else { b + 1 };
                    assert(nxt[a] == cur[ca]);
                    assert(nxt[b] == cur[cb]);
                    assert(cur[ca].key@ != cur[cb].key@);
                }
                assert forall|j: int, i: int|
                    0 <= j < r.len() && 0 <= i < nxt.len() && !nxt.contains(#[trigger] r[j])
                        implies r[j].use_count <= #[trigger] nxt[i].use_count by {
                    let ci = if i < m { i } else { i + 1 };
                    assert(nxt[i] == cur[ci]);
                    if cur.contains(r[j]) {
                        let c = choose|c: int| 0 <= c < cur.len() && cur[c] == r[j];
                        if c < m {
                            assert(nxt[c] == cur[c]);
                        } else if c > m {
                            assert(nxt[c - 1] == cur[c]);
                        }
                        assert(c == m);
                    } else {
                        assert(r[j].use_count <= cur[ci].use_count);
                    }
                }
            }
        }
    }

    /// Drops the verifiers not used in the last hour before `now` (seconds),
    /// then, while more than [`MAX_VERIFIER_CACHE_SIZE`] remain, the least
    /// used of them.
    pub fn cleanup(&mut self, now: u64)
        requires
            old(self).wf(),
        ensures
            final(self).wf(),
            verifiers_cleaned(old(self).entries(), now, final(self).entries()),
    {
        self.retain_fresh(now);
        if self.entries.len() > MAX_VERIFIER_CACHE_SIZE {
            self.evict_least_used(MAX_VERIFIER_CACHE_SIZE);
        }
    }
}

/// After a cleanup at `now` the cache holds at most
/// [`MAX_VERIFIER_CACHE_SIZE`] verifiers, all fresh, each one it held before.
pub proof fn lemma_verifiers_cleaned_bounds<V>(before: Seq<VerifierEntry<V>>, now: u64, after: Seq<VerifierEntry<V>>)
    requires
        verifiers_cleaned(before, now, after),
    ensures
        after.len() <= MAX_VERIFIER_CACHE_SIZE,
        forall|i: int| 0 <= i < after.len() ==> is_fresh(#[trigger] after[i].last_used, now),
        forall|i: int| 0 <= i < after.len() ==> before.contains(#[trigger] after[i]),
{
    let pred = |e: VerifierEntry<V>| is_fresh(e.last_used, now);
    let r = before.filter(pred);
    assert forall|i: int| 0 <= i < after.len() implies is_fresh(#[trigger] after[i].last_used, now) && before.contains(after[i]) by {
        if r.len() <= MAX_VERIFIER_CACHE_SIZE {
            before.lemma_filter_pred(pred, i);
            assert(r.contains(r[i]));
            before.lemma_filter_contains_rev(pred, r[i]);
        } else {
            assert(r.contains(after[i]));
            let j = choose|j: int| 0 <= j < r.len() && r[j] == after[i];
            before.lemma_filter_pred(pred, j);
            before.lemma_filter_contains_rev(pred, r[j]);
        }
    }
}

proof fn lemma_filter_verifiers_distinct<V>(s: Seq<VerifierEntry<V>>, pred: spec_fn(VerifierEntry<V>) -> bool, a: int, b: int)
    requires
        verifier_keys_distinct(s),
        0 <= a < b < s.filter(pred).len(),
    ensures
        s.filter(pred)[a].key@ != s.filter(pred)[b].key@,
    decreases s.len(),
{
    reveal(Seq::filter);
    if s.len() > 0 {
        let t = s.drop_last();
        assert forall|x: int, y: int| #![trigger t[x], t[y]] 0 <= x < y < t.len() implies t[x].key@ != t[y].key@ by {
            assert(t[x] == s[x]);
            assert(t[y] == s[y]);
        }
        let ft = t.filter(pred);
        if pred(s.last()) {
            if b < ft.len() {
                lemma_filter_verifiers_distinct(t, pred, a, b);
            } else {
                assert(ft.contains(ft[a]));
                t.lemma_filter_contains_rev(pred, ft[a]);
                let x = choose|x: int| 0 <= x < t.len() && t[x] == ft[a];
                assert(s[x] == t[x]);
                assert(s[x].key@ != s[s.len() - 1].key@);
            }
        } else {
            lemma_filter_verifiers_distinct(t, pred, a, b);
        }
    }
}

} // verus!
