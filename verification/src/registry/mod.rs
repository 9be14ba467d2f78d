//! A registry of adapters by id that keeps their health, chooses the best
//! healthy adapter of a chain, and enables or disables adapters as health
//! checks report.

pub mod config;

use vstd::prelude::*;
use crate::chain::{AdapterError, ChainId, chain_code, chain_name};
use crate::digest::{decimal_string, decimal_text};
use crate::health::{ConnectionStatus, HealthMetrics};
use crate::text::{join, owned, str_eq};
pub use config::RegistryConfig;

verus! {

broadcast use vstd::string::group_string_axioms;

/// A registered adapter with its health record. The success rate is the
/// fraction `success_num / success_den`; a zero denominator is a rate that
/// meets no threshold.
pub struct RegistryEntry<A> {
    pub adapter_id: String,
    pub chain_id: ChainId,
    pub adapter: A,
    /// When the adapter was registered (milliseconds since the epoch).
    pub registered_at: u64,
    /// When its health was last checked (milliseconds since the epoch).
    pub last_health_check: u64,
    /// Since when it has been seen unhealthy without a break (milliseconds
    /// since the epoch), if it is unhealthy.
    pub unhealthy_since: Option<u64>,
    pub health_metrics: HealthMetrics,
    pub enabled: bool,
    pub success_num: u64,
    pub success_den: u64,
    pub total_operations: u64,
}

/// Number of entries of the given chain.
pub open spec fn count_chain<A>(s: Seq<RegistryEntry<A>>, c: ChainId) -> nat
    decreases s.len(),
{
    if s.len() == 0 {
        0
    } else {
        count_chain(s.drop_last(), c) + if s.last().chain_id == c { 1nat } else { 0nat }
    }
}

/// No adapter id occurs twice.
pub open spec fn ids_distinct<A>(s: Seq<RegistryEntry<A>>) -> bool {
    forall|i: int, j: int| 0 <= i < j < s.len() ==> s[i].adapter_id@ != s[j].adapter_id@
}

/// Whether some entry has the given id.
pub open spec fn has_id<A>(s: Seq<RegistryEntry<A>>, id: Seq<char>) -> bool {
    exists|i: int| 0 <= i < s.len() && #[trigger] s[i].adapter_id@ == id
}

/// The position of the entry with the given id.
pub open spec fn id_index<A>(s: Seq<RegistryEntry<A>>, id: Seq<char>) -> int {
    choose|i: int| 0 <= i < s.len() && #[trigger] s[i].adapter_id@ == id
}

/// Whether a success rate `num / den` reaches `min_bp` basis points.
pub open spec fn rate_at_least(num: u64, den: u64, min_bp: u32) -> bool {
    den > 0 && num * 10000 >= min_bp * den
}

/// Whether an entry may serve its chain `c`: enabled, of that chain, healthy,
/// and successful often enough.
pub open spec fn eligible<A>(e: RegistryEntry<A>, c: ChainId, min_bp: u32) -> bool {
    &&& e.enabled
    &&& e.chain_id == c
    &&& e.health_metrics.connection_status == ConnectionStatus::Healthy
    &&& rate_at_least(e.success_num, e.success_den, min_bp)
}

/// Whether entry `a` is strictly better than entry `b`: a higher success rate,
/// or the same rate and a lower average response time.
pub open spec fn better<A>(a: RegistryEntry<A>, b: RegistryEntry<A>) -> bool {
    a.success_num * b.success_den > b.success_num * a.success_den
        || (a.success_num * b.success_den == b.success_num * a.success_den
            && a.health_metrics.avg_response_time < b.health_metrics.avg_response_time)
}

/// The text of the error for a chain that has its most adapters.
pub open spec fn at_capacity_text(max: usize, c: ChainId) -> Seq<char> {
    "Maximum number of adapters ("@ + decimal_text(max as u64) + ") reached for chain "@ + chain_name(c)
}

/// The text of the error for an id registered and healthy.
pub open spec fn already_registered_text(id: Seq<char>, c: ChainId) -> Seq<char> {
    "Adapter "@ + id + " for chain "@ + chain_name(c) + " already registered and healthy"@
}

/// Milliseconds from `since` to `now`, zero when `now` is earlier.
pub open spec fn elapsed_ms(since: u64, now: u64) -> nat {
    if now > since { (now - since) as nat } else { 0 }
}

/// Whether an adapter unhealthy since `since` (milliseconds) has been
/// unhealthy at `now` for longer than the configured duration (nanoseconds).
pub open spec fn unhealthy_too_long(since: u64, now: u64, cfg: RegistryConfig) -> bool {
    elapsed_ms(since, now) * 1_000_000 > cfg.max_unhealthy_duration
}

/// Since when an adapter is unhealthy after a check at `now` that saw
/// `status`, given since when it was unhealthy before: a span that goes on is
/// kept, a new one starts now, and any other status ends it.
pub open spec fn unhealthy_span(before: Option<u64>, status: ConnectionStatus, now: u64) -> Option<u64> {
    if status == ConnectionStatus::Unhealthy {
        match before {
            Some(t) => Some(t),
            None => Some(now),
        }
    } else {
        None
    }
}

/// The entry after a health check at `now` that returned `result`: without a
/// result it is unchanged; with one, the metrics and counts are taken over,
/// the success rate is taken from them when the entry had counted operations,
/// a healthy adapter is enabled again when the configuration says so. An
/// unhealthy result starts the unhealthy span (or continues it), any other
/// result ends it, and an adapter unhealthy for longer than the configured
/// duration is disabled.
pub open spec fn spec_checked<A>(e: RegistryEntry<A>, result: Option<HealthMetrics>, now: u64, cfg: RegistryConfig) -> RegistryEntry<A> {
    match result {
        None => e,
        Some(m) => RegistryEntry {
            success_num: if e.total_operations > 0 { (m.total_calls - m.failed_calls) as u64 } else { e.success_num },
            success_den: if e.total_operations > 0 { m.total_calls } else { e.success_den },
            health_metrics: m,
            last_health_check: now,
            total_operations: m.total_calls,
            unhealthy_since: unhealthy_span(e.unhealthy_since, m.connection_status, now),
            enabled: if m.connection_status == ConnectionStatus::Healthy && cfg.auto_reenable {
                true
            } else if m.connection_status == ConnectionStatus::Unhealthy
                && unhealthy_too_long(unhealthy_span(e.unhealthy_since, m.connection_status, now)->0, now, cfg) {
                false
            } else {
                e.enabled
            },
            ..e
        },
    }
}

/// Adapters by id, with their health and the configuration.
pub struct AdapterRegistry<A> {
    entries: Vec<RegistryEntry<A>>,
    config: RegistryConfig,
}

impl<A> AdapterRegistry<A> {
    /// The entries, in registration order.
    pub closed spec fn entries(&self) -> Seq<RegistryEntry<A>> {
        self.entries@
    }

    /// The configuration in force.
    pub closed spec fn config(&self) -> RegistryConfig {
        self.config
    }

    /// The number of adapters of a chain.
    pub open spec fn chain_count(&self, c: ChainId) -> nat {
        count_chain(self.entries(), c)
    }

    /// No id is registered twice.
    pub open spec fn wf(&self) -> bool {
        ids_distinct(self.entries())
    }

    /// An empty registry with the given configuration.
    pub fn with_config(config: RegistryConfig) -> (r: Self)
        ensures
            r.wf(),
            r.entries() == Seq::<RegistryEntry<A>>::empty(),
            r.config() == config,
            forall|c: ChainId| r.chain_count(c) == 0,
    {
        AdapterRegistry { entries: Vec::new(), config }
    }

    /// An empty registry with the default configuration.
    pub fn new() -> (r: Self)
        ensures
            r.wf(),
            r.entries() == Seq::<RegistryEntry<A>>::empty(),
            r.config() == config::default_config(),
            forall|c: ChainId| r.chain_count(c) == 0,
    {
        Self::with_config(RegistryConfig::default())
    }

    /// The number of adapters of a chain.
    fn count_of(&self, c: ChainId) -> (n: usize)
        ensures
            n == self.chain_count(c),
    {
        let mut n: usize = 0;
        let mut i: usize = 0;
        while i < self.entries.len()
            invariant
                i <= self.entries.len(),
                n == count_chain(self.entries@.take(i as int), c),
                n <= i,
            decreases self.entries.len() - i,
        {
            assert(self.entries@.take(i as int + 1).drop_last() =~= self.entries@.take(i as int));
            if self.entries[i].chain_id == c {
                n += 1;
            }
            i += 1;
        }
        assert(self.entries@.take(i as int) =~= self.entries@);
        n
    }

    fn find(&self, id: &str) -> (r: Option<usize>)
        ensures
            match r {
                Some(i) => i < self.entries@.len() && self.entries@[i as int].adapter_id@ == id@,
                None => !has_id(self.entries@, id@),
            },
    {
        let mut i: usize = 0;
        while i < self.entries.len()
            invariant
                i <= self.entries.len(),
                forall|j: int| 0 <= j < i ==> self.entries@[j].adapter_id@ != id@,
            decreases self.entries.len() - i,
        {
            if str_eq(self.entries[i].adapter_id.as_str(), id) {
                return Some(i);
            }
            i += 1;
        }
        None
    }

    /// Registers an adapter under its id for its chain, with the health it
    /// reports, at `now` (milliseconds). Refused, with the registry unchanged,
    /// when the chain has its most adapters, or when the id is registered and
    /// healthy and the configuration does not allow registering it again.
    /// Otherwise the entry is added, or replaces the entry with the same id;
    /// the chain then has no more adapters than the configuration allows.
    pub fn register_adapter(&mut self, adapter: A, adapter_id: String, chain_id: ChainId, health: HealthMetrics, now: u64) -> (r: Result<(), AdapterError>)
        requires
            old(self).wf(),
        ensures
            final(self).wf(),
            ({
                let s = old(self).entries();
                let cfg = old(self).config();
                let entry = RegistryEntry {
                    adapter_id: adapter_id,
                    chain_id: chain_id,
                    adapter: adapter,
                    registered_at: now,
                    last_health_check: now,
                    unhealthy_since: unhealthy_span(None, health.connection_status, now),
                    health_metrics: health,
                    enabled: true,
                    success_num: 1,
                    success_den: 1,
                    total_operations: 0,
                };
                if old(self).chain_count(chain_id) >= cfg.max_adapters_per_chain {
                    &&& r matches Err(AdapterError::ConfigurationError(m))
                        && m@ == at_capacity_text(cfg.max_adapters_per_chain, chain_id)
                    &&& *final(self) == *old(self)
                } else if has_id(s, adapter_id@) && !cfg.allow_multiple_adapters
                    && s[id_index(s, adapter_id@)].health_metrics.connection_status == ConnectionStatus::Healthy {
                    &&& r matches Err(AdapterError::ConfigurationError(m))
                        && m@ == already_registered_text(adapter_id@, chain_id)
                    &&& *final(self) == *old(self)
                } else {
                    &&& r is Ok
                    &&& final(self).entries() == if has_id(s, adapter_id@) {
                        s.update(id_index(s, adapter_id@), entry)
                    } else {
                        s.push(entry)
                    }
                    &&& final(self).chain_count(chain_id) <= cfg.max_adapters_per_chain
                    &&& final(self).config() == cfg
                }
            }),
    {
        let ghost s = self.entries@;
        let count = self.count_of(chain_id);
        if count >= self.config.max_adapters_per_chain {
            let max = decimal_string(self.config.max_adapters_per_chain as u64);
            let head = join("Maximum number of adapters (", max.as_str());
            let mid = join(head.as_str(), ") reached for chain ");
            return Err(AdapterError::ConfigurationError(join(mid.as_str(), chain_id.name())));
        }
        let existing = self.find(adapter_id.as_str());
        match existing {
            Some(i) => {
                if !self.config.allow_multiple_adapters
                    && self.entries[i].health_metrics.connection_status == ConnectionStatus::Healthy {
                    proof {
                        assert(id_index(s, adapter_id@) == i as int);
                    }
                    let a = join("Adapter ", adapter_id.as_str());
                    let b = join(a.as_str(), " for chain ");
                    let c = join(b.as_str(), chain_id.name());
                    return Err(AdapterError::ConfigurationError(join(c.as_str(), " already registered and healthy")));
                }
            },
            None => {},
        }
        let entry = RegistryEntry {
            adapter_id,
            chain_id,
            adapter,
            registered_at: now,
            last_health_check: now,
            unhealthy_since: if health.connection_status == ConnectionStatus::Unhealthy { Some(now) } else { None },
            health_metrics: health,
            enabled: true,
            success_num: 1,
            success_den: 1,
            total_operations: 0,
        };
        let ghost e = entry;
        match existing {
            Some(i) => {
                proof {
                    assert(id_index(s, e.adapter_id@) == i as int);
                }
                self.entries.set(i, entry);
                proof {
                    assert forall|a: int, b: int| 0 <= a < b < self.entries@.len()
                        implies self.entries@[a].adapter_id@ != self.entries@[b].adapter_id@ by {
                        if a != i as int && b != i as int {
                            assert(self.entries@[a] == s[a]);
                            assert(self.entries@[b] == s[b]);
                        } else if a == i as int {
                            assert(self.entries@[b] == s[b]);
                        } else {
                            assert(self.entries@[a] == s[a]);
                        }
                    }
                }
            },
            None => {
                self.entries.push(entry);
                proof {
                    assert forall|a: int, b: int| 0 <= a < b < self.entries@.len()
                        implies self.entries@[a].adapter_id@ != self.entries@[b].adapter_id@ by {
                        assert(self.entries@[a] == s[a]);
                        if b < s.len() {
                            assert(self.entries@[b] == s[b]);
                        }
                    }
                }
            },
        }
        proof {
            match existing {
                Some(i) => {
                    assert(self.entries@ == s.update(i as int, e));
                    lemma_count_update(s, i as int, e, chain_id);
                },
                None => {
                    assert(self.entries@ == s.push(e));
                    lemma_count_push(s, e, chain_id);
                },
            }
        }
        Ok(())
    }

    /// Removes the adapter with the given id, so that its chain has one
    /// adapter fewer; an unknown id is an error, with the registry unchanged.
    pub fn deregister_adapter(&mut self, adapter_id: &str) -> (r: Result<(), AdapterError>)
        requires
            old(self).wf(),
        ensures
            final(self).wf(),
            ({
                let s = old(self).entries();
                if has_id(s, adapter_id@) {
                    let i = id_index(s, adapter_id@);
                    let c = s[i].chain_id;
                    &&& r is Ok
                    &&& final(self).entries() == s.remove(i)
                    &&& !has_id(final(self).entries(), adapter_id@)
                    &&& final(self).chain_count(c) + 1 == old(self).chain_count(c)
                    &&& forall|d: ChainId| d != c ==> final(self).chain_count(d) == old(self).chain_count(d)
                    &&& final(self).config() == old(self).config()
                } else {
                    &&& r matches Err(AdapterError::ConfigurationError(m))
                        && m@ == "Adapter "@ + adapter_id@ + " not found"@
                    &&& *final(self) == *old(self)
                }
            }),
    {
        let ghost s = self.entries@;
        match self.find(adapter_id) {
            Some(i) => {
                proof {
                    assert(id_index(s, adapter_id@) == i as int);
                    s.remove_ensures(i as int);
                }
                let _entry = self.entries.remove(i);
                proof {
                    assert(self.entries@ =~= s.remove(i as int));
                    assert forall|a: int, b: int| 0 <= a < b < self.entries@.len()
                        implies self.entries@[a].adapter_id@ != self.entries@[b].adapter_id@ by {
                        let ca = if a < i { a } else { a + 1 };
                        let cb = if b < i { b } else { b + 1 };
                        assert(self.entries@[a] == s[ca]);
                        assert(self.entries@[b] == s[cb]);
                    }
                    assert forall|c: ChainId| #[trigger] count_chain(self.entries@, c)
                        + (if s[i as int].chain_id == c { 1nat } else { 0nat }) == count_chain(s, c) by {
                        lemma_count_remove(s, i as int, c);
                    }
                    assert forall|j: int| 0 <= j < self.entries@.len()
                        implies #[trigger] self.entries@[j].adapter_id@ != adapter_id@ by {
                        let cj = if j < i { j } else { j + 1 };
                        assert(self.entries@[j] == s[cj]);
                    }
                }
                Ok(())
            },
            None => {
                let head = join("Adapter ", adapter_id);
                Err(AdapterError::ConfigurationError(join(head.as_str(), " not found")))
            },
        }
    }

    /// The best adapter that may serve a chain: among the enabled, healthy
    /// adapters of the chain whose success rate reaches the configured
    /// minimum, one that no other beats on success rate, then on average
    /// response time. Without such an adapter, an error.
    pub fn get_adapter(&self, chain_id: ChainId) -> (r: Result<&A, AdapterError>)
        ensures
            ({
                let s = self.entries();
                let min = self.config().min_health_success_rate;
                if exists|i: int| 0 <= i < s.len() && eligible(#[trigger] s[i], chain_id, min) {
                    exists|i: int| {
                        &&& 0 <= i < s.len()
                        &&& eligible(#[trigger] s[i], chain_id, min)
                        &&& r == Ok::<&A, AdapterError>(&s[i].adapter)
                        &&& forall|j: int| 0 <= j < s.len() && eligible(#[trigger] s[j], chain_id, min) ==> !better(s[j], s[i])
                    }
                } else {
                    r matches Err(AdapterError::ConfigurationError(m)) && m@ == "No healthy adapter found for chain "@ + chain_name(chain_id)
                }
            }),
    {
        let ghost s = self.entries@;
        let min = self.config.min_health_success_rate;
        let mut best: Option<usize> = None;
        let mut i: usize = 0;
        while i < self.entries.len()
            invariant
                i <= self.entries.len(),
                s == self.entries@,
                min == self.config.min_health_success_rate,
                match best {
                    None => forall|j: int| 0 <= j < i ==> !eligible(#[trigger] s[j], chain_id, min),
                    Some(b) => {
                        &&& b < i
                        &&& eligible(s[b as int], chain_id, min)
                        &&& forall|j: int| 0 <= j < i && eligible(#[trigger] s[j], chain_id, min) ==> !better(s[j], s[b as int])
                    },
                },
            decreases self.entries.len() - i,
        {
            let e = &self.entries[i];
            let ok = e.enabled && e.chain_id == chain_id
                && e.health_metrics.connection_status == ConnectionStatus::Healthy
                && e.success_den > 0
                && mul_wide(e.success_num, 10000) >= mul_wide(min as u64, e.success_den);
            if ok {
                match best {
                    None => {
                        best = Some(i);
                    },
                    Some(b) => {
                        let cur = &self.entries[b];
                        let lhs = mul_wide(e.success_num, cur.success_den);
                        let rhs = mul_wide(cur.success_num, e.success_den);
                        if lhs > rhs || (lhs == rhs
                            && e.health_metrics.avg_response_time < cur.health_metrics.avg_response_time) {
                            best = Some(i);
                            proof {
                                assert forall|j: int| 0 <= j < i + 1 && eligible(#[trigger] s[j], chain_id, min)
                                    implies !better(s[j], s[i as int]) by {
                                    if j < i {
                                        lemma_better_transitive(s[j], s[b as int], s[i as int]);
                                    }
                                }
                            }
                        }
                    },
                }
            }
            i += 1;
        }
        match best {
            Some(b) => {
                assert(eligible(s[b as int], chain_id, min));
                Ok(&self.entries[b].adapter)
            },
            None => Err(AdapterError::ConfigurationError(join("No healthy adapter found for chain ", chain_id.name()))),
        }
    }

    /// Every entry's id, chain and connection status, in registration order.
    pub fn list_adapters(&self) -> (r: Vec<(String, ChainId, ConnectionStatus)>)
        ensures
            r@.len() == self.entries().len(),
            forall|i: int| 0 <= i < r@.len() ==> {
                &&& (#[trigger] r@[i]).0@ == self.entries()[i].adapter_id@
                &&& r@[i].1 == self.entries()[i].chain_id
                &&& r@[i].2 == self.entries()[i].health_metrics.connection_status
            },
    {
        let mut out: Vec<(String, ChainId, ConnectionStatus)> = Vec::new();
        let mut i: usize = 0;
        while i < self.entries.len()
            invariant
                i <= self.entries.len(),
                out@.len() == i,
                forall|j: int| 0 <= j < i ==> {
                    &&& (#[trigger] out@[j]).0@ == self.entries@[j].adapter_id@
                    &&& out@[j].1 == self.entries@[j].chain_id
                    &&& out@[j].2 == self.entries@[j].health_metrics.connection_status
                },
            decreases self.entries.len() - i,
        {
            let e = &self.entries[i];
            out.push((owned(e.adapter_id.as_str()), e.chain_id, e.health_metrics.connection_status));
            i += 1;
        }
        out
    }

    /// Applies the results of one round of health checks at `now`
    /// (milliseconds): `results[i]` is what the adapter of the `i`-th entry
    /// reported, or `None` when its check failed.
    pub fn run_health_checks(&mut self, results: Vec<Option<HealthMetrics>>, now: u64)
        requires
            old(self).wf(),
            results@.len() == old(self).entries().len(),
            forall|i: int| 0 <= i < results@.len() ==> (#[trigger] results@[i] matches Some(m) ==> m.wf()),
        ensures
            final(self).wf(),
            final(self).entries().len() == old(self).entries().len(),
            forall|i: int| 0 <= i < final(self).entries().len() ==> #[trigger] final(self).entries()[i]
                == spec_checked(old(self).entries()[i], results@[i], now, old(self).config()),
            final(self).config() == old(self).config(),
    {
        let ghost s = self.entries@;
        let ghost rs = results@;
        let cfg = self.config;
        let mut rest: Vec<RegistryEntry<A>> = Vec::new();
        std::mem::swap(&mut rest, &mut self.entries);
        let mut results = results;
        let n = rest.len();
        let mut done: Vec<RegistryEntry<A>> = Vec::new();
        let mut k: usize = 0;
        while k < n
            invariant
                n == s.len(),
                rs.len() == n,
                k <= n,
                rest@ == s.skip(k as int),
                results@ == rs.skip(k as int),
                done@.len() == k,
                forall|j: int| 0 <= j < k ==> #[trigger] done@[j] == spec_checked(s[j], rs[j], now, cfg),
                forall|i: int| 0 <= i < rs.len() ==> (#[trigger] rs[i] matches Some(m) ==> m.wf()),
            decreases n - k,
        {
            assert(rest@[0] == s[k as int]);
            assert(results@[0] == rs[k as int]);
            let mut e = rest.remove(0);
            let res = results.remove(0);
            assert(rest@ =~= s.skip(k as int + 1));
            assert(results@ =~= rs.skip(k as int + 1));
            match res {
                Some(m) => {
                    if e.total_operations > 0 {
                        e.success_num = m.total_calls - m.failed_calls;
                        e.success_den = m.total_calls;
                    }
                    e.health_metrics = m;
                    e.last_health_check = now;
                    e.total_operations = m.total_calls;
                    match e.health_metrics.connection_status {
                        ConnectionStatus::Healthy => {
                            e.unhealthy_since = None;
                            if !e.enabled && cfg.auto_reenable {
                                e.enabled = true;
                            }
                        },
                        ConnectionStatus::Unhealthy => {
                            let since = match e.unhealthy_since {
                                Some(t) => t,
                                None => now,
                            };
                            e.unhealthy_since = Some(since);
                            let elapsed = now.saturating_sub(since);
                            if (elapsed as u128) * 1_000_000 > cfg.max_unhealthy_duration as u128 && e.enabled {
                                e.enabled = false;
                            }
                        },
                        _ => {
                            e.unhealthy_since = None;
                        },
                    }
                },
                None => {},
            }
            done.push(e);
            k += 1;
        }
        self.entries = done;
        proof {
            assert forall|a: int, b: int| 0 <= a < b < self.entries@.len()
                implies self.entries@[a].adapter_id@ != self.entries@[b].adapter_id@ by {
                assert(self.entries@[a].adapter_id == s[a].adapter_id);
                assert(self.entries@[b].adapter_id == s[b].adapter_id);
            }
        }
    }

    /// Replaces the configuration.
    pub fn update_config(&mut self, config: RegistryConfig)
        requires
            old(self).wf(),
        ensures
            final(self).wf(),
            final(self).config() == config,
            final(self).entries() == old(self).entries(),
    {
        self.config = config;
    }
}

impl<A> Default for AdapterRegistry<A> {
    fn default() -> (r: Self)
        ensures
            r.wf(),
            r.entries() == Seq::<RegistryEntry<A>>::empty(),
            r.config() == config::default_config(),
    {
        AdapterRegistry::new()
    }
}

fn mul_wide(a: u64, b: u64) -> (r: u128)
    ensures
        r == a * b,
{
    proof {
        assert((a as int) * (b as int) <= (u64::MAX as int) * (u64::MAX as int)) by (nonlinear_arith);
    }
    (a as u128) * (b as u128)
}

proof fn lemma_better_transitive<A>(a: RegistryEntry<A>, b: RegistryEntry<A>, c: RegistryEntry<A>)
    requires
        a.success_den > 0,
        b.success_den > 0,
        c.success_den > 0,
        !better(a, b),
        better(c, b),
    ensures
        !better(a, c),
{
    let (an, ad) = (a.success_num as int, a.success_den as int);
    let (bn, bd) = (b.success_num as int, b.success_den as int);
    let (cn, cd) = (c.success_num as int, c.success_den as int);
    assert(an * bd <= bn * ad);
    if cn * bd > bn * cd {
        assert(an * cd < cn * ad) by (nonlinear_arith)
            requires an * bd <= bn * ad, cn * bd > bn * cd, ad > 0, bd > 0, cd > 0, an >= 0, bn >= 0, cn >= 0;
    } else {
        assert(cn * bd == bn * cd);
        if an * bd == bn * ad {
            assert(an * cd == cn * ad) by (nonlinear_arith)
                requires an * bd == bn * ad, cn * bd == bn * cd, ad > 0, bd > 0, cd > 0;
        } else {
            assert(an * cd < cn * ad) by (nonlinear_arith)
                requires an * bd < bn * ad, cn * bd == bn * cd, ad > 0, bd > 0, cd > 0, an >= 0, bn >= 0, cn >= 0;
        }
    }
}

proof fn lemma_count_push<A>(s: Seq<RegistryEntry<A>>, x: RegistryEntry<A>, c: ChainId)
    ensures
        count_chain(s.push(x), c) == count_chain(s, c) + if x.chain_id == c { 1nat } else { 0nat },
{
    assert(s.push(x).drop_last() =~= s);
}

proof fn lemma_count_update<A>(s: Seq<RegistryEntry<A>>, i: int, x: RegistryEntry<A>, c: ChainId)
    requires
        0 <= i < s.len(),
    ensures
        count_chain(s.update(i, x), c) + (if s[i].chain_id == c { 1nat } else { 0nat })
            == count_chain(s, c) + if x.chain_id == c { 1nat } else { 0nat },
    decreases s.len(),
{
    let u = s.update(i, x);
    if i == s.len() - 1 {
        assert(u.drop_last() =~= s.drop_last());
    } else {
        lemma_count_update(s.drop_last(), i, x, c);
        assert(u.drop_last() =~= s.drop_last().update(i, x));
        assert(u.last() == s.last());
    }
}

proof fn lemma_count_remove<A>(s: Seq<RegistryEntry<A>>, i: int, c: ChainId)
    requires
        0 <= i < s.len(),
    ensures
        count_chain(s.remove(i), c) + (if s[i].chain_id == c { 1nat } else { 0nat }) == count_chain(s, c),
    decreases s.len(),
{
    let r = s.remove(i);
    if i == s.len() - 1 {
        assert(r =~= s.drop_last());
    } else {
        lemma_count_remove(s.drop_last(), i, c);
        assert(r.drop_last() =~= s.drop_last().remove(i));
        assert(r.last() == s.last());
    }
}

/// The entry after a series of health checks, the `i`-th at `times[i]`
/// returning `results[i]`.
pub open spec fn checked_series<A>(e: RegistryEntry<A>, results: Seq<HealthMetrics>, times: Seq<u64>, cfg: RegistryConfig) -> RegistryEntry<A>
    decreases results.len(),
{
    if results.len() == 0 || times.len() != results.len() {
        e
    } else {
        spec_checked(checked_series(e, results.drop_last(), times.drop_last(), cfg), Some(results.last()), times.last(), cfg)
    }
}

/// An adapter that was healthy and is then found unhealthy at every check of
/// a series is unhealthy since the first of them, and once the last check
/// lies further from the first than the configured duration, it is disabled.
pub proof fn lemma_unhealthy_too_long_disabled<A>(e: RegistryEntry<A>, results: Seq<HealthMetrics>, times: Seq<u64>, cfg: RegistryConfig)
    requires
        e.unhealthy_since is None,
        results.len() > 0,
        times.len() == results.len(),
        forall|i: int| 0 <= i < results.len() ==> (#[trigger] results[i]).connection_status == ConnectionStatus::Unhealthy,
    ensures
        checked_series(e, results, times, cfg).unhealthy_since == Some(times[0]),
        unhealthy_too_long(times[0], times.last(), cfg) ==> !checked_series(e, results, times, cfg).enabled,
    decreases results.len(),
{
    if results.len() > 1 {
        let r2 = results.drop_last();
        let t2 = times.drop_last();
        assert forall|i: int| 0 <= i < r2.len() implies (#[trigger] r2[i]).connection_status == ConnectionStatus::Unhealthy by {
            assert(r2[i] == results[i]);
        }
        lemma_unhealthy_too_long_disabled(e, r2, t2, cfg);
        assert(t2[0] == times[0]);
    } else {
        assert(checked_series(e, results.drop_last(), times.drop_last(), cfg) == e);
    }
    assert(results.last() == results[results.len() - 1]);
    assert(results.last().connection_status == ConnectionStatus::Unhealthy);
}

} // verus!
