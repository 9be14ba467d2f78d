//! A registry that holds at most one adapter per chain.

use vstd::prelude::*;
use crate::chain::{ChainId, chain_name};
use crate::text::join;

verus! {

/// Errors of the adapter registry.
#[derive(Debug, Clone, PartialEq, Eq)]
pub enum AdapterRegistryError {
    /// An adapter for the chain is already registered.
    AdapterAlreadyExists(ChainId),
    /// No adapter is registered for the chain.
    AdapterNotFound(ChainId),
    /// The registry could not be locked.
    LockError(String),
}

/// The text of an error of the registry.
pub open spec fn registry_error_text(e: AdapterRegistryError) -> Seq<char> {
    match e {
        AdapterRegistryError::AdapterAlreadyExists(c) => "Adapter for chain ID "@ + chain_name(c) + " already exists"@,
        AdapterRegistryError::AdapterNotFound(c) => "No adapter found for chain ID "@ + chain_name(c),
        AdapterRegistryError::LockError(m) => "Lock error: "@ + m@,
    }
}

impl AdapterRegistryError {
    /// The text of the error.
    pub fn to_string(&self) -> (s: String)
        ensures
            s@ == registry_error_text(*self),
    {
        match self {
            AdapterRegistryError::AdapterAlreadyExists(c) => {
                let head = join("Adapter for chain ID ", c.name());
                join(head.as_str(), " already exists")
            },
            AdapterRegistryError::AdapterNotFound(c) => join("No adapter found for chain ID ", c.name()),
            AdapterRegistryError::LockError(m) => join("Lock error: ", m.as_str()),
        }
    }
}

/// The registry after registering `a` for `c`: refused when `c` already has an
/// adapter.
pub open spec fn spec_register<A>(m: Map<ChainId, A>, c: ChainId, a: A) -> Result<Map<ChainId, A>, AdapterRegistryError> {
    if m.dom().contains(c) {
        Err(AdapterRegistryError::AdapterAlreadyExists(c))
    } else {
        Ok(m.insert(c, a))
    }
}

/// The first chain of a batch that already has an adapter or that an earlier
/// pair of the batch (or `seen`) names, if any.
pub open spec fn first_conflict_from<A>(m: Map<ChainId, A>, seen: Set<ChainId>, batch: Seq<(ChainId, A)>) -> Option<ChainId>
    decreases batch.len(),
{
    if batch.len() == 0 {
        None
    } else if m.dom().contains(batch[0].0) || seen.contains(batch[0].0) {
        Some(batch[0].0)
    } else {
        first_conflict_from(m, seen.insert(batch[0].0), batch.drop_first())
    }
}

/// The first chain of a batch that already has an adapter, or that an
/// earlier pair of the batch names too, if any.
pub open spec fn first_conflict<A>(m: Map<ChainId, A>, batch: Seq<(ChainId, A)>) -> Option<ChainId> {
    first_conflict_from(m, Set::empty(), batch)
}

/// The registry after inserting each pair of a batch in order.
pub open spec fn insert_batch<A>(m: Map<ChainId, A>, batch: Seq<(ChainId, A)>) -> Map<ChainId, A>
    decreases batch.len(),
{
    if batch.len() == 0 {
        m
    } else {
        insert_batch(m, batch.drop_last()).insert(batch.last().0, batch.last().1)
    }
}

/// The registry after registering a batch: refused, and unchanged, when a
/// chain of the batch already has an adapter or is named twice in the batch,
/// naming the first such chain.
pub open spec fn spec_bulk_register<A>(m: Map<ChainId, A>, batch: Seq<(ChainId, A)>) -> Result<Map<ChainId, A>, AdapterRegistryError> {
    match first_conflict(m, batch) {
        Some(c) => Err(AdapterRegistryError::AdapterAlreadyExists(c)),
        None => Ok(insert_batch(m, batch)),
    }
}

/// The chains in the order in which the registry lists them.
pub open spec fn all_chains() -> Seq<ChainId> {
    seq![ChainId::Ethereum, ChainId::Polkadot, ChainId::Solana, ChainId::Sui]
}

/// The registered chains, in listing order.
pub open spec fn listed<A>(m: Map<ChainId, A>) -> Seq<ChainId> {
    all_chains().filter(|c: ChainId| m.dom().contains(c))
}

/// Holds at most one adapter per chain.
pub struct AdapterRegistry<A> {
    ethereum: Option<A>,
    polkadot: Option<A>,
    solana: Option<A>,
    sui: Option<A>,
}

impl<A> AdapterRegistry<A> {
    /// The adapter registered for a chain, if any.
    pub closed spec fn slot(&self, c: ChainId) -> Option<A> {
        match c {
            ChainId::Ethereum => self.ethereum,
            ChainId::Polkadot => self.polkadot,
            ChainId::Solana => self.solana,
            ChainId::Sui => self.sui,
        }
    }

    /// The registered adapters by chain.
    pub closed spec fn view(&self) -> Map<ChainId, A> {
        Map::new(|c: ChainId| self.slot(c) is Some, |c: ChainId| self.slot(c)->0)
    }

    /// An empty registry.
    pub fn new() -> (r: Self)
        ensures
            r.view() == Map::<ChainId, A>::empty(),
    {
        let r = AdapterRegistry { ethereum: None, polkadot: None, solana: None, sui: None };
        assert(r.view() =~= Map::<ChainId, A>::empty());
        r
    }

    fn take_slot(&mut self, c: ChainId) -> (old_a: Option<A>)
        ensures
            old_a == old(self).slot(c),
            final(self).slot(c) is None,
            forall|d: ChainId| d != c ==> final(self).slot(d) == old(self).slot(d),
    {
        match c {
            ChainId::Ethereum => self.ethereum.take(),
            ChainId::Polkadot => self.polkadot.take(),
            ChainId::Solana => self.solana.take(),
            ChainId::Sui => self.sui.take(),
        }
    }

    fn put_slot(&mut self, c: ChainId, a: A)
        ensures
            final(self).slot(c) == Some(a),
            forall|d: ChainId| d != c ==> final(self).slot(d) == old(self).slot(d),
    {
        match c {
            ChainId::Ethereum => self.ethereum = Some(a),
            ChainId::Polkadot => self.polkadot = Some(a),
            ChainId::Solana => self.solana = Some(a),
            ChainId::Sui => self.sui = Some(a),
        }
    }

    fn slot_ref(&self, c: ChainId) -> (r: &Option<A>)
        ensures
            *r == self.slot(c),
    {
        match c {
            ChainId::Ethereum => &self.ethereum,
            ChainId::Polkadot => &self.polkadot,
            ChainId::Solana => &self.solana,
            ChainId::Sui => &self.sui,
        }
    }

    /// Registers an adapter for a chain; refused when the chain already has
    /// one, and the registry is then unchanged.
    pub fn register_adapter(&mut self, chain_id: ChainId, adapter: A) -> (r: Result<(), AdapterRegistryError>)
        ensures
            match spec_register(old(self).view(), chain_id, adapter) {
                Ok(m) => r is Ok && final(self).view() == m,
                Err(e) => r == Err::<(), AdapterRegistryError>(e) && final(self).view() == old(self).view(),
            },
    {
        if self.slot_ref(chain_id).is_some() {
            return Err(AdapterRegistryError::AdapterAlreadyExists(chain_id));
        }
        let ghost before = self.view();
        self.put_slot(chain_id, adapter);
        assert(self.view() =~= before.insert(chain_id, adapter));
        Ok(())
    }

    /// Registers an adapter for a chain, replacing and returning the one it
    /// had, if any.
    pub fn register_or_update_adapter(&mut self, chain_id: ChainId, adapter: A) -> (r: Result<Option<A>, AdapterRegistryError>)
        ensures
            r == Ok::<Option<A>, AdapterRegistryError>(
                if old(self).view().dom().contains(chain_id) { Some(old(self).view()[chain_id]) } else { None },
            ),
            final(self).view() == old(self).view().insert(chain_id, adapter),
    {
        let ghost before = self.view();
        let previous = self.take_slot(chain_id);
        self.put_slot(chain_id, adapter);
        assert(self.view() =~= before.insert(chain_id, adapter));
        Ok(previous)
    }

    /// The adapter registered for a chain.
    pub fn get_adapter(&self, chain_id: &ChainId) -> (r: Result<&A, AdapterRegistryError>)
        ensures
            self.view().dom().contains(*chain_id) ==> r == Ok::<&A, AdapterRegistryError>(&self.view()[*chain_id]),
            !self.view().dom().contains(*chain_id) ==> r == Err::<&A, AdapterRegistryError>(
                AdapterRegistryError::AdapterNotFound(*chain_id),
            ),
    {
        match self.slot_ref(*chain_id) {
            Some(a) => Ok(a),
            None => Err(AdapterRegistryError::AdapterNotFound(*chain_id)),
        }
    }

    /// Whether a chain has an adapter.
    pub fn has_adapter(&self, chain_id: &ChainId) -> (r: Result<bool, AdapterRegistryError>)
        ensures
            r == Ok::<bool, AdapterRegistryError>(self.view().dom().contains(*chain_id)),
    {
        Ok(self.slot_ref(*chain_id).is_some())
    }

    /// Removes and returns the adapter of a chain, if any.
    pub fn remove_adapter(&mut self, chain_id: &ChainId) -> (r: Result<Option<A>, AdapterRegistryError>)
        ensures
            r == Ok::<Option<A>, AdapterRegistryError>(
                if old(self).view().dom().contains(*chain_id) { Some(old(self).view()[*chain_id]) } else { None },
            ),
            final(self).view() == old(self).view().remove(*chain_id),
    {
        let ghost before = self.view();
        let previous = self.take_slot(*chain_id);
        assert(self.view() =~= before.remove(*chain_id));
        Ok(previous)
    }

    /// The registered chains, each once, in the order Ethereum, Polkadot,
    /// Solana, Sui.
    pub fn list_chain_ids(&self) -> (r: Result<Vec<ChainId>, AdapterRegistryError>)
        ensures
            r matches Ok(v) && v@ == listed(self.view()),
    {
        let ghost m = self.view();
        let ghost p = |c: ChainId| m.dom().contains(c);
        let mut v: Vec<ChainId> = Vec::new();
        if self.ethereum.is_some() { v.push(ChainId::Ethereum); }
        if self.polkadot.is_some() { v.push(ChainId::Polkadot); }
        if self.solana.is_some() { v.push(ChainId::Solana); }
        if self.sui.is_some() { v.push(ChainId::Sui); }
        proof {
            let s = all_chains();
            assert(s.take(0).filter(p) =~= Seq::<ChainId>::empty()) by { reveal(Seq::filter); }
            assert(s.take(1) =~= s.take(0).push(s[0]));
            assert(s.take(2) =~= s.take(1).push(s[1]));
            assert(s.take(3) =~= s.take(2).push(s[2]));
            assert(s.take(4) =~= s.take(3).push(s[3]));
            assert(s.take(4) =~= s);
            s.take(0).lemma_filter_push(s[0], p);
            s.take(1).lemma_filter_push(s[1], p);
            s.take(2).lemma_filter_push(s[2], p);
            s.take(3).lemma_filter_push(s[3], p);
            assert(v@ =~= s.filter(p));
        }
        Ok(v)
    }

    /// The number of registered adapters.
    pub fn count(&self) -> (r: Result<usize, AdapterRegistryError>)
        ensures
            r matches Ok(n) && n == listed(self.view()).len(),
    {
        match self.list_chain_ids() {
            Ok(v) => Ok(v.len()),
            Err(e) => Err(e),
        }
    }

    /// Removes every adapter.
    pub fn clear(&mut self) -> (r: Result<(), AdapterRegistryError>)
        ensures
            r is Ok,
            final(self).view() == Map::<ChainId, A>::empty(),
    {
        self.ethereum = None;
        self.polkadot = None;
        self.solana = None;
        self.sui = None;
        assert(self.view() =~= Map::<ChainId, A>::empty());
        Ok(())
    }

    /// Runs `f` on the registry and returns what it returns.
    pub fn with_adapters<R, F: FnOnce(&AdapterRegistry<A>) -> R>(&self, f: F) -> (r: Result<R, AdapterRegistryError>)
        requires
            call_requires(f, (self,)),
        ensures
            r matches Ok(v) && call_ensures(f, (self,), v),
    {
        Ok(f(self))
    }

    /// Registers a batch of adapters, all or none: refused, with the registry
    /// unchanged, when a chain of the batch already has an adapter or is named
    /// by two pairs of the batch (the error names the first such chain of the
    /// batch); otherwise every pair is registered.
    pub fn bulk_register(&mut self, adapters: Vec<(ChainId, A)>) -> (r: Result<(), AdapterRegistryError>)
        ensures
            match spec_bulk_register(old(self).view(), adapters@) {
                Ok(m) => r is Ok && final(self).view() == m,
                Err(e) => r == Err::<(), AdapterRegistryError>(e) && final(self).view() == old(self).view(),
            },
    {
        let ghost m0 = self.view();
        let ghost batch = adapters@;
        assert(batch.skip(0) =~= batch);
        let mut marks: AdapterRegistry<()> = AdapterRegistry::new();
        assert(marks.view().dom() =~= Set::<ChainId>::empty());
        let mut i: usize = 0;
        while i < adapters.len()
            invariant
                i <= adapters.len(),
                batch == adapters@,
                self.view() == m0,
                first_conflict(m0, batch) == first_conflict_from(m0, marks.view().dom(), batch.skip(i as int)),
            decreases adapters.len() - i,
        {
            let c = adapters[i].0;
            assert(batch.skip(i as int)[0] == batch[i as int]);
            if self.slot_ref(c).is_some() || marks.slot_ref(c).is_some() {
                return Err(AdapterRegistryError::AdapterAlreadyExists(c));
            }
            let ghost before = marks.view();
            marks.put_slot(c, ());
            assert(marks.view().dom() =~= before.dom().insert(c));
            assert(batch.skip(i as int).drop_first() =~= batch.skip(i as int + 1));
            i += 1;
        }
        assert(first_conflict(m0, batch.skip(batch.len() as int)) is None);
        let mut adapters = adapters;
        let n = adapters.len();
        let mut k: usize = 0;
        while k < n
            invariant
                n == batch.len(),
                k <= n,
                adapters@ == batch.skip(k as int),
                self.view() == insert_batch(m0, batch.take(k as int)),
            decreases n - k,
        {
            let ghost before = self.view();
            let (c, a) = adapters.remove(0);
            assert(batch.take(k as int + 1).drop_last() =~= batch.take(k as int));
            assert(adapters@ =~= batch.skip(k as int + 1));
            self.put_slot(c, a);
            assert(self.view() =~= before.insert(c, a));
            k += 1;
        }
        assert(batch.take(n as int) =~= batch);
        Ok(())
    }
}

impl<A> Default for AdapterRegistry<A> {
    fn default() -> (r: Self)
        ensures
            r.view() == Map::<ChainId, A>::empty(),
    {
        AdapterRegistry::new()
    }
}

/// A registration that succeeds makes the adapter retrievable, and one that is
/// refused leaves every chain's adapter as it was.
pub proof fn lemma_register_then_get<A>(m: Map<ChainId, A>, c: ChainId, a: A)
    ensures
        spec_register(m, c, a) is Ok <==> !m.dom().contains(c),
        spec_register(m, c, a) matches Ok(m2) ==> m2.dom().contains(c) && m2[c] == a,
        spec_register(m, c, a) matches Ok(m2) ==> forall|d: ChainId| d != c ==> (m2.dom().contains(d) == m.dom().contains(d)),
{
}

/// A chain whose adapter was removed has none, and registering for it again
/// succeeds.
pub proof fn lemma_remove_then_register<A>(m: Map<ChainId, A>, c: ChainId, a: A)
    ensures
        !m.remove(c).dom().contains(c),
        spec_register(m.remove(c), c, a) == Ok::<Map<ChainId, A>, AdapterRegistryError>(m.remove(c).insert(c, a)),
{
}

/// A batch refused by the registry names a chain of the batch that already had
/// an adapter or that the batch names twice; a batch accepted names chains
/// that had no adapter, each once, and leaves each with its adapter of the
/// batch.
pub proof fn lemma_bulk_register_all_or_nothing<A>(m: Map<ChainId, A>, batch: Seq<(ChainId, A)>)
    ensures
        spec_bulk_register(m, batch) matches Err(AdapterRegistryError::AdapterAlreadyExists(c)) ==> exists|i: int|
            0 <= i < batch.len() && batch[i].0 == c
                && (m.dom().contains(c) || exists|j: int| 0 <= j < i && batch[j].0 == c),
        spec_bulk_register(m, batch) is Ok ==> forall|i: int| 0 <= i < batch.len() ==> !m.dom().contains(#[trigger] batch[i].0),
        spec_bulk_register(m, batch) is Ok ==> forall|i: int, j: int|
            0 <= j < i < batch.len() ==> #[trigger] batch[j].0 != #[trigger] batch[i].0,
        spec_bulk_register(m, batch) matches Ok(m2) ==> forall|i: int| 0 <= i < batch.len()
            ==> m2.dom().contains(#[trigger] batch[i].0) && m2[batch[i].0] == batch[i].1,
        spec_bulk_register(m, batch) is Ok <==> {
            &&& forall|i: int| 0 <= i < batch.len() ==> !m.dom().contains(#[trigger] batch[i].0)
            &&& forall|i: int, j: int| 0 <= j < i < batch.len() ==> #[trigger] batch[j].0 != #[trigger] batch[i].0
        },
        spec_bulk_register(m, batch) matches Ok(m2) ==> m2.dom() =~= m.dom().union(
            Set::new(|c: ChainId| exists|i: int| 0 <= i < batch.len() && batch[i].0 == c),
        ),
{
    lemma_first_conflict(m, Set::empty(), batch);
    if (forall|i: int| 0 <= i < batch.len() ==> !m.dom().contains(#[trigger] batch[i].0))
        && (forall|i: int, j: int| 0 <= j < i < batch.len() ==> #[trigger] batch[j].0 != #[trigger] batch[i].0) {
        lemma_no_conflict(m, Set::empty(), batch);
    }
    if first_conflict(m, batch) is None {
        lemma_insert_batch_keys(m, batch);
    }
    if first_conflict(m, batch) is None {
        lemma_insert_batch_dom(m, batch);
    }
}

proof fn lemma_first_conflict<A>(m: Map<ChainId, A>, seen: Set<ChainId>, batch: Seq<(ChainId, A)>)
    ensures
        first_conflict_from(m, seen, batch) matches Some(c) ==> exists|i: int| 0 <= i < batch.len() && batch[i].0 == c
            && (m.dom().contains(c) || seen.contains(c) || exists|j: int| 0 <= j < i && batch[j].0 == c),
        first_conflict_from(m, seen, batch) is None ==> forall|i: int| 0 <= i < batch.len()
            ==> !m.dom().contains(#[trigger] batch[i].0) && !seen.contains(batch[i].0),
        first_conflict_from(m, seen, batch) is None ==> forall|i: int, j: int|
            0 <= j < i < batch.len() ==> #[trigger] batch[j].0 != #[trigger] batch[i].0,
    decreases batch.len(),
{
    if batch.len() > 0 && !(m.dom().contains(batch[0].0) || seen.contains(batch[0].0)) {
        let rest = batch.drop_first();
        let seen2 = seen.insert(batch[0].0);
        lemma_first_conflict(m, seen2, rest);
        if first_conflict_from(m, seen2, rest) is Some {
            let c = first_conflict_from(m, seen2, rest)->0;
            let i = choose|i: int| 0 <= i < rest.len() && rest[i].0 == c
                && (m.dom().contains(c) || seen2.contains(c) || exists|j: int| 0 <= j < i && rest[j].0 == c);
            assert(batch[i + 1].0 == c);
            if !m.dom().contains(c) && !seen.contains(c) {
                if c == batch[0].0 {
                    assert(0 < i + 1 && batch[0].0 == c);
                } else {
                    let j = choose|j: int| 0 <= j < i && rest[j].0 == c;
                    assert(batch[j + 1].0 == c);
                }
            }
        } else {
            assert forall|i: int| 0 <= i < batch.len() implies !m.dom().contains(#[trigger] batch[i].0)
                && !seen.contains(batch[i].0) by {
                if i > 0 {
                    assert(batch[i] == rest[i - 1]);
                }
            }
            assert forall|i: int, j: int| 0 <= j < i < batch.len() implies #[trigger] batch[j].0 != #[trigger] batch[i].0 by {
                assert(batch[i] == rest[i - 1]);
                if j > 0 {
                    assert(batch[j] == rest[j - 1]);
                    assert(rest[j - 1].0 != rest[i - 1].0);
                } else {
                    assert(!seen2.contains(rest[i - 1].0));
                }
            }
        }
    }
}

proof fn lemma_no_conflict<A>(m: Map<ChainId, A>, seen: Set<ChainId>, batch: Seq<(ChainId, A)>)
    requires
        forall|i: int| 0 <= i < batch.len() ==> !m.dom().contains(#[trigger] batch[i].0) && !seen.contains(batch[i].0),
        forall|i: int, j: int| 0 <= j < i < batch.len() ==> #[trigger] batch[j].0 != #[trigger] batch[i].0,
    ensures
        first_conflict_from(m, seen, batch) is None,
    decreases batch.len(),
{
    if batch.len() > 0 {
        let rest = batch.drop_first();
        let seen2 = seen.insert(batch[0].0);
        assert(!m.dom().contains(batch[0].0) && !seen.contains(batch[0].0));
        assert forall|i: int| 0 <= i < rest.len() implies !m.dom().contains(#[trigger] rest[i].0) && !seen2.contains(rest[i].0) by {
            assert(rest[i] == batch[i + 1]);
            assert(batch[0].0 != batch[i + 1].0);
        }
        assert forall|i: int, j: int| 0 <= j < i < rest.len() implies #[trigger] rest[j].0 != #[trigger] rest[i].0 by {
            assert(rest[i] == batch[i + 1] && rest[j] == batch[j + 1]);
        }
        lemma_no_conflict(m, seen2, rest);
    }
}

/// The keys after inserting a batch are the keys before and the chains of the
/// batch.
proof fn lemma_insert_batch_keys<A>(m: Map<ChainId, A>, batch: Seq<(ChainId, A)>)
    ensures
        insert_batch(m, batch).dom() =~= m.dom().union(
            Set::new(|c: ChainId| exists|i: int| 0 <= i < batch.len() && batch[i].0 == c),
        ),
    decreases batch.len(),
{
    if batch.len() > 0 {
        let init = batch.drop_last();
        lemma_insert_batch_keys(m, init);
        let whole = Set::new(|c: ChainId| exists|i: int| 0 <= i < batch.len() && batch[i].0 == c);
        let part = Set::new(|c: ChainId| exists|i: int| 0 <= i < init.len() && init[i].0 == c);
        assert forall|c: ChainId| whole.contains(c) <==> (part.contains(c) || c == batch.last().0) by {
            if whole.contains(c) {
                let i = choose|i: int| 0 <= i < batch.len() && batch[i].0 == c;
                if i < batch.len() - 1 {
                    assert(init[i] == batch[i]);
                }
            }
            if part.contains(c) {
                let i = choose|i: int| 0 <= i < init.len() && init[i].0 == c;
                assert(batch[i] == init[i]);
            }
            if c == batch.last().0 {
                assert(batch[batch.len() - 1].0 == c);
            }
        }
    }
}

proof fn lemma_insert_batch_dom<A>(m: Map<ChainId, A>, batch: Seq<(ChainId, A)>)
    requires
        forall|i: int, j: int| 0 <= j < i < batch.len() ==> #[trigger] batch[j].0 != #[trigger] batch[i].0,
    ensures
        forall|i: int| 0 <= i < batch.len() ==> insert_batch(m, batch).dom().contains(#[trigger] batch[i].0)
            && insert_batch(m, batch)[batch[i].0] == batch[i].1,
    decreases batch.len(),
{
    if batch.len() > 0 {
        let init = batch.drop_last();
        assert forall|i: int, j: int| 0 <= j < i < init.len() implies #[trigger] init[j].0 != #[trigger] init[i].0 by {
            assert(init[j] == batch[j] && init[i] == batch[i]);
        }
        lemma_insert_batch_dom(m, init);
        assert forall|i: int| 0 <= i < batch.len() implies insert_batch(m, batch).dom().contains(#[trigger] batch[i].0)
            && insert_batch(m, batch)[batch[i].0] == batch[i].1 by {
            if i < batch.len() - 1 {
                assert(batch[i] == init[i]);
                assert(batch[i].0 != batch[batch.len() - 1].0);
            }
        }
    }
}

} // verus!
