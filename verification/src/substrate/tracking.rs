//! The state of the Polkadot adapter that its decisions work on: the
//! transactions it submitted and their progress, message status, finality,
//! retry delays and the check of the chain's metadata.

use vstd::prelude::*;
use crate::chain::{AdapterError, MessageStatus};
use crate::digest::{decimal_string, decimal_text, random_hash32};
use crate::health::HealthMetrics;
use crate::message::MessageId;
use crate::scale::copy_range;
use crate::substrate::config::{DEFAULT_CONFIRMATIONS, PolkadotConfig};
use crate::text::{join, owned, str_eq};

verus! {

broadcast use vstd::string::group_string_axioms;

/// Longest wait for finality, in nanoseconds (ten minutes).
pub const MAX_FINALITY_WAIT_TIME: u64 = 600_000_000_000;

/// Attempts of one RPC call.
pub const MAX_RETRY_ATTEMPTS: u32 = 3;

/// Delay before the first retry, in milliseconds.
pub const RETRY_BASE_DELAY_MS: u64 = 1000;

/// Longest delay between retries, in milliseconds.
pub const MAX_RETRY_DELAY_MS: u64 = 30_000;

/// Where a submitted transaction stands.
#[derive(Debug, Clone, Copy, PartialEq, Eq, Structural)]
pub enum TxTrackingStatus {
    Submitted,
    InBlock,
    Finalized,
    Failed,
    Unknown,
}

/// A submitted transaction and its progress. The submission time is in
/// milliseconds since the epoch.
#[derive(Debug)]
pub struct TransactionInfo {
    pub message_id: MessageId,
    pub tx_hash: Vec<u8>,
    pub block_number: Option<u32>,
    pub status: TxTrackingStatus,
    pub submitted_at: u64,
    pub confirmations: u32,
    pub error: Option<String>,
}

/// Abstract value of a [`TransactionInfo`].
pub struct TransactionInfoView {
    pub message_id: MessageId,
    pub tx_hash: Seq<u8>,
    pub block_number: Option<u32>,
    pub status: TxTrackingStatus,
    pub submitted_at: u64,
    pub confirmations: u32,
    pub error: Option<Seq<char>>,
}

impl View for TransactionInfo {
    type V = TransactionInfoView;

    open spec fn view(&self) -> TransactionInfoView {
        TransactionInfoView {
            message_id: self.message_id,
            tx_hash: self.tx_hash@,
            block_number: self.block_number,
            status: self.status,
            submitted_at: self.submitted_at,
            confirmations: self.confirmations,
            error: match self.error {
                Some(e) => Some(e@),
                None => None,
            },
        }
    }
}

/// The abstract value of a list of transactions.
pub open spec fn infos_view(v: Seq<TransactionInfo>) -> Seq<TransactionInfoView> {
    v.map_values(|t: TransactionInfo| t@)
}

/// No message has two transactions.
pub open spec fn message_ids_distinct(s: Seq<TransactionInfoView>) -> bool {
    forall|x: int, y: int| #![trigger s[x], s[y]] 0 <= x < y < s.len() ==> s[x].message_id != s[y].message_id
}

/// Whether a message has a transaction.
pub open spec fn has_message(s: Seq<TransactionInfoView>, id: MessageId) -> bool {
    exists|i: int| 0 <= i < s.len() && #[trigger] s[i].message_id == id
}

/// The position of a message's transaction.
pub open spec fn message_index(s: Seq<TransactionInfoView>, id: MessageId) -> int {
    choose|i: int| 0 <= i < s.len() && #[trigger] s[i].message_id == id
}

/// With distinct message ids, the transaction at `i` is the one found for its
/// message.
pub proof fn lemma_message_index(s: Seq<TransactionInfoView>, i: int)
    requires
        message_ids_distinct(s),
        0 <= i < s.len(),
    ensures
        has_message(s, s[i].message_id),
        message_index(s, s[i].message_id) == i,
{
    let c = message_index(s, s[i].message_id);
    assert(s[c].message_id == s[i].message_id);
}

/// The transaction after a status update: the status is replaced, and the
/// block number and error when given.
pub open spec fn spec_updated(t: TransactionInfoView, status: TxTrackingStatus, block: Option<u32>, error: Option<Seq<char>>) -> TransactionInfoView {
    TransactionInfoView {
        status,
        block_number: if block is Some { block } else { t.block_number },
        error: if error is Some { error } else { t.error },
        ..t
    }
}

/// A step in the progress of a submitted transaction, as the chain reports it.
pub enum TxProgressEvent {
    /// Included in a block; the number when the block could be read.
    InBlock(Option<u32>),
    /// Finalized.
    Finalized,
    /// Any other step.
    Other,
    /// The transaction failed, with the reason.
    Error(String),
}

/// What is known of a message's status before the chain is asked again.
pub enum StatusLookup {
    /// The status is known.
    Resolved(MessageStatus),
    /// The transaction is in the given block: confirmations decide.
    InBlock(u32),
}

/// The status of a message whose transaction is in `block` with the chain at
/// `current`.
pub fn confirmation_status(block: u32, current: u32, required: u32) -> (s: MessageStatus)
    ensures
        (if current >= block { current - block } else { 0 }) >= required ==> s == MessageStatus::Confirmed,
        (if current >= block { current - block } else { 0 }) < required ==> s == MessageStatus::Pending,
{
    if current.saturating_sub(block) >= required {
        MessageStatus::Confirmed
    } else {
        MessageStatus::Pending
    }
}

/// The delay, in milliseconds, before retry number `attempt + 1`: the base
/// delay doubled `attempt` times, but at most [`MAX_RETRY_DELAY_MS`].
pub open spec fn spec_retry_delay(attempt: u32) -> int {
    let d = RETRY_BASE_DELAY_MS * crate::retry::pow2(attempt as nat);
    if d <= MAX_RETRY_DELAY_MS { d } else { MAX_RETRY_DELAY_MS as int }
}

/// The first retry waits the base delay, each later one twice the one
/// before, up to the cap, which is never exceeded.
pub proof fn lemma_retry_delay_doubles(attempt: u32)
    requires
        attempt < u32::MAX,
    ensures
        spec_retry_delay(0) == RETRY_BASE_DELAY_MS,
        spec_retry_delay((attempt + 1) as u32) == if 2 * spec_retry_delay(attempt) <= MAX_RETRY_DELAY_MS {
            2 * spec_retry_delay(attempt)
        } else {
            MAX_RETRY_DELAY_MS as int
        },
        0 < spec_retry_delay(attempt) <= MAX_RETRY_DELAY_MS,
{
    assert(crate::retry::pow2((attempt + 1) as nat) == 2 * crate::retry::pow2(attempt as nat));
    lemma_pow2_positive(attempt as nat);
}

proof fn lemma_pow2_positive(n: nat)
    ensures
        crate::retry::pow2(n) >= 1,
    decreases n,
{
    if n > 0 {
        lemma_pow2_positive((n - 1) as nat);
    }
}

/// The delay before a retry of an RPC call.
pub fn retry_delay(attempt: u32) -> (d: u64)
    ensures
        d == spec_retry_delay(attempt),
        attempt == 0 ==> d == RETRY_BASE_DELAY_MS,
        0 < d <= MAX_RETRY_DELAY_MS,
{
    proof {
        lemma_pow2_positive(attempt as nat);
    }
    let mut d: u64 = RETRY_BASE_DELAY_MS;
    let mut i: u32 = 0;
    while i < attempt
        invariant
            i <= attempt,
            d <= MAX_RETRY_DELAY_MS ==> d == RETRY_BASE_DELAY_MS * crate::retry::pow2(i as nat),
            d > MAX_RETRY_DELAY_MS ==> RETRY_BASE_DELAY_MS * crate::retry::pow2(i as nat) > MAX_RETRY_DELAY_MS,
            d <= 2 * MAX_RETRY_DELAY_MS,
        decreases attempt - i,
    {
        if d <= MAX_RETRY_DELAY_MS {
            d = d * 2;
        } else {
            proof {
                lemma_pow2_step(i as nat);
            }
        }
        i += 1;
    }
    if d <= MAX_RETRY_DELAY_MS {
        d
    } else {
        MAX_RETRY_DELAY_MS
    }
}

proof fn lemma_pow2_step(n: nat)
    ensures
        crate::retry::pow2(n + 1) == 2 * crate::retry::pow2(n),
        crate::retry::pow2(n + 1) >= crate::retry::pow2(n),
{
}

/// The block after which `block` is final given the required confirmations.
pub fn finality_target(block: u32, confirmations: u32) -> (t: u32)
    requires
        block + confirmations <= u32::MAX,
    ensures
        t == block + confirmations,
{
    block + confirmations
}

/// The text of the error for a wait for finality of `block` that ran out of
/// time (ten minutes).
pub open spec fn finality_timeout_text(block: u32) -> Seq<char> {
    "Finality wait timeout for block "@ + decimal_text(block as u64) + " after 600s"@
}

fn finality_timeout(block: u32) -> (e: AdapterError)
    ensures
        e matches AdapterError::Timeout(m) && m@ == finality_timeout_text(block),
{
    let n = decimal_string(block as u64);
    let head = join("Finality wait timeout for block ", n.as_str());
    AdapterError::Timeout(join(head.as_str(), " after 600s"))
}

/// Checks the deadline of a wait for finality that has lasted `elapsed`
/// nanoseconds.
pub fn check_finality_deadline(block: u32, elapsed: u64) -> (r: Result<(), AdapterError>)
    ensures
        elapsed <= MAX_FINALITY_WAIT_TIME ==> r is Ok,
        elapsed > MAX_FINALITY_WAIT_TIME ==> (r matches Err(AdapterError::Timeout(m))
            && m@ == finality_timeout_text(block)),
{
    if elapsed > MAX_FINALITY_WAIT_TIME {
        Err(finality_timeout(block))
    } else {
        Ok(())
    }
}

/// What a wait for finality does next.
#[derive(Debug)]
pub enum FinalityStep {
    /// The block is final.
    Done,
    /// Poll again after a block time.
    Wait,
    /// The wait ran out of time, with this error.
    TimedOut(AdapterError),
}

/// One step of waiting for `block` to have `confirmations` confirmations,
/// `elapsed` nanoseconds into the wait, given what the poll of the latest
/// block gave: past the deadline the wait times out; otherwise it is done
/// once the latest block reaches the target, and waits on when it does not
/// or when the poll failed (a passing network problem does not end the
/// wait).
pub fn finality_step(block: u32, confirmations: u32, elapsed: u64, poll: Result<u32, AdapterError>) -> (s: FinalityStep)
    requires
        block + confirmations <= u32::MAX,
    ensures
        elapsed > MAX_FINALITY_WAIT_TIME ==> (s matches FinalityStep::TimedOut(e)
            && e matches AdapterError::Timeout(m) && m@ == finality_timeout_text(block)),
        elapsed <= MAX_FINALITY_WAIT_TIME ==> (s is Done <==> (poll matches Ok(n) && n >= block + confirmations)),
        elapsed <= MAX_FINALITY_WAIT_TIME && !(s is Done) ==> s is Wait,
{
    if elapsed > MAX_FINALITY_WAIT_TIME {
        return FinalityStep::TimedOut(finality_timeout(block));
    }
    let target = finality_target(block, confirmations);
    match poll {
        Ok(n) => if n >= target { FinalityStep::Done } else { FinalityStep::Wait },
        Err(_) => FinalityStep::Wait,
    }
}

/// The error of a failed connection to a node: the node's error text, or a
/// timeout when there is none.
pub fn connection_error(rpc_url: &str, detail: Option<&str>) -> (e: AdapterError)
    ensures
        e matches AdapterError::Network(m) && m@ == match detail {
            Some(d) => "Failed to connect to "@ + rpc_url@ + ": "@ + d@,
            None => "Connection timeout to "@ + rpc_url@,
        },
{
    match detail {
        Some(d) => {
            let a = join("Failed to connect to ", rpc_url);
            let b = join(a.as_str(), ": ");
            AdapterError::Network(join(b.as_str(), d))
        },
        None => AdapterError::Network(join("Connection timeout to ", rpc_url)),
    }
}

/// The number of the latest block from the header a node returned; no header
/// is a network error.
pub fn latest_block_number(header_number: Option<u32>) -> (r: Result<u32, AdapterError>)
    ensures
        header_number matches Some(n) ==> r == Ok::<u32, AdapterError>(n),
        header_number is None ==> (r matches Err(AdapterError::Network(m)) && m@ == "No block header found"@),
{
    match header_number {
        Some(n) => Ok(n),
        None => Err(AdapterError::Network(owned("No block header found"))),
    }
}

/// What the metadata says of a pallet: whether it has the pallet, and the
/// names of its calls and events where they could be read.
pub struct PalletMetadata {
    pub calls: Option<Vec<String>>,
    pub events: Option<Vec<String>>,
}

/// Whether a list of names holds the given one.
pub open spec fn names_contain(names: Seq<String>, name: Seq<char>) -> bool {
    exists|i: int| 0 <= i < names.len() && #[trigger] names[i]@ == name
}

fn contains_name(names: &Vec<String>, name: &str) -> (r: bool)
    ensures
        r == names_contain(names@, name@),
{
    let mut i: usize = 0;
    while i < names.len()
        invariant
            i <= names.len(),
            forall|j: int| 0 <= j < i ==> names@[j]@ != name@,
        decreases names.len() - i,
    {
        if str_eq(names[i].as_str(), name) {
            return true;
        }
        i += 1;
    }
    false
}

/// What is wrong with the metadata of the message pallet, if anything, in the
/// order in which it is checked: the pallet must exist, its calls be readable
/// and hold `submit_message`, its events be readable and hold `MessageSent`.
pub open spec fn metadata_problem(pallet_name: Seq<char>, pallet: Option<PalletMetadata>) -> Option<Seq<char>> {
    match pallet {
        None => Some("Pallet "@ + pallet_name + " not found in metadata"@),
        Some(p) => match p.calls {
            None => Some("Failed to get call variants"@),
            Some(calls) => if !names_contain(calls@, "submit_message"@) {
                Some("Required call 'submit_message' not found in pallet "@ + pallet_name)
            } else {
                match p.events {
                    None => Some("Failed to get event variants"@),
                    Some(events) => if !names_contain(events@, "MessageSent"@) {
                        Some("Required event 'MessageSent' not found in pallet "@ + pallet_name)
                    } else {
                        None
                    },
                }
            },
        },
    }
}

/// Checks that the message pallet of the chain's metadata offers the call and
/// the event the adapter relies on.
pub fn validate_metadata(pallet_name: &str, pallet: Option<PalletMetadata>) -> (r: Result<(), AdapterError>)
    ensures
        match metadata_problem(pallet_name@, pallet) {
            None => r is Ok,
            Some(m) => r matches Err(AdapterError::Configuration(e)) && e@ == m,
        },
{
    match pallet {
        None => {
            let head = join("Pallet ", pallet_name);
            Err(AdapterError::Configuration(join(head.as_str(), " not found in metadata")))
        },
        Some(p) => match p.calls {
            None => Err(AdapterError::Configuration(owned("Failed to get call variants"))),
            Some(calls) => {
                if !contains_name(&calls, "submit_message") {
                    return Err(AdapterError::Configuration(
                        join("Required call 'submit_message' not found in pallet ", pallet_name),
                    ));
                }
                match p.events {
                    None => Err(AdapterError::Configuration(owned("Failed to get event variants"))),
                    Some(events) => {
                        if !contains_name(&events, "MessageSent") {
                            Err(AdapterError::Configuration(
                                join("Required event 'MessageSent' not found in pallet ", pallet_name),
                            ))
                        } else {
                            Ok(())
                        }
                    },
                }
            },
        },
    }
}

/// Whether the runtime was upgraded: its version, given as spec and
/// transaction version, differs from the one known before.
pub fn runtime_upgraded(before: Option<(u32, u32)>, after: Option<(u32, u32)>) -> (r: bool)
    ensures
        r == (before != after),
{
    match (before, after) {
        (None, None) => false,
        (Some(a), Some(b)) => a.0 != b.0 || a.1 != b.1,
        _ => true,
    }
}

/// The state of the Polkadot adapter that its decisions work on.
pub struct PolkadotAdapter {
    config: PolkadotConfig,
    transactions: Vec<TransactionInfo>,
    health: HealthMetrics,
}

impl PolkadotAdapter {
    /// The configuration.
    pub closed spec fn config(&self) -> PolkadotConfig {
        self.config
    }

    /// The tracked transactions.
    pub closed spec fn transactions(&self) -> Seq<TransactionInfoView> {
        infos_view(self.transactions@)
    }

    /// The health counters.
    pub closed spec fn health(&self) -> HealthMetrics {
        self.health
    }

    /// No message has two transactions, and the counters are consistent.
    pub open spec fn wf(&self) -> bool {
        message_ids_distinct(self.transactions()) && self.health().wf()
    }

    /// An adapter with the given configuration, tracking nothing, with fresh
    /// health counters at `now` (milliseconds).
    pub fn new(config: PolkadotConfig, now: u64) -> (a: PolkadotAdapter)
        ensures
            a.wf(),
            a.config() == config,
            a.transactions().len() == 0,
            a.health() == HealthMetrics::spec_new_at(now),
    {
        let a = PolkadotAdapter { config, transactions: Vec::new(), health: HealthMetrics::new_at(now) };
        assert(a.transactions() =~= Seq::<TransactionInfoView>::empty());
        a
    }

    /// The interval of the background health monitor, if it runs.
    pub fn health_monitor_interval(&self) -> (i: Option<u64>)
        ensures
            i == self.config().health_check_interval,
    {
        self.config.health_check_interval
    }

    /// The health counters.
    pub fn get_health_metrics(&self) -> (m: HealthMetrics)
        ensures
            m == self.health(),
    {
        self.health
    }

    /// Mutable access to the health counters, for recording calls.
    pub fn health_metrics_mut(&mut self) -> (m: &mut HealthMetrics)
        ensures
            *m == old(self).health(),
            final(self).health() == *final(m),
            final(self).config() == old(self).config(),
            final(self).transactions() == old(self).transactions(),
    {
        &mut self.health
    }

    fn find(&self, id: MessageId) -> (r: Option<usize>)
        ensures
            match r {
                Some(i) => i < self.transactions().len() && self.transactions()[i as int].message_id == id,
                None => !has_message(self.transactions(), id),
            },
    {
        let mut i: usize = 0;
        while i < self.transactions.len()
            invariant
                i <= self.transactions.len(),
                self.transactions().len() == self.transactions@.len(),
                forall|j: int| 0 <= j < i ==> #[trigger] self.transactions()[j].message_id != id,
            decreases self.transactions.len() - i,
        {
            assert(self.transactions()[i as int].message_id == self.transactions@[i as int].message_id);
            if self.transactions[i].message_id == id {
                return Some(i);
            }
            i += 1;
        }
        None
    }

    /// Starts tracking the transaction that carries a message, submitted at
    /// `now` (milliseconds), replacing what was tracked for the message.
    pub fn record_submission(&mut self, message_id: MessageId, tx_hash: Vec<u8>, now: u64)
        requires
            old(self).wf(),
        ensures
            final(self).wf(),
            ({
                let t = TransactionInfoView {
                    message_id,
                    tx_hash: tx_hash@,
                    block_number: None,
                    status: TxTrackingStatus::Submitted,
                    submitted_at: now,
                    confirmations: 0,
                    error: None,
                };
                let s = old(self).transactions();
                &&& final(self).transactions() == if has_message(s, message_id) {
                    s.update(message_index(s, message_id), t)
                } else {
                    s.push(t)
                }
                &&& has_message(final(self).transactions(), message_id)
                &&& final(self).transactions()[message_index(final(self).transactions(), message_id)] == t
            }),
            final(self).config() == old(self).config(),
            final(self).health() == old(self).health(),
    {
        let ghost s = self.transactions();
        let info = TransactionInfo {
            message_id,
            tx_hash,
            block_number: None,
            status: TxTrackingStatus::Submitted,
            submitted_at: now,
            confirmations: 0,
            error: None,
        };
        let ghost t = info@;
        match self.find(message_id) {
            Some(i) => {
                proof {
                    let c = message_index(s, message_id);
                    assert(s[c].message_id == s[i as int].message_id);
                }
                self.transactions.set(i, info);
                assert(self.transactions() =~= s.update(i as int, t));
                proof {
                    assert forall|x: int, y: int| #![trigger self.transactions()[x], self.transactions()[y]]
                        0 <= x < y < self.transactions().len() implies self.transactions()[x].message_id
                        != self.transactions()[y].message_id by {
                        assert(s[x].message_id != s[y].message_id);
                    }
                    lemma_message_index(self.transactions(), i as int);
                }
            },
            None => {
                self.transactions.push(info);
                assert(self.transactions() =~= s.push(t));
                proof {
                    assert forall|x: int, y: int| #![trigger self.transactions()[x], self.transactions()[y]]
                        0 <= x < y < self.transactions().len() implies self.transactions()[x].message_id
                        != self.transactions()[y].message_id by {
                        assert(self.transactions()[x] == s[x]);
                        if y < s.len() {
                            assert(s[x].message_id != s[y].message_id);
                        }
                    }
                    lemma_message_index(self.transactions(), s.len() as int);
                }
            },
        }
    }

    /// Submits a message without a pallet call: the message is given a
    /// transaction with a fresh random 32-byte hash, tracked as submitted at
    /// `now` (milliseconds); the hash is returned.
    pub fn submit_message(&mut self, message_id: MessageId, now: u64) -> (hash: Vec<u8>)
        requires
            old(self).wf(),
        ensures
            final(self).wf(),
            hash@.len() == 32,
            ({
                let t = TransactionInfoView {
                    message_id,
                    tx_hash: hash@,
                    block_number: None,
                    status: TxTrackingStatus::Submitted,
                    submitted_at: now,
                    confirmations: 0,
                    error: None,
                };
                let s = old(self).transactions();
                &&& final(self).transactions() == if has_message(s, message_id) {
                    s.update(message_index(s, message_id), t)
                } else {
                    s.push(t)
                }
                &&& has_message(final(self).transactions(), message_id)
                &&& final(self).transactions()[message_index(final(self).transactions(), message_id)] == t
            }),
            final(self).config() == old(self).config(),
            final(self).health() == old(self).health(),
    {
        let hash = random_hash32();
        let copy = copy_range(hash.as_slice(), 0, 32);
        assert(copy@ =~= hash@);
        self.record_submission(message_id, copy, now);
        hash
    }

    /// Updates the transaction of a message: its status, and its block number
    /// and error when given. A message without a transaction changes nothing.
    pub fn update_transaction_status(&mut self, message_id: MessageId, status: TxTrackingStatus, block_number: Option<u32>, error: Option<String>)
        requires
            old(self).wf(),
        ensures
            final(self).wf(),
            ({
                let s = old(self).transactions();
                let e = match error { Some(e) => Some(e@), None => None };
                final(self).transactions() == if has_message(s, message_id) {
                    let i = message_index(s, message_id);
                    s.update(i, spec_updated(s[i], status, block_number, e))
                } else {
                    s
                }
            }),
            final(self).config() == old(self).config(),
            final(self).health() == old(self).health(),
    {
        let ghost s = self.transactions();
        match self.find(message_id) {
            Some(i) => {
                proof {
                    let c = message_index(s, message_id);
                    assert(s[c].message_id == s[i as int].message_id);
                }
                let mut t = self.transactions.remove(i);
                t.status = status;
                match block_number {
                    Some(b) => {
                        t.block_number = Some(b);
                    },
                    None => {},
                }
                match error {
                    Some(e) => {
                        t.error = Some(e);
                    },
                    None => {},
                }
                self.transactions.insert(i, t);
                assert(self.transactions() =~= s.update(i as int, t@));
                proof {
                    assert forall|x: int, y: int| #![trigger self.transactions()[x], self.transactions()[y]]
                        0 <= x < y < self.transactions().len() implies self.transactions()[x].message_id
                        != self.transactions()[y].message_id by {
                        assert(s[x].message_id != s[y].message_id);
                    }
                }
            },
            None => {},
        }
    }

    /// A copy of the transaction of a message, if it has one.
    pub fn get_transaction_info(&self, message_id: MessageId) -> (r: Option<TransactionInfo>)
        requires
            self.wf(),
        ensures
            has_message(self.transactions(), message_id) ==> (r matches Some(t)
                && t@ == self.transactions()[message_index(self.transactions(), message_id)]),
            !has_message(self.transactions(), message_id) ==> r is None,
    {
        match self.find(message_id) {
            Some(i) => {
                proof {
                    let c = message_index(self.transactions(), message_id);
                    assert(self.transactions()[c].message_id == self.transactions()[i as int].message_id);
                }
                let t = &self.transactions[i];
                let hash = copy_range(t.tx_hash.as_slice(), 0, t.tx_hash.len());
                assert(hash@ =~= t.tx_hash@);
                let error = match &t.error {
                    Some(e) => Some(e.clone()),
                    None => None,
                };
                Some(TransactionInfo {
                    message_id: t.message_id,
                    tx_hash: hash,
                    block_number: t.block_number,
                    status: t.status,
                    submitted_at: t.submitted_at,
                    confirmations: t.confirmations,
                    error,
                })
            },
            None => None,
        }
    }

    /// Follows one step of a submitted transaction's progress: inclusion in a
    /// readable block records the block; finalization records it and ends the
    /// watch; an error records the failure and its reason and ends the watch.
    /// Returns whether to keep watching.
    pub fn apply_progress(&mut self, message_id: MessageId, event: TxProgressEvent) -> (keep_watching: bool)
        requires
            old(self).wf(),
        ensures
            final(self).wf(),
            ({
                let s = old(self).transactions();
                let upd = |st: TxTrackingStatus, b: Option<u32>, e: Option<Seq<char>>| if has_message(s, message_id) {
                    let i = message_index(s, message_id);
                    s.update(i, spec_updated(s[i], st, b, e))
                } else {
                    s
                };
                match event {
                    TxProgressEvent::InBlock(Some(b)) => keep_watching
                        && final(self).transactions() == upd(TxTrackingStatus::InBlock, Some(b), None),
                    TxProgressEvent::InBlock(None) => keep_watching && final(self).transactions() == s,
                    TxProgressEvent::Other => keep_watching && final(self).transactions() == s,
                    TxProgressEvent::Finalized => !keep_watching
                        && final(self).transactions() == upd(TxTrackingStatus::Finalized, None, None),
                    TxProgressEvent::Error(e) => !keep_watching
                        && final(self).transactions() == upd(TxTrackingStatus::Failed, None, Some(e@)),
                }
            }),
            final(self).config() == old(self).config(),
            final(self).health() == old(self).health(),
    {
        match event {
            TxProgressEvent::InBlock(Some(b)) => {
                self.update_transaction_status(message_id, TxTrackingStatus::InBlock, Some(b), None);
                true
            },
            TxProgressEvent::InBlock(None) => true,
            TxProgressEvent::Other => true,
            TxProgressEvent::Finalized => {
                self.update_transaction_status(message_id, TxTrackingStatus::Finalized, None, None);
                false
            },
            TxProgressEvent::Error(e) => {
                self.update_transaction_status(message_id, TxTrackingStatus::Failed, None, Some(e));
                false
            },
        }
    }

    /// What the tracked transaction says of a message's status: none tracked,
    /// or submitted, or unknown, is pending; finalized is confirmed; failed
    /// carries the recorded error, or "Unknown error"; in a block, the
    /// confirmations decide (pending when the block number is unknown).
    pub fn status_lookup(&self, message_id: MessageId) -> (r: StatusLookup)
        requires
            self.wf(),
        ensures
            ({
                let s = self.transactions();
                if !has_message(s, message_id) {
                    r == StatusLookup::Resolved(MessageStatus::Pending)
                } else {
                    let t = s[message_index(s, message_id)];
                    match t.status {
                        TxTrackingStatus::Submitted | TxTrackingStatus::Unknown => r == StatusLookup::Resolved(MessageStatus::Pending),
                        TxTrackingStatus::Finalized => r == StatusLookup::Resolved(MessageStatus::Confirmed),
                        TxTrackingStatus::Failed => r matches StatusLookup::Resolved(MessageStatus::Failed(m))
                            && m@ == match t.error { Some(e) => e, None => "Unknown error"@ },
                        TxTrackingStatus::InBlock => match t.block_number {
                            Some(b) => r == StatusLookup::InBlock(b),
                            None => r == StatusLookup::Resolved(MessageStatus::Pending),
                        },
                    }
                }
            }),
    {
        match self.find(message_id) {
            None => StatusLookup::Resolved(MessageStatus::Pending),
            Some(i) => {
                proof {
                    let c = message_index(self.transactions(), message_id);
                    assert(self.transactions()[c].message_id == self.transactions()[i as int].message_id);
                }
                let t = &self.transactions[i];
                match t.status {
                    TxTrackingStatus::Submitted => StatusLookup::Resolved(MessageStatus::Pending),
                    TxTrackingStatus::Unknown => StatusLookup::Resolved(MessageStatus::Pending),
                    TxTrackingStatus::Finalized => StatusLookup::Resolved(MessageStatus::Confirmed),
                    TxTrackingStatus::Failed => {
                        let m = match &t.error {
                            Some(e) => owned(e.as_str()),
                            None => owned("Unknown error"),
                        };
                        StatusLookup::Resolved(MessageStatus::Failed(m))
                    },
                    TxTrackingStatus::InBlock => match t.block_number {
                        Some(b) => StatusLookup::InBlock(b),
                        None => StatusLookup::Resolved(MessageStatus::Pending),
                    },
                }
            },
        }
    }

    /// The status of a message whose transaction is in `block`, with the chain
    /// at `current`, under the configured confirmations.
    pub fn in_block_status(&self, block: u32, current: u32) -> (s: MessageStatus)
        ensures
            ({
                let required = match self.config().confirmations { Some(c) => c, None => DEFAULT_CONFIRMATIONS };
                let seen = if current >= block { current - block } else { 0 };
                if seen >= required { s == MessageStatus::Confirmed } else { s == MessageStatus::Pending }
            }),
    {
        confirmation_status(block, current, self.config.required_confirmations())
    }
}

} // verus!
