//! EVM chains: adapter configuration and its validation, gas price and fee
//! rules, finality, message status, and the tracking of submitted
//! transactions.

use vstd::prelude::*;
use crate::chain::{AdapterError, MessageStatus};
use crate::digest::{decimal_string, decimal_text, random_hash32};
use crate::health::HealthMetrics;
use crate::message::MessageId;
use crate::scale::copy_range;
use crate::bytes::bytes_equal;
use crate::text::{join, owned, spec_starts_with, starts_with};

verus! {

broadcast use vstd::string::group_string_axioms;

/// Confirmations required for finality when the configuration names none.
pub const DEFAULT_CONFIRMATIONS: u64 = 12;

/// Wei in one gwei.
pub const GWEI: u128 = 1_000_000_000;

/// The highest gas price used whatever the network asks: ten times a 20 gwei
/// baseline.
pub const GAS_PRICE_CEILING: u128 = 200_000_000_000;

/// Gas assumed for processing one message.
pub const ESTIMATED_MESSAGE_GAS: u128 = 150_000;

/// Longest wait for finality, in nanoseconds (ten minutes).
pub const MAX_FINALITY_WAIT: u64 = 600_000_000_000;

/// Age, in milliseconds, past which a pending transaction is stale (five
/// minutes).
pub const STALE_TRANSACTION_AGE: u64 = 300_000;

/// Contract addresses of an EVM deployment.
#[derive(Debug, Clone)]
pub struct EvmContracts {
    /// Message handler contract.
    pub message_handler: String,
    /// Verifier contract.
    pub verifier: String,
}

/// Configuration of an EVM chain adapter.
#[derive(Debug, Clone)]
pub struct EvmConfig {
    pub rpc_url: String,
    pub chain_id: u64,
    /// Confirmations required for finality.
    pub required_confirmations: u32,
    pub contracts: EvmContracts,
    /// Highest gas price, in wei.
    pub max_gas_price: Option<u128>,
}

/// Configuration of the Ethereum adapter. The RPC timeout is in nanoseconds.
#[derive(Debug, Clone)]
pub struct EthereumConfig {
    pub rpc_url: String,
    pub chain_id: u64,
    /// Address of the relayer account.
    pub relayer_address: [u8; 20],
    /// Address of the message contract.
    pub contract_address: [u8; 20],
    /// Block confirmations required for finality.
    pub confirmations: Option<u64>,
    /// Highest gas price, in gwei.
    pub max_gas_price_gwei: Option<u64>,
    pub rpc_timeout: Option<u64>,
    /// Whether a transaction is resubmitted when its gas price is too low.
    pub enable_gas_bumping: Option<bool>,
}

/// Whether every byte of an address is zero.
pub open spec fn is_zero_address(a: Seq<u8>) -> bool {
    forall|i: int| 0 <= i < a.len() ==> a[i] == 0
}

/// What is wrong with an Ethereum configuration, if anything, in the order in
/// which it is checked.
pub open spec fn config_problem(c: EthereumConfig) -> Option<Seq<char>> {
    if !spec_starts_with(c.rpc_url@, "http://"@) && !spec_starts_with(c.rpc_url@, "https://"@) {
        Some("RPC URL must start with http:// or https://"@)
    } else if c.chain_id == 0 {
        Some("Chain ID cannot be zero"@)
    } else if is_zero_address(c.relayer_address@) {
        Some("Relayer address cannot be zero address"@)
    } else if is_zero_address(c.contract_address@) {
        Some("Contract address cannot be zero address"@)
    } else if c.max_gas_price_gwei == Some(0u64) {
        Some("Maximum gas price cannot be zero"@)
    } else {
        None
    }
}

fn zero_address(a: &[u8; 20]) -> (r: bool)
    ensures
        r == is_zero_address(a@),
{
    let mut i: usize = 0;
    while i < 20
        invariant
            i <= 20,
            a@.len() == 20,
            forall|j: int| 0 <= j < i ==> a@[j] == 0,
        decreases 20 - i,
    {
        if a[i] != 0 {
            return false;
        }
        i += 1;
    }
    true
}

/// Checks an Ethereum configuration: the RPC URL must be http or https, the
/// chain id nonzero, both addresses nonzero, and a configured maximum gas
/// price nonzero.
pub fn validate_ethereum_config(config: &EthereumConfig) -> (r: Result<(), AdapterError>)
    ensures
        match config_problem(*config) {
            None => r is Ok,
            Some(m) => r matches Err(AdapterError::Configuration(e)) && e@ == m,
        },
{
    if !starts_with(config.rpc_url.as_str(), "http://") && !starts_with(config.rpc_url.as_str(), "https://") {
        return Err(AdapterError::Configuration(owned("RPC URL must start with http:// or https://")));
    }
    if config.chain_id == 0 {
        return Err(AdapterError::Configuration(owned("Chain ID cannot be zero")));
    }
    if zero_address(&config.relayer_address) {
        return Err(AdapterError::Configuration(owned("Relayer address cannot be zero address")));
    }
    if zero_address(&config.contract_address) {
        return Err(AdapterError::Configuration(owned("Contract address cannot be zero address")));
    }
    match config.max_gas_price_gwei {
        Some(m) => {
            if m == 0 {
                return Err(AdapterError::Configuration(owned("Maximum gas price cannot be zero")));
            }
        },
        None => {},
    }
    Ok(())
}

/// An Ethereum configuration with the given fields and the rest unset.
pub open spec fn bare_config(rpc_url: String, chain_id: u64, relayer: [u8; 20], contract: [u8; 20]) -> EthereumConfig {
    EthereumConfig {
        rpc_url,
        chain_id,
        relayer_address: relayer,
        contract_address: contract,
        confirmations: None,
        max_gas_price_gwei: None,
        rpc_timeout: None,
        enable_gas_bumping: None,
    }
}

impl EthereumConfig {
    /// Ethereum mainnet: chain 1, 12 confirmations, at most 100 gwei, 30 s
    /// timeout, gas bumping on.
    pub fn mainnet(rpc_url: String, relayer_address: [u8; 20], contract_address: [u8; 20]) -> (c: EthereumConfig)
        ensures
            c == (EthereumConfig {
                confirmations: Some(12u64),
                max_gas_price_gwei: Some(100u64),
                rpc_timeout: Some(30_000_000_000u64),
                enable_gas_bumping: Some(true),
                ..bare_config(rpc_url, 1, relayer_address, contract_address)
            }),
    {
        EthereumConfig {
            rpc_url,
            chain_id: 1,
            relayer_address,
            contract_address,
            confirmations: Some(12),
            max_gas_price_gwei: Some(100),
            rpc_timeout: Some(30_000_000_000),
            enable_gas_bumping: Some(true),
        }
    }

    /// Polygon: chain 137, 20 confirmations, at most 1000 gwei, 15 s timeout,
    /// gas bumping on.
    pub fn polygon(rpc_url: String, relayer_address: [u8; 20], contract_address: [u8; 20]) -> (c: EthereumConfig)
        ensures
            c == (EthereumConfig {
                confirmations: Some(20u64),
                max_gas_price_gwei: Some(1000u64),
                rpc_timeout: Some(15_000_000_000u64),
                enable_gas_bumping: Some(true),
                ..bare_config(rpc_url, 137, relayer_address, contract_address)
            }),
    {
        EthereumConfig {
            rpc_url,
            chain_id: 137,
            relayer_address,
            contract_address,
            confirmations: Some(20),
            max_gas_price_gwei: Some(1000),
            rpc_timeout: Some(15_000_000_000),
            enable_gas_bumping: Some(true),
        }
    }

    /// Arbitrum: chain 42161, 1 confirmation, at most 10 gwei, 10 s timeout,
    /// gas bumping off.
    pub fn arbitrum(rpc_url: String, relayer_address: [u8; 20], contract_address: [u8; 20]) -> (c: EthereumConfig)
        ensures
            c == (EthereumConfig {
                confirmations: Some(1u64),
                max_gas_price_gwei: Some(10u64),
                rpc_timeout: Some(10_000_000_000u64),
                enable_gas_bumping: Some(false),
                ..bare_config(rpc_url, 42161, relayer_address, contract_address)
            }),
    {
        EthereumConfig {
            rpc_url,
            chain_id: 42161,
            relayer_address,
            contract_address,
            confirmations: Some(1),
            max_gas_price_gwei: Some(10),
            rpc_timeout: Some(10_000_000_000),
            enable_gas_bumping: Some(false),
        }
    }

    /// A local development chain: chain 31337, 1 confirmation, at most 20
    /// gwei, 5 s timeout, gas bumping off.
    pub fn development(rpc_url: String, relayer_address: [u8; 20], contract_address: [u8; 20]) -> (c: EthereumConfig)
        ensures
            c == (EthereumConfig {
                confirmations: Some(1u64),
                max_gas_price_gwei: Some(20u64),
                rpc_timeout: Some(5_000_000_000u64),
                enable_gas_bumping: Some(false),
                ..bare_config(rpc_url, 31337, relayer_address, contract_address)
            }),
    {
        EthereumConfig {
            rpc_url,
            chain_id: 31337,
            relayer_address,
            contract_address,
            confirmations: Some(1),
            max_gas_price_gwei: Some(20),
            rpc_timeout: Some(5_000_000_000),
            enable_gas_bumping: Some(false),
        }
    }
}

/// Builds an [`EthereumConfig`] field by field.
pub struct EthereumConfigBuilder {
    config: EthereumConfig,
}

impl EthereumConfigBuilder {
    /// The configuration being built.
    pub closed spec fn value(&self) -> EthereumConfig {
        self.config
    }

    /// A builder for the given endpoint, chain and addresses, with the
    /// optional fields unset.
    pub fn new(rpc_url: String, chain_id: u64, relayer_address: [u8; 20], contract_address: [u8; 20]) -> (b: Self)
        ensures
            b.value() == bare_config(rpc_url, chain_id, relayer_address, contract_address),
    {
        EthereumConfigBuilder {
            config: EthereumConfig {
                rpc_url,
                chain_id,
                relayer_address,
                contract_address,
                confirmations: None,
                max_gas_price_gwei: None,
                rpc_timeout: None,
                enable_gas_bumping: None,
            },
        }
    }

    /// Sets the confirmations required for finality.
    pub fn confirmations(self, confirmations: u64) -> (b: Self)
        ensures
            b.value() == (EthereumConfig { confirmations: Some(confirmations), ..self.value() }),
    {
        let mut b = self;
        b.config.confirmations = Some(confirmations);
        b
    }

    /// Sets the highest gas price, in gwei.
    pub fn max_gas_price_gwei(self, max_gas_price: u64) -> (b: Self)
        ensures
            b.value() == (EthereumConfig { max_gas_price_gwei: Some(max_gas_price), ..self.value() }),
    {
        let mut b = self;
        b.config.max_gas_price_gwei = Some(max_gas_price);
        b
    }

    /// Sets the RPC timeout, in nanoseconds.
    pub fn rpc_timeout(self, timeout: u64) -> (b: Self)
        ensures
            b.value() == (EthereumConfig { rpc_timeout: Some(timeout), ..self.value() }),
    {
        let mut b = self;
        b.config.rpc_timeout = Some(timeout);
        b
    }

    /// Sets whether underpriced transactions are resubmitted.
    pub fn enable_gas_bumping(self, enable: bool) -> (b: Self)
        ensures
            b.value() == (EthereumConfig { enable_gas_bumping: Some(enable), ..self.value() }),
    {
        let mut b = self;
        b.config.enable_gas_bumping = Some(enable);
        b
    }

    /// The configuration built.
    pub fn build(self) -> (c: EthereumConfig)
        ensures
            c == self.value(),
    {
        self.config
    }
}

/// The gas price used for a network price `current` (wei): capped at the
/// configured maximum when the network asks more, otherwise capped at
/// [`GAS_PRICE_CEILING`].
pub open spec fn spec_safe_gas_price(current: u128, max_gwei: Option<u64>) -> u128 {
    match max_gwei {
        Some(m) if current > m * GWEI => (m * GWEI) as u128,
        _ => if current > GAS_PRICE_CEILING { GAS_PRICE_CEILING } else { current },
    }
}

/// The gas price to use given the network's current price (wei) and the
/// configured maximum (gwei).
pub fn safe_gas_price(current: u128, max_gwei: Option<u64>) -> (p: u128)
    ensures
        p == spec_safe_gas_price(current, max_gwei),
        p <= current,
{
    match max_gwei {
        Some(m) => {
            let max_wei = (m as u128) * GWEI;
            if current > max_wei {
                return max_wei;
            }
        },
        None => {},
    }
    if current > GAS_PRICE_CEILING {
        GAS_PRICE_CEILING
    } else {
        current
    }
}

/// The fee, in wei, for a message at a gas price: the price of
/// [`ESTIMATED_MESSAGE_GAS`] gas plus a tenth (rounded down) for price
/// movements.
pub open spec fn spec_message_fee(gas_price: u128) -> int {
    gas_price * ESTIMATED_MESSAGE_GAS + (gas_price * ESTIMATED_MESSAGE_GAS) / 10
}

/// The fee, in wei, of a message at the given gas price.
pub fn message_fee(gas_price: u128) -> (fee: u128)
    requires
        spec_message_fee(gas_price) <= u128::MAX,
    ensures
        fee == spec_message_fee(gas_price),
{
    let base = gas_price * ESTIMATED_MESSAGE_GAS;
    base + base / 10
}

/// A gas estimate with a safety margin of a fifth (rounded down) added.
pub fn gas_with_margin(estimate: u128) -> (gas: u128)
    requires
        estimate + estimate / 5 <= u128::MAX,
    ensures
        gas == estimate + estimate / 5,
{
    estimate + estimate / 5
}

/// The block a block must be followed by to be final.
pub open spec fn finality_target(block: u64, confirmations: Option<u64>) -> int {
    block + match confirmations {
        Some(c) => c,
        None => DEFAULT_CONFIRMATIONS,
    }
}

/// Whether `block` is final once the chain is at `current`.
pub fn is_final(block: u64, confirmations: Option<u64>, current: u64) -> (r: bool)
    requires
        finality_target(block, confirmations) <= u64::MAX,
    ensures
        r == (current >= finality_target(block, confirmations)),
{
    let c = match confirmations {
        Some(c) => c,
        None => DEFAULT_CONFIRMATIONS,
    };
    current >= block + c
}

/// Checks the deadline of a wait for finality that has lasted `elapsed`
/// nanoseconds: past [`MAX_FINALITY_WAIT`] it is a timeout.
pub fn check_finality_deadline(block: u64, elapsed: u64) -> (r: Result<(), AdapterError>)
    ensures
        elapsed <= MAX_FINALITY_WAIT ==> r is Ok,
        elapsed > MAX_FINALITY_WAIT ==> (r matches Err(AdapterError::Timeout(m))
            && m@ == "Finality wait timeout for block "@ + decimal_text(block)),
{
    if elapsed > MAX_FINALITY_WAIT {
        let n = decimal_string(block);
        Err(AdapterError::Timeout(join("Finality wait timeout for block ", n.as_str())))
    } else {
        Ok(())
    }
}

/// Checks the chain id a node reports against the configured one.
pub fn check_chain_id(expected: u64, reported: u64) -> (r: Result<(), AdapterError>)
    ensures
        expected == reported ==> r is Ok,
        expected != reported ==> (r matches Err(AdapterError::Configuration(m))
            && m@ == "Chain ID mismatch: expected "@ + decimal_text(expected) + ", got "@ + decimal_text(reported)),
{
    if expected == reported {
        Ok(())
    } else {
        let e = decimal_string(expected);
        let g = decimal_string(reported);
        let a = join("Chain ID mismatch: expected ", e.as_str());
        let b = join(a.as_str(), ", got ");
        Err(AdapterError::Configuration(join(b.as_str(), g.as_str())))
    }
}

/// What a transaction receipt says of a message.
pub enum ReceiptVerdict {
    /// Not mined yet, or mined without a block number: the message is pending.
    Pending,
    /// Mined and reverted.
    Failed,
    /// Mined successfully in the given block: confirmations decide.
    MinedIn(u64),
}

/// Reads a receipt, given as its status and block number, or `None` when the
/// transaction is not mined.
pub fn read_receipt(receipt: Option<(Option<u64>, Option<u64>)>) -> (v: ReceiptVerdict)
    ensures
        match receipt {
            None => v is Pending,
            Some((status, block)) => if status == Some(1u64) {
                match block {
                    Some(b) => v == ReceiptVerdict::MinedIn(b),
                    None => v is Pending,
                }
            } else {
                v is Failed
            },
        },
{
    match receipt {
        None => ReceiptVerdict::Pending,
        Some((status, block)) => {
            if status == Some(1u64) {
                match block {
                    Some(b) => ReceiptVerdict::MinedIn(b),
                    None => ReceiptVerdict::Pending,
                }
            } else {
                ReceiptVerdict::Failed
            }
        },
    }
}

/// The status of a message whose transaction was mined successfully in
/// `block`, with the chain at `current`: confirmed once enough blocks follow.
pub fn confirmation_status(block: u64, current: u64, confirmations: Option<u64>) -> (s: MessageStatus)
    ensures
        ({
            let required = match confirmations { Some(c) => c, None => DEFAULT_CONFIRMATIONS };
            let seen = if current >= block { current - block } else { 0 };
            if seen >= required { s == MessageStatus::Confirmed } else { s == MessageStatus::Pending }
        }),
{
    let seen = current.saturating_sub(block);
    let required = match confirmations {
        Some(c) => c,
        None => DEFAULT_CONFIRMATIONS,
    };
    if seen >= required {
        MessageStatus::Confirmed
    } else {
        MessageStatus::Pending
    }
}

/// The status of a message whose transaction reverted.
pub fn failed_status() -> (s: MessageStatus)
    ensures
        s matches MessageStatus::Failed(m) && m@ == "reason"@,
{
    MessageStatus::Failed(owned("reason"))
}

/// A submitted transaction being tracked. Times are in milliseconds since the
/// epoch.
#[derive(Debug)]
pub struct CachedTransaction {
    pub hash: Vec<u8>,
    pub nonce: u128,
    pub gas_price: u128,
    pub submitted_at: u64,
    pub message_id: MessageId,
    pub retry_count: u32,
}

/// Abstract value of a [`CachedTransaction`].
pub struct CachedTransactionView {
    pub hash: Seq<u8>,
    pub nonce: u128,
    pub gas_price: u128,
    pub submitted_at: u64,
    pub message_id: MessageId,
    pub retry_count: u32,
}

impl View for CachedTransaction {
    type V = CachedTransactionView;

    open spec fn view(&self) -> CachedTransactionView {
        CachedTransactionView {
            hash: self.hash@,
            nonce: self.nonce,
            gas_price: self.gas_price,
            submitted_at: self.submitted_at,
            message_id: self.message_id,
            retry_count: self.retry_count,
        }
    }
}

/// Whether a transaction submitted at `submitted_at` is stale at `now`.
pub open spec fn is_stale(submitted_at: u64, now: u64) -> bool {
    (if now >= submitted_at { now - submitted_at } else { 0 }) > STALE_TRANSACTION_AGE
}

/// Whether some transaction of `p` is stale at `now` and belongs to message `id`.
pub open spec fn has_stale_for(p: Seq<CachedTransactionView>, id: MessageId, now: u64) -> bool {
    exists|i: int| 0 <= i < p.len() && #[trigger] p[i].message_id == id && is_stale(p[i].submitted_at, now)
}

/// The abstract value of a list of tracked transactions.
pub open spec fn pending_view(v: Seq<CachedTransaction>) -> Seq<CachedTransactionView> {
    v.map_values(|t: CachedTransaction| t@)
}

/// The abstract value of a list of message-to-transaction links.
pub open spec fn links_view(v: Seq<(MessageId, Vec<u8>)>) -> Seq<(MessageId, Seq<u8>)> {
    v.map_values(|p: (MessageId, Vec<u8>)| (p.0, p.1@))
}

/// The links after linking `id` to `hash`: an existing link of `id` is
/// replaced in place, otherwise the link is appended.
pub open spec fn spec_link(l: Seq<(MessageId, Seq<u8>)>, id: MessageId, hash: Seq<u8>) -> Seq<(MessageId, Seq<u8>)> {
    if exists|i: int| 0 <= i < l.len() && #[trigger] l[i].0 == id {
        let i = choose|i: int| 0 <= i < l.len() && #[trigger] l[i].0 == id;
        l.update(i, (id, hash))
    } else {
        l.push((id, hash))
    }
}

/// The tracked transactions after recording `t`: a transaction with the same
/// hash is replaced in place, otherwise `t` is appended.
pub open spec fn spec_track(p: Seq<CachedTransactionView>, t: CachedTransactionView) -> Seq<CachedTransactionView> {
    if exists|i: int| 0 <= i < p.len() && #[trigger] p[i].hash == t.hash {
        let i = choose|i: int| 0 <= i < p.len() && #[trigger] p[i].hash == t.hash;
        p.update(i, t)
    } else {
        p.push(t)
    }
}

/// No transaction hash is tracked twice.
pub open spec fn hashes_distinct(p: Seq<CachedTransactionView>) -> bool {
    forall|x: int, y: int| #![trigger p[x], p[y]] 0 <= x < y < p.len() ==> p[x].hash != p[y].hash
}

/// No message is linked twice.
pub open spec fn link_ids_distinct(l: Seq<(MessageId, Seq<u8>)>) -> bool {
    forall|x: int, y: int| #![trigger l[x], l[y]] 0 <= x < y < l.len() ==> l[x].0 != l[y].0
}

/// The state of the Ethereum adapter that its decisions work on: the
/// configuration, the transactions it submitted and is tracking, the message
/// each one carries, and the health of its connection.
pub struct EthereumAdapter {
    config: EthereumConfig,
    pending: Vec<CachedTransaction>,
    links: Vec<(MessageId, Vec<u8>)>,
    health: HealthMetrics,
}

impl EthereumAdapter {
    /// The configuration.
    pub closed spec fn config(&self) -> EthereumConfig {
        self.config
    }

    /// The tracked transactions.
    pub closed spec fn pending(&self) -> Seq<CachedTransactionView> {
        pending_view(self.pending@)
    }

    /// The message-to-transaction links.
    pub closed spec fn links(&self) -> Seq<(MessageId, Seq<u8>)> {
        links_view(self.links@)
    }

    /// The health counters.
    pub closed spec fn health(&self) -> HealthMetrics {
        self.health
    }

    /// Message ids are linked at most once and transaction hashes tracked at
    /// most once.
    pub open spec fn wf(&self) -> bool {
        &&& link_ids_distinct(self.links())
        &&& hashes_distinct(self.pending())
        &&& self.health().wf()
    }

    /// Checks a configuration (see [`validate_ethereum_config`]).
    pub fn validate_config(config: &EthereumConfig) -> (r: Result<(), AdapterError>)
        ensures
            match config_problem(*config) {
                None => r is Ok,
                Some(m) => r matches Err(AdapterError::Configuration(e)) && e@ == m,
            },
    {
        validate_ethereum_config(config)
    }

    /// An adapter for a valid configuration, tracking nothing, with fresh
    /// health counters at `now` (milliseconds); an invalid configuration is
    /// refused as [`validate_ethereum_config`] says.
    pub fn new(config: EthereumConfig, now: u64) -> (r: Result<EthereumAdapter, AdapterError>)
        ensures
            match config_problem(config) {
                None => r matches Ok(a) && a.wf() && a.config() == config
                    && a.pending().len() == 0 && a.links().len() == 0
                    && a.health() == HealthMetrics::spec_new_at(now),
                Some(m) => r matches Err(AdapterError::Configuration(e)) && e@ == m,
            },
    {
        match validate_ethereum_config(&config) {
            Err(e) => Err(e),
            Ok(()) => Ok(EthereumAdapter {
                config,
                pending: Vec::new(),
                links: Vec::new(),
                health: HealthMetrics::new_at(now),
            }),
        }
    }

    /// The health counters.
    pub fn get_health_metrics(&self) -> (m: HealthMetrics)
        ensures
            m == self.health(),
    {
        self.health
    }

    /// Mutable access to the health counters, for recording calls.
    pub fn health_metrics_mut(&mut self) -> (m: &mut HealthMetrics)
        ensures
            *m == old(self).health(),
            final(self).health() == *final(m),
            final(self).config() == old(self).config(),
            final(self).pending() == old(self).pending(),
            final(self).links() == old(self).links(),
    {
        &mut self.health
    }

    /// Number of tracked transactions.
    pub fn pending_transaction_count(&self) -> (n: usize)
        ensures
            n == self.pending().len(),
    {
        self.pending.len()
    }

    /// The hash of the transaction linked to a message, if any.
    pub fn transaction_for(&self, id: MessageId) -> (r: Option<Vec<u8>>)
        ensures
            match r {
                Some(h) => exists|i: int| 0 <= i < self.links().len() && #[trigger] self.links()[i].0 == id
                    && self.links()[i].1 == h@,
                None => forall|i: int| 0 <= i < self.links().len() ==> #[trigger] self.links()[i].0 != id,
            },
    {
        let mut i: usize = 0;
        while i < self.links.len()
            invariant
                i <= self.links.len(),
                self.links() == links_view(self.links@),
                forall|j: int| 0 <= j < i ==> #[trigger] self.links()[j].0 != id,
            decreases self.links.len() - i,
        {
            assert(self.links()[i as int].0 == self.links@[i as int].0);
            if self.links[i].0 == id {
                let h = copy_range(self.links[i].1.as_slice(), 0, self.links[i].1.len());
                assert(self.links()[i as int] == (self.links@[i as int].0, self.links@[i as int].1@));
                assert(h@ =~= self.links()[i as int].1);
                assert(self.links()[i as int].0 == id);
                return Some(h);
            }
            i += 1;
        }
        None
    }

    /// The gas price to use given the network's current price (wei).
    pub fn get_safe_gas_price(&self, current: u128) -> (p: u128)
        ensures
            p == spec_safe_gas_price(current, self.config().max_gas_price_gwei),
    {
        safe_gas_price(current, self.config.max_gas_price_gwei)
    }

    /// The fee, in wei, of a message given the network's current gas price.
    pub fn estimate_fee(&self, current_gas_price: u128) -> (fee: u128)
        requires
            spec_message_fee(spec_safe_gas_price(current_gas_price, self.config().max_gas_price_gwei)) <= u128::MAX,
        ensures
            fee == spec_message_fee(spec_safe_gas_price(current_gas_price, self.config().max_gas_price_gwei)),
    {
        message_fee(self.get_safe_gas_price(current_gas_price))
    }

    /// Drops the transactions that are stale at `now` (milliseconds), and the
    /// links of the messages they carried.
    pub fn cleanup_stale_transactions(&mut self, now: u64)
        requires
            old(self).wf(),
        ensures
            final(self).wf(),
            final(self).pending() == old(self).pending().filter(|t: CachedTransactionView| !is_stale(t.submitted_at, now)),
            final(self).links() == old(self).links().filter(
                |l: (MessageId, Seq<u8>)| !has_stale_for(old(self).pending(), l.0, now),
            ),
            final(self).config() == old(self).config(),
            final(self).health() == old(self).health(),
    {
        let ghost p0 = self.pending();
        let ghost l0 = self.links();
        let ghost keep = |t: CachedTransactionView| !is_stale(t.submitted_at, now);
        let ghost keep_link = |l: (MessageId, Seq<u8>)| !has_stale_for(p0, l.0, now);
        let mut stale_ids: Vec<MessageId> = Vec::new();
        let mut kept: Vec<CachedTransaction> = Vec::new();
        let mut rest: Vec<CachedTransaction> = Vec::new();
        std::mem::swap(&mut rest, &mut self.pending);
        let n = rest.len();
        let mut i: usize = 0;
        while i < n
            invariant
                n == p0.len(),
                i <= n,
                rest@.len() == n - i,
                pending_view(rest@) == p0.skip(i as int),
                pending_view(kept@) == p0.take(i as int).filter(keep),
                forall|j: int| 0 <= j < stale_ids@.len() ==> has_stale_for(p0, #[trigger] stale_ids@[j], now),
                forall|id: MessageId| #![trigger has_stale_for(p0.take(i as int), id, now)]
                    has_stale_for(p0.take(i as int), id, now) ==> stale_ids@.contains(id),
                hashes_distinct(p0),
                keep == (|t: CachedTransactionView| !is_stale(t.submitted_at, now)),
            decreases n - i,
        {
            let ghost kept_before = kept@;
            let ghost rest_before = rest@;
            assert(pending_view(rest@)[0] == p0[i as int]);
            let t = rest.remove(0);
            assert(t@ == p0[i as int]);
            assert(pending_view(rest@) =~= pending_view(rest_before).drop_first());
            assert(pending_view(rest@) =~= p0.skip(i as int + 1));
            assert(p0.take(i as int + 1) =~= p0.take(i as int).push(p0[i as int]));
            proof {
                p0.take(i as int).lemma_filter_push(p0[i as int], keep);
            }
            let age = now.saturating_sub(t.submitted_at);
            let ghost ids_before = stale_ids@;
            if age > STALE_TRANSACTION_AGE {
                stale_ids.push(t.message_id);
            } else {
                kept.push(t);
                assert(pending_view(kept@) =~= pending_view(kept_before).push(p0[i as int]));
            }
            proof {
                assert forall|id: MessageId| has_stale_for(p0.take(i as int + 1), id, now) implies stale_ids@.contains(id) by {
                    let w = choose|w: int| 0 <= w < p0.take(i as int + 1).len() && #[trigger] p0.take(i as int + 1)[w].message_id == id
                        && is_stale(p0.take(i as int + 1)[w].submitted_at, now);
                    if w < i {
                        assert(p0.take(i as int)[w] == p0[w]);
                        assert(has_stale_for(p0.take(i as int), id, now));
                        assert(ids_before.contains(id));
                        let x = choose|x: int| 0 <= x < ids_before.len() && ids_before[x] == id;
                        assert(stale_ids@[x] == id);
                    } else {
                        assert(w == i as int);
                        assert(stale_ids@[stale_ids@.len() - 1] == id);
                    }
                }
                assert forall|j: int| 0 <= j < stale_ids@.len() implies has_stale_for(p0, #[trigger] stale_ids@[j], now) by {
                    if j < ids_before.len() {
                        assert(stale_ids@[j] == ids_before[j]);
                    } else {
                        assert(p0[i as int].message_id == stale_ids@[j]);
                    }
                }
            }
            i += 1;
        }
        assert(p0.take(n as int) =~= p0);
        self.pending = kept;
        assert(self.pending() == p0.filter(keep));
        proof {
            assert forall|a: int, b: int| #![trigger self.pending()[a], self.pending()[b]]
                0 <= a < b < self.pending().len() implies self.pending()[a].hash != self.pending()[b].hash by {
                lemma_filter_hashes_distinct(p0, keep, a, b);
            }
        }
        let mut links_rest: Vec<(MessageId, Vec<u8>)> = Vec::new();
        std::mem::swap(&mut links_rest, &mut self.links);
        let mut kept_links: Vec<(MessageId, Vec<u8>)> = Vec::new();
        let m = links_rest.len();
        let mut k: usize = 0;
        while k < m
            invariant
                m == l0.len(),
                k <= m,
                links_rest@.len() == m - k,
                links_view(links_rest@) == l0.skip(k as int),
                links_view(kept_links@) == l0.take(k as int).filter(keep_link),
                forall|j: int| 0 <= j < stale_ids@.len() ==> has_stale_for(p0, #[trigger] stale_ids@[j], now),
                forall|id: MessageId| #![trigger has_stale_for(p0, id, now)] has_stale_for(p0, id, now) ==> stale_ids@.contains(id),
                link_ids_distinct(l0),
                keep_link == (|l: (MessageId, Seq<u8>)| !has_stale_for(p0, l.0, now)),
            decreases m - k,
        {
            let ghost kept_before = kept_links@;
            let ghost rest_before = links_rest@;
            assert(links_view(links_rest@)[0] == l0[k as int]);
            let l = links_rest.remove(0);
            assert((l.0, l.1@) == l0[k as int]);
            assert(links_view(links_rest@) =~= links_view(rest_before).drop_first());
            assert(links_view(links_rest@) =~= l0.skip(k as int + 1));
            assert(l0.take(k as int + 1) =~= l0.take(k as int).push(l0[k as int]));
            proof {
                l0.take(k as int).lemma_filter_push(l0[k as int], keep_link);
            }
            if !contains_id(&stale_ids, l.0) {
                kept_links.push(l);
                assert(links_view(kept_links@) =~= links_view(kept_before).push(l0[k as int]));
            } else {
                let ghost j = choose|j: int| 0 <= j < stale_ids@.len() && stale_ids@[j] == l.0;
                assert(has_stale_for(p0, stale_ids@[j], now));
                assert(!keep_link(l0[k as int]));
            }
            k += 1;
        }
        assert(l0.take(m as int) =~= l0);
        self.links = kept_links;
        assert(self.links() == l0.filter(keep_link));
        proof {
            assert forall|a: int, b: int| #![trigger self.links()[a], self.links()[b]]
                0 <= a < b < self.links().len() implies self.links()[a].0 != self.links()[b].0 by {
                lemma_filter_ids_distinct(l0, keep_link, a, b);
            }
        }
    }

    /// Drops stale transactions on request (see
    /// [`EthereumAdapter::cleanup_stale_transactions`]).
    pub fn manual_cleanup(&mut self, now: u64)
        requires
            old(self).wf(),
        ensures
            final(self).wf(),
            final(self).pending() == old(self).pending().filter(|t: CachedTransactionView| !is_stale(t.submitted_at, now)),
            final(self).links() == old(self).links().filter(
                |l: (MessageId, Seq<u8>)| !has_stale_for(old(self).pending(), l.0, now),
            ),
            final(self).config() == old(self).config(),
            final(self).health() == old(self).health(),
    {
        self.cleanup_stale_transactions(now);
    }

    /// Submits a message: first drops stale transactions at `now`
    /// (milliseconds), then tracks a transaction with a fresh random hash for
    /// the message, links the message to it, and returns the hash.
    pub fn submit_message(&mut self, message_id: MessageId, now: u64) -> (hash: Vec<u8>)
        requires
            old(self).wf(),
        ensures
            final(self).wf(),
            hash@.len() == 32,
            final(self).pending() == spec_track(
                old(self).pending().filter(|t: CachedTransactionView| !is_stale(t.submitted_at, now)),
                CachedTransactionView { hash: hash@, nonce: 0, gas_price: 0, submitted_at: now, message_id, retry_count: 0 },
            ),
            final(self).links() == spec_link(
                old(self).links().filter(|l: (MessageId, Seq<u8>)| !has_stale_for(old(self).pending(), l.0, now)),
                message_id,
                hash@,
            ),
            final(self).config() == old(self).config(),
            final(self).health() == old(self).health(),
    {
        self.cleanup_stale_transactions(now);
        let hash = random_hash32();
        let h1 = copy_range(hash.as_slice(), 0, 32);
        let h2 = copy_range(hash.as_slice(), 0, 32);
        assert(h1@ =~= hash@);
        assert(h2@ =~= hash@);
        let tx = CachedTransaction {
            hash: h1,
            nonce: 0,
            gas_price: 0,
            submitted_at: now,
            message_id,
            retry_count: 0,
        };
        self.track(tx);
        self.link(message_id, h2);
        hash
    }

    fn find_pending(&self, h: &[u8]) -> (r: Option<usize>)
        ensures
            match r {
                Some(i) => i < self.pending().len() && self.pending()[i as int].hash == h@,
                None => forall|j: int| 0 <= j < self.pending().len() ==> #[trigger] self.pending()[j].hash != h@,
            },
    {
        let mut i: usize = 0;
        while i < self.pending.len()
            invariant
                i <= self.pending.len(),
                self.pending().len() == self.pending@.len(),
                forall|j: int| 0 <= j < i ==> #[trigger] self.pending()[j].hash != h@,
            decreases self.pending.len() - i,
        {
            assert(self.pending()[i as int] == self.pending@[i as int]@);
            if bytes_equal(self.pending[i].hash.as_slice(), h) {
                return Some(i);
            }
            i += 1;
        }
        None
    }

    fn find_link(&self, id: MessageId) -> (r: Option<usize>)
        ensures
            match r {
                Some(i) => i < self.links().len() && self.links()[i as int].0 == id,
                None => forall|j: int| 0 <= j < self.links().len() ==> #[trigger] self.links()[j].0 != id,
            },
    {
        let mut i: usize = 0;
        while i < self.links.len()
            invariant
                i <= self.links.len(),
                self.links().len() == self.links@.len(),
                forall|j: int| 0 <= j < i ==> #[trigger] self.links()[j].0 != id,
            decreases self.links.len() - i,
        {
            assert(self.links()[i as int].0 == self.links@[i as int].0);
            if self.links[i].0 == id {
                return Some(i);
            }
            i += 1;
        }
        None
    }

    fn track(&mut self, tx: CachedTransaction)
        requires
            old(self).wf(),
        ensures
            final(self).wf(),
            final(self).pending() == spec_track(old(self).pending(), tx@),
            final(self).links() == old(self).links(),
            final(self).config() == old(self).config(),
            final(self).health() == old(self).health(),
    {
        let ghost p = self.pending();
        let ghost t = tx@;
        match self.find_pending(tx.hash.as_slice()) {
            Some(i) => {
                proof {
                    let c = choose|c: int| 0 <= c < p.len() && #[trigger] p[c].hash == t.hash;
                    assert(p[c].hash == p[i as int].hash);
                }
                self.pending.set(i, tx);
                assert(self.pending() =~= p.update(i as int, t));
                proof {
                    assert forall|a: int, b: int| #![trigger self.pending()[a], self.pending()[b]]
                        0 <= a < b < self.pending().len() implies self.pending()[a].hash != self.pending()[b].hash by {
                        if a != i as int && b != i as int {
                            assert(p[a].hash != p[b].hash);
                        } else if a == i as int {
                            assert(p[a].hash != p[b].hash);
                        } else {
                            assert(p[a].hash != p[b].hash);
                        }
                    }
                }
            },
            None => {
                self.pending.push(tx);
                assert(self.pending() =~= p.push(t));
                proof {
                    assert forall|a: int, b: int| #![trigger self.pending()[a], self.pending()[b]]
                        0 <= a < b < self.pending().len() implies self.pending()[a].hash != self.pending()[b].hash by {
                        assert(self.pending()[a] == p[a]);
                        if b < p.len() {
                            assert(p[a].hash != p[b].hash);
                        } else {
                            assert(p[a].hash != t.hash);
                        }
                    }
                }
            },
        }
    }

    fn link(&mut self, id: MessageId, hash: Vec<u8>)
        requires
            old(self).wf(),
        ensures
            final(self).wf(),
            final(self).links() == spec_link(old(self).links(), id, hash@),
            final(self).pending() == old(self).pending(),
            final(self).config() == old(self).config(),
            final(self).health() == old(self).health(),
    {
        let ghost l = self.links();
        let ghost h = hash@;
        match self.find_link(id) {
            Some(i) => {
                proof {
                    let c = choose|c: int| 0 <= c < l.len() && #[trigger] l[c].0 == id;
                    assert(l[c].0 == l[i as int].0);
                }
                self.links.set(i, (id, hash));
                assert(self.links() =~= l.update(i as int, (id, h)));
                proof {
                    assert forall|a: int, b: int| #![trigger self.links()[a], self.links()[b]]
                        0 <= a < b < self.links().len() implies self.links()[a].0 != self.links()[b].0 by {
                        assert(l[a].0 != l[b].0);
                    }
                }
            },
            None => {
                self.links.push((id, hash));
                assert(self.links() =~= l.push((id, h)));
                proof {
                    assert forall|a: int, b: int| #![trigger self.links()[a], self.links()[b]]
                        0 <= a < b < self.links().len() implies self.links()[a].0 != self.links()[b].0 by {
                        assert(self.links()[a] == l[a]);
                        if b < l.len() {
                            assert(l[a].0 != l[b].0);
                        } else {
                            assert(l[a].0 != id);
                        }
                    }
                }
            },
        }
    }
}

fn contains_id(ids: &Vec<MessageId>, id: MessageId) -> (r: bool)
    ensures
        r == ids@.contains(id),
{
    let mut i: usize = 0;
    while i < ids.len()
        invariant
            i <= ids.len(),
            forall|j: int| 0 <= j < i ==> ids@[j] != id,
        decreases ids.len() - i,
    {
        if ids[i] == id {
            return true;
        }
        i += 1;
    }
    false
}

proof fn lemma_filter_hashes_distinct(s: Seq<CachedTransactionView>, pred: spec_fn(CachedTransactionView) -> bool, a: int, b: int)
    requires
        hashes_distinct(s),
        0 <= a < b < s.filter(pred).len(),
    ensures
        s.filter(pred)[a].hash != s.filter(pred)[b].hash,
    decreases s.len(),
{
    reveal(Seq::filter);
    if s.len() > 0 {
        let t = s.drop_last();
        assert forall|x: int, y: int| #![trigger t[x], t[y]] 0 <= x < y < t.len() implies t[x].hash != t[y].hash by {
            assert(t[x] == s[x]);
            assert(t[y] == s[y]);
        }
        let ft = t.filter(pred);
        if pred(s.last()) {
            if b < ft.len() {
                lemma_filter_hashes_distinct(t, pred, a, b);
            } else {
                assert(ft.contains(ft[a]));
                t.lemma_filter_contains_rev(pred, ft[a]);
                let x = choose|x: int| 0 <= x < t.len() && t[x] == ft[a];
                assert(s[x] == t[x]);
            }
        } else {
            lemma_filter_hashes_distinct(t, pred, a, b);
        }
    }
}

proof fn lemma_filter_ids_distinct(s: Seq<(MessageId, Seq<u8>)>, pred: spec_fn((MessageId, Seq<u8>)) -> bool, a: int, b: int)
    requires
        link_ids_distinct(s),
        0 <= a < b < s.filter(pred).len(),
    ensures
        s.filter(pred)[a].0 != s.filter(pred)[b].0,
    decreases s.len(),
{
    reveal(Seq::filter);
    if s.len() > 0 {
        let t = s.drop_last();
        assert forall|x: int, y: int| #![trigger t[x], t[y]] 0 <= x < y < t.len() implies t[x].0 != t[y].0 by {
            assert(t[x] == s[x]);
            assert(t[y] == s[y]);
        }
        let ft = t.filter(pred);
        if pred(s.last()) {
            if b < ft.len() {
                lemma_filter_ids_distinct(t, pred, a, b);
            } else {
                assert(ft.contains(ft[a]));
                t.lemma_filter_contains_rev(pred, ft[a]);
                let x = choose|x: int| 0 <= x < t.len() && t[x] == ft[a];
                assert(s[x] == t[x]);
            }
        } else {
            lemma_filter_ids_distinct(t, pred, a, b);
        }
    }
}

/// The transactions of `p` that are not stale at `now`.
pub open spec fn fresh_transactions(p: Seq<CachedTransactionView>, now: u64) -> Seq<CachedTransactionView> {
    p.filter(|t: CachedTransactionView| !is_stale(t.submitted_at, now))
}

/// The links of `l` whose message has no stale transaction in `p` at `now`.
pub open spec fn surviving_links(p: Seq<CachedTransactionView>, l: Seq<(MessageId, Seq<u8>)>, now: u64) -> Seq<(MessageId, Seq<u8>)> {
    l.filter(|x: (MessageId, Seq<u8>)| !has_stale_for(p, x.0, now))
}

/// After a cleanup at `now`, no tracked transaction is stale and no message
/// is linked whose transaction went stale.
pub proof fn lemma_cleanup_leaves_nothing_stale(p: Seq<CachedTransactionView>, l: Seq<(MessageId, Seq<u8>)>, now: u64)
    ensures
        forall|i: int| 0 <= i < fresh_transactions(p, now).len()
            ==> !is_stale(#[trigger] fresh_transactions(p, now)[i].submitted_at, now),
        forall|i: int| 0 <= i < surviving_links(p, l, now).len()
            ==> !has_stale_for(p, #[trigger] surviving_links(p, l, now)[i].0, now),
{
    let keep = |t: CachedTransactionView| !is_stale(t.submitted_at, now);
    let keep_link = |x: (MessageId, Seq<u8>)| !has_stale_for(p, x.0, now);
    assert forall|i: int| 0 <= i < fresh_transactions(p, now).len()
        implies !is_stale(#[trigger] fresh_transactions(p, now)[i].submitted_at, now) by {
        p.lemma_filter_pred(keep, i);
    }
    assert forall|i: int| 0 <= i < surviving_links(p, l, now).len()
        implies !has_stale_for(p, #[trigger] surviving_links(p, l, now)[i].0, now) by {
        l.lemma_filter_pred(keep_link, i);
    }
}

/// The gas price in use never exceeds what the network asks, nor the
/// configured maximum, nor [`GAS_PRICE_CEILING`] unless a configured maximum
/// above it is what caps the price.
/// A current price within both caps is used as it is; one above a cap is
/// cut down to that cap.
pub proof fn lemma_safe_gas_price_keeps_allowed(current: u128, max_gwei: Option<u64>)
    ensures
        current <= GAS_PRICE_CEILING && (max_gwei is None || current <= (max_gwei->0) * GWEI)
            ==> spec_safe_gas_price(current, max_gwei) == current,
        max_gwei matches Some(m) ==> (current > m * GWEI ==> spec_safe_gas_price(current, max_gwei) == m * GWEI),
        max_gwei is None && current > GAS_PRICE_CEILING ==> spec_safe_gas_price(current, max_gwei) == GAS_PRICE_CEILING,
{
}

/// The fee of a message is the cost of its estimated gas with a tenth added,
/// rounded down: ten fees lie within ten of eleven times the cost.
pub proof fn lemma_message_fee_adds_a_tenth(gas_price: u128)
    ensures
        11 * (gas_price * ESTIMATED_MESSAGE_GAS) - 10 < 10 * spec_message_fee(gas_price),
        10 * spec_message_fee(gas_price) <= 11 * (gas_price * ESTIMATED_MESSAGE_GAS),
{
    let b = gas_price * ESTIMATED_MESSAGE_GAS;
    assert(b >= 0) by (nonlinear_arith)
        requires b == gas_price * 150_000, gas_price >= 0;
    assert(10 * (b / 10) <= b < 10 * (b / 10) + 10) by (nonlinear_arith)
        requires b >= 0;
}

pub proof fn lemma_safe_gas_price_bounds(current: u128, max_gwei: Option<u64>)
    ensures
        spec_safe_gas_price(current, max_gwei) <= current,
        max_gwei matches Some(m) ==> spec_safe_gas_price(current, max_gwei) <= m * GWEI,
        (max_gwei matches Some(m) && current > m * GWEI) || spec_safe_gas_price(current, max_gwei) <= GAS_PRICE_CEILING,
{
}

} // verus!
