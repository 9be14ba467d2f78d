//! Solana: adapter configuration and its builder, the adapter's errors, retry
//! delays, signature parsing, fee estimation, finality, and the cache of
//! tracked messages.

use vstd::prelude::*;
use crate::chain::{AdapterError, MessageStatus};
use crate::digest::{decimal_string, decimal_text, uuid_string, uuid_text};
use crate::message::MessageId;
use crate::retry::{backoff, pow2};
use crate::text::{is_empty_str, join, owned};

verus! {

broadcast use vstd::string::group_string_axioms;

/// How far a transaction must be confirmed before it is reported.
#[derive(Debug, Clone, Copy, PartialEq, Eq, Structural)]
pub enum CommitmentLevel {
    Processed,
    Confirmed,
    Finalized,
}

/// Configuration of the Solana adapter.
#[derive(Debug, Clone)]
pub struct SolanaConfig {
    pub rpc_url: String,
    /// Public key of the relayer account.
    pub relayer_pubkey: [u8; 32],
    pub commitment: CommitmentLevel,
    /// Longest wait for finality, in seconds.
    pub finality_timeout_secs: u64,
    /// Interval between finality checks, in milliseconds.
    pub finality_poll_interval_ms: u64,
    /// Retries of a failed RPC call.
    pub max_retries: u32,
    /// Delay before the first retry, in milliseconds.
    pub retry_delay_ms: u64,
    /// Whether the delay doubles with each retry.
    pub exponential_backoff: bool,
}

/// A configuration with the given endpoint and key and the given settings.
pub open spec fn solana_config(
    rpc_url: String,
    relayer_pubkey: [u8; 32],
    commitment: CommitmentLevel,
    finality_timeout_secs: u64,
    finality_poll_interval_ms: u64,
    max_retries: u32,
    retry_delay_ms: u64,
    exponential_backoff: bool,
) -> SolanaConfig {
    SolanaConfig {
        rpc_url,
        relayer_pubkey,
        commitment,
        finality_timeout_secs,
        finality_poll_interval_ms,
        max_retries,
        retry_delay_ms,
        exponential_backoff,
    }
}

/// Whether a configuration is the default one: the public mainnet endpoint,
/// a zero key, confirmed commitment, 60 s finality timeout polled every
/// second, 3 retries from 1 s with exponential backoff.
pub open spec fn is_default_solana_config(c: SolanaConfig) -> bool {
    &&& c.rpc_url@ == "https://api.mainnet-beta.solana.com"@
    &&& c.relayer_pubkey@ == Seq::new(32, |i: int| 0u8)
    &&& c.commitment == CommitmentLevel::Confirmed
    &&& c.finality_timeout_secs == 60
    &&& c.finality_poll_interval_ms == 1000
    &&& c.max_retries == 3
    &&& c.retry_delay_ms == 1000
    &&& c.exponential_backoff
}

impl Default for SolanaConfig {
    /// The public mainnet endpoint, a zero key, confirmed commitment, 60 s
    /// finality timeout polled every second, 3 retries from 1 s with
    /// exponential backoff.
    fn default() -> (c: SolanaConfig)
        ensures
            is_default_solana_config(c),
    {
        let key = [0u8; 32];
        assert(key@ =~= Seq::new(32, |i: int| 0u8));
        SolanaConfig {
            rpc_url: owned("https://api.mainnet-beta.solana.com"),
            relayer_pubkey: key,
            commitment: CommitmentLevel::Confirmed,
            finality_timeout_secs: 60,
            finality_poll_interval_ms: 1000,
            max_retries: 3,
            retry_delay_ms: 1000,
            exponential_backoff: true,
        }
    }
}

impl SolanaConfig {
    /// A builder starting from the default configuration.
    pub fn builder() -> (b: SolanaConfigBuilder)
        ensures
            is_default_solana_config(b.value()),
    {
        SolanaConfigBuilder::default()
    }

    /// Mainnet: confirmed commitment, 60 s finality timeout polled every
    /// second, 3 retries from 1 s with exponential backoff.
    pub fn mainnet(rpc_url: String, relayer_pubkey: [u8; 32]) -> (c: SolanaConfig)
        ensures
            c == solana_config(rpc_url, relayer_pubkey, CommitmentLevel::Confirmed, 60, 1000, 3, 1000, true),
    {
        SolanaConfig {
            rpc_url,
            relayer_pubkey,
            commitment: CommitmentLevel::Confirmed,
            finality_timeout_secs: 60,
            finality_poll_interval_ms: 1000,
            max_retries: 3,
            retry_delay_ms: 1000,
            exponential_backoff: true,
        }
    }

    /// Devnet: confirmed commitment, 30 s finality timeout polled every half
    /// second, 5 retries from 0.5 s with exponential backoff.
    pub fn devnet(rpc_url: String, relayer_pubkey: [u8; 32]) -> (c: SolanaConfig)
        ensures
            c == solana_config(rpc_url, relayer_pubkey, CommitmentLevel::Confirmed, 30, 500, 5, 500, true),
    {
        SolanaConfig {
            rpc_url,
            relayer_pubkey,
            commitment: CommitmentLevel::Confirmed,
            finality_timeout_secs: 30,
            finality_poll_interval_ms: 500,
            max_retries: 5,
            retry_delay_ms: 500,
            exponential_backoff: true,
        }
    }

    /// A local validator: processed commitment, 10 s finality timeout polled
    /// every 0.1 s, 2 retries every 0.2 s.
    pub fn localnet(rpc_url: String, relayer_pubkey: [u8; 32]) -> (c: SolanaConfig)
        ensures
            c == solana_config(rpc_url, relayer_pubkey, CommitmentLevel::Processed, 10, 100, 2, 200, false),
    {
        SolanaConfig {
            rpc_url,
            relayer_pubkey,
            commitment: CommitmentLevel::Processed,
            finality_timeout_secs: 10,
            finality_poll_interval_ms: 100,
            max_retries: 2,
            retry_delay_ms: 200,
            exponential_backoff: false,
        }
    }

    /// The delay, in milliseconds, before retry number `attempt + 1` (counting
    /// from zero): the base delay, doubled `attempt` times with exponential
    /// backoff.
    pub fn retry_delay(&self, attempt: u32) -> (d: u64)
        requires
            attempt < 64,
            self.exponential_backoff ==> self.retry_delay_ms * pow2(attempt as nat) <= u64::MAX,
        ensures
            d == if self.exponential_backoff { self.retry_delay_ms * pow2(attempt as nat) } else { self.retry_delay_ms as int },
    {
        backoff(self.retry_delay_ms, attempt, self.exponential_backoff)
    }
}

/// Builds a [`SolanaConfig`] starting from the default one.
pub struct SolanaConfigBuilder {
    config: SolanaConfig,
}

impl Default for SolanaConfigBuilder {
    fn default() -> (b: SolanaConfigBuilder)
        ensures
            is_default_solana_config(b.value()),
    {
        SolanaConfigBuilder { config: SolanaConfig::default() }
    }
}

impl SolanaConfigBuilder {
    /// The configuration being built.
    pub closed spec fn value(&self) -> SolanaConfig {
        self.config
    }

    /// Sets the RPC endpoint.
    pub fn rpc_url(self, url: String) -> (b: Self)
        ensures
            b.value() == (SolanaConfig { rpc_url: url, ..self.value() }),
    {
        let mut b = self;
        b.config.rpc_url = url;
        b
    }

    /// Sets the relayer key.
    pub fn relayer_pubkey(self, pubkey: [u8; 32]) -> (b: Self)
        ensures
            b.value() == (SolanaConfig { relayer_pubkey: pubkey, ..self.value() }),
    {
        let mut b = self;
        b.config.relayer_pubkey = pubkey;
        b
    }

    /// Sets the commitment level.
    pub fn commitment(self, commitment: CommitmentLevel) -> (b: Self)
        ensures
            b.value() == (SolanaConfig { commitment, ..self.value() }),
    {
        let mut b = self;
        b.config.commitment = commitment;
        b
    }

    /// Sets the finality timeout, in seconds.
    pub fn finality_timeout_secs(self, timeout: u64) -> (b: Self)
        ensures
            b.value() == (SolanaConfig { finality_timeout_secs: timeout, ..self.value() }),
    {
        let mut b = self;
        b.config.finality_timeout_secs = timeout;
        b
    }

    /// Sets the number of retries.
    pub fn max_retries(self, retries: u32) -> (b: Self)
        ensures
            b.value() == (SolanaConfig { max_retries: retries, ..self.value() }),
    {
        let mut b = self;
        b.config.max_retries = retries;
        b
    }

    /// The configuration built: refused when the endpoint is empty or the
    /// finality timeout is zero.
    pub fn build(self) -> (r: Result<SolanaConfig, SolanaAdapterError>)
        ensures
            self.value().rpc_url@.len() == 0 ==> (r matches Err(SolanaAdapterError::InvalidConfiguration(m))
                && m@ == "RPC URL cannot be empty"@),
            self.value().rpc_url@.len() != 0 && self.value().finality_timeout_secs == 0 ==> (r matches Err(
                SolanaAdapterError::InvalidConfiguration(m),
            ) && m@ == "Finality timeout must be greater than 0"@),
            self.value().rpc_url@.len() != 0 && self.value().finality_timeout_secs != 0 ==> r == Ok::<
                SolanaConfig,
                SolanaAdapterError,
            >(self.value()),
    {
        if is_empty_str(self.config.rpc_url.as_str()) {
            return Err(SolanaAdapterError::InvalidConfiguration(owned("RPC URL cannot be empty")));
        }
        if self.config.finality_timeout_secs == 0 {
            return Err(SolanaAdapterError::InvalidConfiguration(owned("Finality timeout must be greater than 0")));
        }
        Ok(self.config)
    }
}

/// Errors of the Solana adapter. An RPC client error carries its text.
#[derive(Debug, Clone, PartialEq, Eq)]
pub enum SolanaAdapterError {
    Network(String),
    RpcClient(String),
    Transaction(String),
    Timeout(String),
    Serialization(String),
    InvalidConfiguration(String),
    MessageNotFound(String),
    VerificationFailed(String),
}

/// The text of an error of the Solana adapter.
pub open spec fn solana_error_text(e: SolanaAdapterError) -> Seq<char> {
    match e {
        SolanaAdapterError::Network(m) => "Network error: "@ + m@,
        SolanaAdapterError::RpcClient(m) => "RPC client error: "@ + m@,
        SolanaAdapterError::Transaction(m) => "Transaction error: "@ + m@,
        SolanaAdapterError::Timeout(m) => "Timeout error: "@ + m@,
        SolanaAdapterError::Serialization(m) => "Serialization error: "@ + m@,
        SolanaAdapterError::InvalidConfiguration(m) => "Invalid configuration: "@ + m@,
        SolanaAdapterError::MessageNotFound(m) => "Message not found: "@ + m@,
        SolanaAdapterError::VerificationFailed(m) => "Verification failed: "@ + m@,
    }
}

impl SolanaAdapterError {
    /// The text of the error.
    pub fn to_string(&self) -> (s: String)
        ensures
            s@ == solana_error_text(*self),
    {
        match self {
            SolanaAdapterError::Network(m) => join("Network error: ", m.as_str()),
            SolanaAdapterError::RpcClient(m) => join("RPC client error: ", m.as_str()),
            SolanaAdapterError::Transaction(m) => join("Transaction error: ", m.as_str()),
            SolanaAdapterError::Timeout(m) => join("Timeout error: ", m.as_str()),
            SolanaAdapterError::Serialization(m) => join("Serialization error: ", m.as_str()),
            SolanaAdapterError::InvalidConfiguration(m) => join("Invalid configuration: ", m.as_str()),
            SolanaAdapterError::MessageNotFound(m) => join("Message not found: ", m.as_str()),
            SolanaAdapterError::VerificationFailed(m) => join("Verification failed: ", m.as_str()),
        }
    }
}

/// Why a text is not a transaction signature.
#[derive(Debug, Clone, Copy, PartialEq, Eq, Structural)]
pub enum SignatureParseFailure {
    /// The text decodes to a number of bytes other than 64, or is too long.
    WrongSize,
    /// The text is not base58.
    Invalid,
}

/// The 64 bytes of the signature that a base58 text denotes, or why it denotes
/// none (as `solana_signature::Signature`'s `FromStr` decides).
pub uninterp spec fn parsed_signature(text: Seq<char>) -> Result<Seq<u8>, SignatureParseFailure>;

/// `FromStr` of `solana_signature::Signature`: the bytes of the signature a
/// base58 text denotes. Trusted: the result is named by `parsed_signature`,
/// and a signature has 64 bytes.
#[verifier::external_body]
fn parse_signature_text(text: &str) -> (r: Result<Vec<u8>, SignatureParseFailure>)
    ensures
        match parsed_signature(text@) {
            Ok(b) => r matches Ok(v) && v@ == b && b.len() == 64,
            Err(f) => r == Err::<Vec<u8>, SignatureParseFailure>(f),
        },
{
    match text.parse::<solana_signature::Signature>() {
        Ok(sig) => Ok(<[u8; 64]>::from(sig).to_vec()),
        Err(solana_signature::ParseSignatureError::WrongSize) => Err(SignatureParseFailure::WrongSize),
        Err(solana_signature::ParseSignatureError::Invalid) => Err(SignatureParseFailure::Invalid),
    }
}

/// The text of a signature parse failure.
pub open spec fn parse_failure_text(f: SignatureParseFailure) -> Seq<char> {
    match f {
        SignatureParseFailure::WrongSize => "string decoded to wrong size for signature"@,
        SignatureParseFailure::Invalid => "failed to decode string to signature"@,
    }
}

/// The bytes of a transaction signature given as base58 text; a text that is
/// not one is a transaction error saying why.
pub fn parse_signature(sig_str: &str) -> (r: Result<Vec<u8>, SolanaAdapterError>)
    ensures
        match parsed_signature(sig_str@) {
            Ok(b) => r matches Ok(v) && v@ == b && v@.len() == 64,
            Err(f) => r matches Err(SolanaAdapterError::Transaction(m))
                && m@ == "Invalid signature format: "@ + parse_failure_text(f),
        },
{
    match parse_signature_text(sig_str) {
        Ok(v) => Ok(v),
        Err(f) => {
            let reason = match f {
                SignatureParseFailure::WrongSize => "string decoded to wrong size for signature",
                SignatureParseFailure::Invalid => "failed to decode string to signature",
            };
            Err(SolanaAdapterError::Transaction(join("Invalid signature format: ", reason)))
        },
    }
}

/// The signature to fetch a transaction by: the bytes its id denotes, or,
/// for an id that is no signature, an invalid-input error carrying the text of
/// the parse error.
pub fn transaction_signature(tx_id: &str) -> (r: Result<Vec<u8>, AdapterError>)
    ensures
        match parsed_signature(tx_id@) {
            Ok(b) => r matches Ok(v) && v@ == b && v@.len() == 64,
            Err(f) => r matches Err(AdapterError::InvalidInput(m))
                && m@ == "Transaction error: "@ + ("Invalid signature format: "@ + parse_failure_text(f)),
        },
{
    match parse_signature(tx_id) {
        Ok(v) => Ok(v),
        Err(e) => Err(AdapterError::InvalidInput(e.to_string())),
    }
}

/// The outcome of fetching a transaction that failed with the given RPC
/// response code (if the failure was an RPC response) and error text: the
/// code -32603 means the transaction is not there; anything else is a network
/// error.
pub fn transaction_fetch_failure(code: Option<i64>, detail: &str) -> (r: Result<Option<Vec<u8>>, AdapterError>)
    ensures
        code == Some(-32603i64) ==> r == Ok::<Option<Vec<u8>>, AdapterError>(None),
        code != Some(-32603i64) ==> (r matches Err(AdapterError::Network(m))
            && m@ == "Transaction fetch error: "@ + detail@),
{
    if code == Some(-32603i64) {
        Ok(None)
    } else {
        Err(AdapterError::Network(join("Transaction fetch error: ", detail)))
    }
}

/// Fee, in lamports, assumed when no recent fees are known.
pub const FALLBACK_FEE: u128 = 5000;

/// The sum of a list of fees.
pub open spec fn fee_sum(fees: Seq<u64>) -> int
    decreases fees.len(),
{
    if fees.len() == 0 { 0 } else { fee_sum(fees.drop_last()) + fees.last() }
}

/// The base fee: the average of the recent prioritisation fees, rounded down,
/// or [`FALLBACK_FEE`] when there are none.
pub open spec fn spec_base_fee(fees: Seq<u64>) -> int {
    if fees.len() == 0 { FALLBACK_FEE as int } else { fee_sum(fees) / (fees.len() as int) }
}

/// The base fee for a list of recent prioritisation fees.
pub fn base_fee(fees: &[u64]) -> (f: u128)
    requires
        fee_sum(fees@) <= u64::MAX,
    ensures
        f == spec_base_fee(fees@),
        fees@.len() == 0 ==> f == FALLBACK_FEE,
        fees@.len() > 0 ==> f * fees@.len() <= fee_sum(fees@) < (f + 1) * fees@.len(),
{
    proof {
        lemma_base_fee_is_mean(fees@);
    }
    if fees.len() == 0 {
        return FALLBACK_FEE;
    }
    let mut sum: u64 = 0;
    let mut i: usize = 0;
    while i < fees.len()
        invariant
            i <= fees.len(),
            sum == fee_sum(fees@.take(i as int)),
            fee_sum(fees@) <= u64::MAX,
        decreases fees.len() - i,
    {
        assert(fees@.take(i as int + 1).drop_last() =~= fees@.take(i as int));
        proof {
            lemma_fee_sum_prefix(fees@, i as int + 1);
        }
        sum = sum + fees[i];
        i += 1;
    }
    assert(fees@.take(fees.len() as int) =~= fees@);
    (sum / (fees.len() as u64)) as u128
}

/// The base fee of a non-empty list is the mean of all the fees, rounded
/// down: that many copies of it do not exceed their sum, and one more each
/// would.
pub proof fn lemma_base_fee_is_mean(fees: Seq<u64>)
    ensures
        fees.len() == 0 ==> spec_base_fee(fees) == FALLBACK_FEE,
        fees.len() > 0 ==> spec_base_fee(fees) * fees.len() <= fee_sum(fees) < (spec_base_fee(fees) + 1) * fees.len(),
{
    if fees.len() > 0 {
        let n = fees.len() as int;
        let t = fee_sum(fees);
        lemma_fee_sum_nonneg(fees);
        assert((t / n) * n <= t < (t / n + 1) * n) by (nonlinear_arith)
            requires n > 0, t >= 0;
    }
}

/// The base fee of a non-empty list lies between any bounds of its fees; where
/// all fees are equal, it is that fee.
pub proof fn lemma_base_fee_between(fees: Seq<u64>, lo: u64, hi: u64)
    requires
        fees.len() > 0,
        forall|i: int| 0 <= i < fees.len() ==> lo <= #[trigger] fees[i] <= hi,
    ensures
        lo <= spec_base_fee(fees) <= hi,
{
    let n = fees.len() as int;
    let t = fee_sum(fees);
    lemma_fee_sum_bounds(fees, lo, hi);
    assert(lo <= t / n <= hi) by (nonlinear_arith)
        requires n > 0, lo * n <= t, t <= hi * n, lo >= 0;
}

proof fn lemma_fee_sum_bounds(fees: Seq<u64>, lo: u64, hi: u64)
    requires
        forall|i: int| 0 <= i < fees.len() ==> lo <= #[trigger] fees[i] <= hi,
    ensures
        lo * fees.len() <= fee_sum(fees) <= hi * fees.len(),
    decreases fees.len(),
{
    if fees.len() > 0 {
        let init = fees.drop_last();
        assert forall|i: int| 0 <= i < init.len() implies lo <= #[trigger] init[i] <= hi by {
            assert(init[i] == fees[i]);
        }
        lemma_fee_sum_bounds(init, lo, hi);
        assert(fees.last() == fees[fees.len() - 1]);
        assert(lo * fees.len() == lo * init.len() + lo) by (nonlinear_arith)
            requires fees.len() == init.len() + 1;
        assert(hi * fees.len() == hi * init.len() + hi) by (nonlinear_arith)
            requires fees.len() == init.len() + 1;
    }
}

proof fn lemma_fee_sum_prefix(s: Seq<u64>, k: int)
    requires
        0 <= k <= s.len(),
    ensures
        fee_sum(s.take(k)) <= fee_sum(s),
    decreases s.len(),
{
    if k < s.len() {
        assert(s.drop_last().take(k) =~= s.take(k));
        lemma_fee_sum_prefix(s.drop_last(), k);
    } else {
        assert(s.take(k) =~= s);
    }
}

/// The fee multiplier, in tenths, for a payload of `len` bytes: 1.0 up to 100
/// bytes, 1.2 up to 500, 1.5 up to 1000, 2.0 beyond.
pub open spec fn spec_multiplier_tenths(len: usize) -> u128 {
    if len <= 100 { 10 } else if len <= 500 { 12 } else if len <= 1000 { 15 } else { 20 }
}

/// The multiplier never falls as the payload grows, and stays between 1.0
/// and 2.0: small payloads pay the base fee, large ones twice it.
pub proof fn lemma_multiplier_grows(a: usize, b: usize)
    ensures
        a <= b ==> spec_multiplier_tenths(a) <= spec_multiplier_tenths(b),
        10 <= spec_multiplier_tenths(a) <= 20,
        a <= 100 ==> spec_multiplier_tenths(a) == 10,
        a > 1000 ==> spec_multiplier_tenths(a) == 20,
{
}

/// The fee multiplier, in tenths, for a payload length.
pub fn multiplier_tenths(len: usize) -> (m: u128)
    ensures
        m == spec_multiplier_tenths(len),
        10 <= m <= 20,
        len <= 100 ==> m == 10,
        len > 1000 ==> m == 20,
{
    if len <= 100 {
        10
    } else if len <= 500 {
        12
    } else if len <= 1000 {
        15
    } else {
        20
    }
}

/// The estimated fee, in lamports, of a message with a payload of
/// `payload_len` bytes given the recent prioritisation fees: the base fee times
/// the multiplier, rounded down.
pub fn estimate_fee(fees: &[u64], payload_len: usize) -> (f: u128)
    requires
        fee_sum(fees@) <= u64::MAX,
    ensures
        f == spec_base_fee(fees@) * spec_multiplier_tenths(payload_len) / 10,
{
    let base = base_fee(fees);
    let m = multiplier_tenths(payload_len);
    proof {
        assert(base <= u64::MAX as u128) by {
            if fees@.len() > 0 {
                lemma_fee_sum_nonneg(fees@);
                assert(fee_sum(fees@) / (fees@.len() as int) <= fee_sum(fees@)) by (nonlinear_arith)
                    requires fees@.len() > 0, fee_sum(fees@) >= 0;
            }
        }
    }
    assert(base * m <= 20 * (u64::MAX as int)) by (nonlinear_arith)
        requires base <= u64::MAX, m <= 20;
    base * m / 10
}

proof fn lemma_fee_sum_nonneg(s: Seq<u64>)
    ensures
        fee_sum(s) >= 0,
    decreases s.len(),
{
    if s.len() > 0 {
        lemma_fee_sum_nonneg(s.drop_last());
    }
}

/// The text of the signature a submission is given without a chain: the
/// message id followed by the submission time in seconds.
pub open spec fn mock_signature_text(id: MessageId, now_secs: u64) -> Seq<char> {
    uuid_text(id) + decimal_text(now_secs)
}

/// The signature a submission is given: the message id followed by the
/// submission time in seconds.
pub fn mock_signature(id: MessageId, now_secs: u64) -> (s: String)
    ensures
        s@ == mock_signature_text(id, now_secs),
{
    let a = uuid_string(id);
    let b = decimal_string(now_secs);
    join(a.as_str(), b.as_str())
}

/// Checks the deadline of a wait for the finality of slot `block` that has
/// lasted `elapsed_ms` milliseconds, with a timeout of `timeout_secs` seconds.
pub fn check_finality_deadline(block: u64, elapsed_ms: u64, timeout_secs: u64) -> (r: Result<(), AdapterError>)
    ensures
        elapsed_ms <= timeout_secs * 1000 ==> r is Ok,
        elapsed_ms > timeout_secs * 1000 ==> (r matches Err(AdapterError::Timeout(m))
            && m@ == "Finality timeout after "@ + decimal_text(timeout_secs) + " seconds for block "@ + decimal_text(block)),
{
    if (elapsed_ms as u128) > (timeout_secs as u128) * 1000 {
        let t = decimal_string(timeout_secs);
        let b = decimal_string(block);
        let p1 = join("Finality timeout after ", t.as_str());
        let p2 = join(p1.as_str(), " seconds for block ");
        Err(AdapterError::Timeout(join(p2.as_str(), b.as_str())))
    } else {
        Ok(())
    }
}

/// A message submitted to Solana and followed in the cache. The submission
/// time is in seconds since the epoch.
#[derive(Debug)]
pub struct TrackedMessage {
    pub id: MessageId,
    pub signature: Option<String>,
    pub status: MessageStatus,
    pub submitted_at: u64,
    pub block_slot: Option<u64>,
}

/// Seconds a tracked message stays in the cache (a day).
pub const MAX_CACHE_AGE_SECS: u64 = 86400;

/// Whether a message submitted at `submitted_at` is still kept at `now`: it
/// was submitted after the cutoff a day before `now`.
pub open spec fn is_kept(submitted_at: u64, now: u64) -> bool {
    now < MAX_CACHE_AGE_SECS || submitted_at > now - MAX_CACHE_AGE_SECS
}

fn clone_status(s: &MessageStatus) -> (r: MessageStatus)
    ensures
        r == *s,
{
    match s {
        MessageStatus::Pending => MessageStatus::Pending,
        MessageStatus::Confirmed => MessageStatus::Confirmed,
        MessageStatus::Failed(m) => MessageStatus::Failed(m.clone()),
    }
}

/// No message id is tracked twice.
pub open spec fn tracked_ids_distinct(s: Seq<TrackedMessage>) -> bool {
    forall|x: int, y: int| #![trigger s[x], s[y]] 0 <= x < y < s.len() ==> s[x].id != s[y].id
}

/// Whether a message id is tracked.
pub open spec fn is_tracked(s: Seq<TrackedMessage>, id: MessageId) -> bool {
    exists|i: int| 0 <= i < s.len() && #[trigger] s[i].id == id
}

/// The position of a tracked message id.
pub open spec fn tracked_index(s: Seq<TrackedMessage>, id: MessageId) -> int {
    choose|i: int| 0 <= i < s.len() && #[trigger] s[i].id == id
}

/// The text of the error for a message that is not tracked.
pub open spec fn not_tracked_text(id: MessageId) -> Seq<char> {
    "Message "@ + uuid_text(id) + " not found in cache"@
}

/// The state of the Solana adapter that its decisions work on: the
/// configuration, the tracked messages, and when its health was last checked
/// successfully (milliseconds since the epoch).
pub struct SolanaAdapter {
    config: SolanaConfig,
    message_cache: Vec<TrackedMessage>,
    last_health_check: Option<u64>,
}

impl SolanaAdapter {
    /// The configuration.
    pub closed spec fn config(&self) -> SolanaConfig {
        self.config
    }

    /// The tracked messages.
    pub closed spec fn cache(&self) -> Seq<TrackedMessage> {
        self.message_cache@
    }

    /// When the last successful health check happened, if ever.
    pub closed spec fn last_health_check(&self) -> Option<u64> {
        self.last_health_check
    }

    /// No message is tracked twice.
    pub open spec fn wf(&self) -> bool {
        tracked_ids_distinct(self.cache())
    }

    /// An adapter with the given configuration, tracking nothing.
    pub fn new(config: SolanaConfig) -> (r: Result<SolanaAdapter, SolanaAdapterError>)
        ensures
            r matches Ok(a) && a.wf() && a.config() == config && a.cache().len() == 0 && a.last_health_check() is None,
    {
        Ok(SolanaAdapter { config, message_cache: Vec::new(), last_health_check: None })
    }

    fn find(&self, id: MessageId) -> (r: Option<usize>)
        ensures
            match r {
                Some(i) => i < self.cache().len() && self.cache()[i as int].id == id,
                None => !is_tracked(self.cache(), id),
            },
    {
        let mut i: usize = 0;
        while i < self.message_cache.len()
            invariant
                i <= self.message_cache.len(),
                forall|j: int| 0 <= j < i ==> self.message_cache@[j].id != id,
            decreases self.message_cache.len() - i,
        {
            if self.message_cache[i].id == id {
                return Some(i);
            }
            i += 1;
        }
        None
    }

    /// Number of tracked messages.
    pub fn tracked_count(&self) -> (n: usize)
        ensures
            n == self.cache().len(),
    {
        self.message_cache.len()
    }

    /// Starts following a message, replacing what was tracked under its id.
    pub fn track(&mut self, msg: TrackedMessage)
        requires
            old(self).wf(),
        ensures
            final(self).wf(),
            final(self).cache() == if is_tracked(old(self).cache(), msg.id) {
                old(self).cache().update(tracked_index(old(self).cache(), msg.id), msg)
            } else {
                old(self).cache().push(msg)
            },
            final(self).config() == old(self).config(),
            final(self).last_health_check() == old(self).last_health_check(),
    {
        let ghost s = self.message_cache@;
        let ghost m = msg;
        match self.find(msg.id) {
            Some(i) => {
                proof {
                    let c = tracked_index(s, m.id);
                    assert(s[c].id == s[i as int].id);
                }
                self.message_cache.set(i, msg);
                proof {
                    assert forall|x: int, y: int| #![trigger self.message_cache@[x], self.message_cache@[y]]
                        0 <= x < y < self.message_cache@.len() implies self.message_cache@[x].id != self.message_cache@[y].id by {
                        assert(s[x].id != s[y].id);
                    }
                }
            },
            None => {
                self.message_cache.push(msg);
                proof {
                    assert forall|x: int, y: int| #![trigger self.message_cache@[x], self.message_cache@[y]]
                        0 <= x < y < self.message_cache@.len() implies self.message_cache@[x].id != self.message_cache@[y].id by {
                        assert(self.message_cache@[x] == s[x]);
                        if y < s.len() {
                            assert(s[x].id != s[y].id);
                        }
                    }
                }
            },
        }
    }

    /// Sets the status of a tracked message, and its signature when one is
    /// given; an id that is not tracked changes nothing.
    pub fn update_message_status(&mut self, id: MessageId, status: MessageStatus, signature: Option<String>)
        requires
            old(self).wf(),
        ensures
            final(self).wf(),
            final(self).cache() == if is_tracked(old(self).cache(), id) {
                let i = tracked_index(old(self).cache(), id);
                let m = old(self).cache()[i];
                old(self).cache().update(i, TrackedMessage {
                    status: status,
                    signature: if signature is Some { signature } else { m.signature },
                    ..m
                })
            } else {
                old(self).cache()
            },
            final(self).config() == old(self).config(),
            final(self).last_health_check() == old(self).last_health_check(),
    {
        let ghost s = self.message_cache@;
        match self.find(id) {
            Some(i) => {
                proof {
                    let c = tracked_index(s, id);
                    assert(s[c].id == s[i as int].id);
                }
                let mut m = self.message_cache.remove(i);
                m.status = status;
                match signature {
                    Some(sig) => {
                        m.signature = Some(sig);
                    },
                    None => {},
                }
                self.message_cache.insert(i, m);
                assert(self.message_cache@ =~= s.update(i as int, m));
                proof {
                    assert forall|x: int, y: int| #![trigger self.message_cache@[x], self.message_cache@[y]]
                        0 <= x < y < self.message_cache@.len() implies self.message_cache@[x].id != self.message_cache@[y].id by {
                        assert(s[x].id != s[y].id);
                    }
                }
            },
            None => {},
        }
    }

    /// Drops the messages submitted a day or more before `now` (seconds).
    pub fn cleanup_message_cache(&mut self, now: u64)
        requires
            old(self).wf(),
        ensures
            final(self).wf(),
            final(self).cache() == old(self).cache().filter(|m: TrackedMessage| is_kept(m.submitted_at, now)),
            final(self).config() == old(self).config(),
            final(self).last_health_check() == old(self).last_health_check(),
    {
        let ghost s = self.message_cache@;
        let ghost keep = |m: TrackedMessage| is_kept(m.submitted_at, now);
        let mut rest: Vec<TrackedMessage> = Vec::new();
        std::mem::swap(&mut rest, &mut self.message_cache);
        let mut kept: Vec<TrackedMessage> = Vec::new();
        let n = rest.len();
        let mut i: usize = 0;
        while i < n
            invariant
                n == s.len(),
                i <= n,
                rest@ == s.skip(i as int),
                kept@ == s.take(i as int).filter(keep),
                keep == (|m: TrackedMessage| is_kept(m.submitted_at, now)),
            decreases n - i,
        {
            assert(rest@[0] == s[i as int]);
            let m = rest.remove(0);
            assert(rest@ =~= s.skip(i as int + 1));
            assert(s.take(i as int + 1) =~= s.take(i as int).push(s[i as int]));
            proof {
                s.take(i as int).lemma_filter_push(s[i as int], keep);
            }
            let kept_now = now < MAX_CACHE_AGE_SECS || m.submitted_at > now - MAX_CACHE_AGE_SECS;
            if kept_now {
                kept.push(m);
            }
            i += 1;
        }
        assert(s.take(n as int) =~= s);
        self.message_cache = kept;
        proof {
            assert forall|x: int, y: int| #![trigger self.message_cache@[x], self.message_cache@[y]]
                0 <= x < y < self.message_cache@.len() implies self.message_cache@[x].id != self.message_cache@[y].id by {
                lemma_filter_tracked_distinct(s, keep, x, y);
            }
        }
    }

    /// The first step of reporting a message's status: an untracked message
    /// is an error; a tracked one gives the signature to look up on chain, if
    /// it has one.
    pub fn begin_status_check(&self, id: MessageId) -> (r: Result<Option<String>, AdapterError>)
        requires
            self.wf(),
        ensures
            is_tracked(self.cache(), id) ==> r == Ok::<Option<String>, AdapterError>(
                self.cache()[tracked_index(self.cache(), id)].signature,
            ),
            !is_tracked(self.cache(), id) ==> (r matches Err(AdapterError::MessageNotFound(m)) && m@ == not_tracked_text(id)),
    {
        match self.find(id) {
            Some(i) => {
                proof {
                    let c = tracked_index(self.cache(), id);
                    assert(self.cache()[c].id == self.cache()[i as int].id);
                }
                match &self.message_cache[i].signature {
                    Some(sig) => Ok(Some(sig.clone())),
                    None => Ok(None),
                }
            },
            None => {
                let u = uuid_string(id);
                let head = join("Message ", u.as_str());
                Err(AdapterError::MessageNotFound(join(head.as_str(), " not found in cache")))
            },
        }
    }

    /// The last step of reporting a tracked message's status, given what the
    /// chain said of its signature: found, and the message is confirmed (and
    /// recorded so); not found, and it is pending; no answer, and the tracked
    /// status stands.
    pub fn finish_status_check(&mut self, id: MessageId, found_on_chain: Option<bool>) -> (s: MessageStatus)
        requires
            old(self).wf(),
            is_tracked(old(self).cache(), id),
        ensures
            final(self).wf(),
            found_on_chain == Some(true) ==> s == MessageStatus::Confirmed,
            found_on_chain == Some(false) ==> s == MessageStatus::Pending,
            found_on_chain is None ==> s == old(self).cache()[tracked_index(old(self).cache(), id)].status,
            found_on_chain == Some(true) ==> final(self).cache() == old(self).cache().update(
                tracked_index(old(self).cache(), id),
                TrackedMessage {
                    status: MessageStatus::Confirmed,
                    ..old(self).cache()[tracked_index(old(self).cache(), id)]
                },
            ),
            found_on_chain != Some(true) ==> final(self).cache() == old(self).cache(),
            final(self).config() == old(self).config(),
    {
        match found_on_chain {
            Some(true) => {
                self.update_message_status(id, MessageStatus::Confirmed, None);
                MessageStatus::Confirmed
            },
            Some(false) => MessageStatus::Pending,
            None => self.cached_status(id),
        }
    }

    /// The tracked status of a message.
    pub fn cached_status(&self, id: MessageId) -> (s: MessageStatus)
        requires
            self.wf(),
            is_tracked(self.cache(), id),
        ensures
            s == self.cache()[tracked_index(self.cache(), id)].status,
    {
        match self.find(id) {
            Some(i) => {
                proof {
                    let c = tracked_index(self.cache(), id);
                    assert(self.cache()[c].id == self.cache()[i as int].id);
                }
                clone_status(&self.message_cache[i].status)
            },
            None => MessageStatus::Pending,
        }
    }

    /// Records a successful health check at `now` (milliseconds).
    pub fn record_health_check(&mut self, now: u64)
        ensures
            final(self).last_health_check() == Some(now),
            final(self).cache() == old(self).cache(),
            final(self).config() == old(self).config(),
            final(self).wf() == old(self).wf(),
    {
        self.last_health_check = Some(now);
    }

    /// Submits a message without a chain program: the message is given the
    /// signature made of its id and the submission time (seconds), and is
    /// tracked as pending under that signature, replacing what was tracked
    /// under its id.
    pub fn submit_message(&mut self, id: MessageId, now_secs: u64) -> (sig: String)
        requires
            old(self).wf(),
        ensures
            sig@ == mock_signature_text(id, now_secs),
            final(self).wf(),
            ({
                let m = TrackedMessage {
                    id: id,
                    signature: Some(sig),
                    status: MessageStatus::Pending,
                    submitted_at: now_secs,
                    block_slot: None,
                };
                final(self).cache() == if is_tracked(old(self).cache(), id) {
                    old(self).cache().update(tracked_index(old(self).cache(), id), m)
                } else {
                    old(self).cache().push(m)
                }
            }),
            is_tracked(final(self).cache(), id),
            final(self).cache()[tracked_index(final(self).cache(), id)].signature == Some(sig),
            final(self).config() == old(self).config(),
            final(self).last_health_check() == old(self).last_health_check(),
    {
        let sig = mock_signature(id, now_secs);
        let msg = TrackedMessage {
            id,
            signature: Some(sig.clone()),
            status: MessageStatus::Pending,
            submitted_at: now_secs,
            block_slot: None,
        };
        let ghost s = self.cache();
        self.track(msg);
        proof {
            let t = self.cache();
            let i = if is_tracked(s, id) { tracked_index(s, id) } else { s.len() as int };
            assert(t[i].id == id);
            let c = tracked_index(t, id);
            assert(t[c].id == id);
            assert(c == i);
        }
        sig
    }

    /// The estimated fee of a message (see [`estimate_fee`]).
    pub fn estimate_message_fee(&self, recent_fees: &[u64], payload_len: usize) -> (f: u128)
        requires
            fee_sum(recent_fees@) <= u64::MAX,
        ensures
            f == spec_base_fee(recent_fees@) * spec_multiplier_tenths(payload_len) / 10,
    {
        estimate_fee(recent_fees, payload_len)
    }
}

proof fn lemma_filter_tracked_distinct(s: Seq<TrackedMessage>, pred: spec_fn(TrackedMessage) -> bool, a: int, b: int)
    requires
        tracked_ids_distinct(s),
        0 <= a < b < s.filter(pred).len(),
    ensures
        s.filter(pred)[a].id != s.filter(pred)[b].id,
    decreases s.len(),
{
    reveal(Seq::filter);
    if s.len() > 0 {
        let t = s.drop_last();
        assert forall|x: int, y: int| #![trigger t[x], t[y]] 0 <= x < y < t.len() implies t[x].id != t[y].id by {
            assert(t[x] == s[x]);
            assert(t[y] == s[y]);
        }
        let ft = t.filter(pred);
        if pred(s.last()) {
            if b < ft.len() {
                lemma_filter_tracked_distinct(t, pred, a, b);
            } else {
                assert(ft.contains(ft[a]));
                t.lemma_filter_contains_rev(pred, ft[a]);
                let x = choose|x: int| 0 <= x < t.len() && t[x] == ft[a];
                assert(s[x] == t[x]);
            }
        } else {
            lemma_filter_tracked_distinct(t, pred, a, b);
        }
    }
}

} // verus!
