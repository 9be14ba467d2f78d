use frostgate_icap::chain::{AdapterError, MessageStatus};
use frostgate_icap::solana::{
    base_fee, check_finality_deadline, estimate_fee, mock_signature, multiplier_tenths, parse_signature, transaction_signature,
    transaction_fetch_failure, CommitmentLevel, SolanaAdapter, SolanaAdapterError, SolanaConfig, TrackedMessage,
};

#[test]
fn default_and_presets() {
    let d = SolanaConfig::default();
    assert_eq!(d.rpc_url, "https://api.mainnet-beta.solana.com");
    assert_eq!(d.relayer_pubkey, [0u8; 32]);
    assert_eq!(d.commitment, CommitmentLevel::Confirmed);
    assert_eq!((d.finality_timeout_secs, d.finality_poll_interval_ms, d.max_retries, d.retry_delay_ms), (60, 1000, 3, 1000));
    assert!(d.exponential_backoff);
    let dev = SolanaConfig::devnet("https://api.devnet.solana.com".to_string(), [1; 32]);
    assert_eq!((dev.finality_timeout_secs, dev.max_retries, dev.retry_delay_ms), (30, 5, 500));
    let local = SolanaConfig::localnet("http://127.0.0.1:8899".to_string(), [1; 32]);
    assert_eq!(local.commitment, CommitmentLevel::Processed);
    assert!(!local.exponential_backoff);
    let main = SolanaConfig::mainnet("https://x".to_string(), [2; 32]);
    assert_eq!(main.relayer_pubkey, [2; 32]);
}

#[test]
fn builder_validation() {
    let c = SolanaConfig::builder()
        .rpc_url("https://x".to_string())
        .relayer_pubkey([3; 32])
        .commitment(CommitmentLevel::Finalized)
        .finality_timeout_secs(5)
        .max_retries(1)
        .build()
        .unwrap();
    assert_eq!((c.finality_timeout_secs, c.max_retries, c.commitment), (5, 1, CommitmentLevel::Finalized));
    assert_eq!(
        SolanaConfig::builder().rpc_url(String::new()).build().unwrap_err(),
        SolanaAdapterError::InvalidConfiguration("RPC URL cannot be empty".to_string())
    );
    assert_eq!(
        SolanaConfig::builder().finality_timeout_secs(0).build().unwrap_err(),
        SolanaAdapterError::InvalidConfiguration("Finality timeout must be greater than 0".to_string())
    );
}

#[test]
fn retry_delays() {
    let c = SolanaConfig::default();
    assert_eq!(c.retry_delay(0), 1000);
    assert_eq!(c.retry_delay(3), 8000);
    let l = SolanaConfig::localnet("http://x".to_string(), [0; 32]);
    assert_eq!(l.retry_delay(3), 200);
}

#[test]
fn solana_error_texts() {
    assert_eq!(SolanaAdapterError::Network("down".to_string()).to_string(), "Network error: down");
    assert_eq!(SolanaAdapterError::RpcClient("x".to_string()).to_string(), "RPC client error: x");
    assert_eq!(SolanaAdapterError::InvalidConfiguration("y".to_string()).to_string(), "Invalid configuration: y");
    assert_eq!(SolanaAdapterError::VerificationFailed("z".to_string()).to_string(), "Verification failed: z");
}

#[test]
fn signatures() {
    let sig = solana_signature::Signature::from([5u8; 64]);
    let text = sig.to_string();
    assert_eq!(parse_signature(&text).unwrap(), vec![5u8; 64]);
    assert_eq!(
        parse_signature("0OIl").unwrap_err(),
        SolanaAdapterError::Transaction("Invalid signature format: failed to decode string to signature".to_string())
    );
    assert_eq!(
        parse_signature("abc").unwrap_err(),
        SolanaAdapterError::Transaction("Invalid signature format: string decoded to wrong size for signature".to_string())
    );
    assert_eq!(transaction_signature(&text).unwrap(), vec![5u8; 64]);
    assert_eq!(
        transaction_signature("abc").unwrap_err(),
        frostgate_icap::chain::AdapterError::InvalidInput(
            "Transaction error: Invalid signature format: string decoded to wrong size for signature".to_string()
        )
    );
}

#[test]
fn fetch_failures() {
    assert_eq!(transaction_fetch_failure(Some(-32603), "x"), Ok(None));
    assert_eq!(
        transaction_fetch_failure(Some(-32000), "boom"),
        Err(AdapterError::Network("Transaction fetch error: boom".to_string()))
    );
    assert!(transaction_fetch_failure(None, "y").is_err());
}

#[test]
fn fees() {
    assert_eq!(base_fee(&[]), 5000);
    assert_eq!(base_fee(&[10, 20, 31]), 20);
    assert_eq!(multiplier_tenths(100), 10);
    assert_eq!(multiplier_tenths(101), 12);
    assert_eq!(multiplier_tenths(1000), 15);
    assert_eq!(multiplier_tenths(1001), 20);
    assert_eq!(estimate_fee(&[], 50), 5000);
    assert_eq!(estimate_fee(&[], 300), 6000);
    assert_eq!(estimate_fee(&[1000], 600), 1500);
    assert_eq!(estimate_fee(&[7], 5000), 14);
}

#[test]
fn finality_deadline_and_mock_signature() {
    assert!(check_finality_deadline(9, 60_000, 60).is_ok());
    assert_eq!(
        check_finality_deadline(9, 60_001, 60),
        Err(AdapterError::Timeout("Finality timeout after 60 seconds for block 9".to_string()))
    );
    let id = 0x1234u128;
    assert_eq!(mock_signature(id, 1700), format!("{}{}", uuid::Uuid::from_u128(id), 1700));
}

#[test]
fn message_cache() {
    let mut adapter = SolanaAdapter::new(SolanaConfig::default()).unwrap();
    assert_eq!(
        adapter.begin_status_check(1),
        Err(AdapterError::MessageNotFound(format!("Message {} not found in cache", uuid::Uuid::from_u128(1))))
    );
    adapter.track(TrackedMessage {
        id: 1,
        signature: Some("sig".to_string()),
        status: MessageStatus::Pending,
        submitted_at: 100_000,
        block_slot: None,
    });
    adapter.track(TrackedMessage { id: 2, signature: None, status: MessageStatus::Failed("x".to_string()), submitted_at: 10, block_slot: None });
    assert_eq!(adapter.tracked_count(), 2);
    assert_eq!(adapter.begin_status_check(1), Ok(Some("sig".to_string())));
    assert_eq!(adapter.finish_status_check(1, Some(false)), MessageStatus::Pending);
    assert_eq!(adapter.finish_status_check(1, None), MessageStatus::Pending);
    assert_eq!(adapter.finish_status_check(1, Some(true)), MessageStatus::Confirmed);
    assert_eq!(adapter.cached_status(1), MessageStatus::Confirmed);
    assert_eq!(adapter.begin_status_check(2), Ok(None));
    assert_eq!(adapter.cached_status(2), MessageStatus::Failed("x".to_string()));
    adapter.update_message_status(2, MessageStatus::Pending, Some("new".to_string()));
    assert_eq!(adapter.begin_status_check(2), Ok(Some("new".to_string())));
    // A day after 10 s, message 2 expires; message 1 stays.
    adapter.cleanup_message_cache(86_410);
    assert_eq!(adapter.tracked_count(), 1);
    adapter.cleanup_message_cache(50);
    assert_eq!(adapter.tracked_count(), 1);
    adapter.record_health_check(77);
    let before = adapter.tracked_count();
    let sig = adapter.submit_message(99, 5);
    assert_eq!(sig, format!("{}5", uuid::Uuid::from_u128(99)));
    assert_eq!(adapter.tracked_count(), before + 1);
    assert_eq!(adapter.begin_status_check(99).unwrap(), Some(sig.clone()));
    assert_eq!(adapter.finish_status_check(99, Some(false)), frostgate_icap::chain::MessageStatus::Pending);
    assert_eq!(adapter.estimate_message_fee(&[100, 300], 10), 200);
}
