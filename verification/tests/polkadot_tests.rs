use frostgate_icap::chain::{AdapterError, MessageStatus};
use frostgate_icap::health::{ConnectionStatus, HealthMetrics};
use frostgate_icap::substrate::config::{ChainSpecificConfig, PolkadotConfig, SubstrateConfig};
use frostgate_icap::substrate::tracking::{
    check_finality_deadline, connection_error, finality_step, FinalityStep, latest_block_number, confirmation_status, finality_target, retry_delay, runtime_upgraded, validate_metadata,
    PalletMetadata, PolkadotAdapter, StatusLookup, TxProgressEvent, TxTrackingStatus,
};
use std::time::Duration;

#[test]
fn test_health_metrics_default() {
    let metrics = HealthMetrics {
        last_successful_timestamp: None,
        consecutive_failures: 0,
        total_calls: 0,
        failed_calls: 0,
        avg_response_time: 0,
        connection_status: ConnectionStatus::Unknown,
        latest_block_seen: None,
        last_updated_timestamp: 0,
    };

    assert_eq!(metrics.consecutive_failures, 0);
    assert_eq!(metrics.connection_status, ConnectionStatus::Unknown);
    assert!(metrics.last_successful_timestamp.is_none());
}

#[test]
fn test_adapter_creation() {
    let config = PolkadotConfig {
        rpc_url: "ws://localhost:9944".to_string(),
        signer_seed: "//Alice".to_string(),
        confirmations: Some(6),
        rpc_timeout: Some(Duration::from_secs(10).as_nanos() as u64),
        max_concurrent_requests: Some(5),
        health_check_interval: None,
        min_call_interval: Some(Duration::from_millis(50).as_nanos() as u64),
        message_pallet: None,
        chain_specific: None,
    };
    let adapter = PolkadotAdapter::new(config, 1_000);
    assert_eq!(adapter.health_monitor_interval(), None);
    assert_eq!(adapter.get_health_metrics().connection_status, ConnectionStatus::Unknown);
}

#[test]
fn presets_and_defaults() {
    let m = PolkadotConfig::mainnet("wss://rpc.polkadot.io".to_string(), "//Alice".to_string());
    assert_eq!(m.confirmations, Some(12));
    assert_eq!(m.rpc_timeout, Some(Duration::from_secs(30).as_nanos() as u64));
    assert_eq!(m.message_pallet.as_deref(), Some("XcmpQueue"));
    assert_eq!(m.chain_specific.as_ref().unwrap().chain_id, "polkadot");
    let k = PolkadotConfig::kusama("wss://k".to_string(), "//Bob".to_string());
    assert_eq!((k.confirmations, k.chain_specific.as_ref().unwrap().finality_blocks), (Some(6), Some(6)));
    let d = PolkadotConfig::development("ws://localhost:9944".to_string(), "//Alice".to_string());
    assert_eq!(d.health_check_interval, None);
    assert_eq!(d.pallet_name(), "XcmpQueue");
    assert_eq!(d.block_time(), 3_000_000_000);
    let mut bare = d.clone();
    bare.chain_specific = Some(ChainSpecificConfig {
        chain_id: "x".to_string(),
        block_time: None,
        finality_blocks: None,
        custom_rpc_methods: None,
    });
    bare.confirmations = None;
    bare.rpc_timeout = None;
    bare.min_call_interval = None;
    bare.max_concurrent_requests = None;
    assert_eq!(bare.block_time(), 6_000_000_000);
    assert_eq!(bare.required_confirmations(), 12);
    assert_eq!(bare.effective_rpc_timeout(), 30_000_000_000);
    assert_eq!(bare.effective_min_call_interval(), 100_000_000);
    assert_eq!(bare.max_concurrent(), 10);
    let s = SubstrateConfig { rpc_url: "ws://x".to_string(), chain_id: 2, pallet_name: "Frost".to_string(), max_weight: 9 };
    assert_eq!(s.pallet_name, "Frost");
}

#[test]
fn retry_delays_double_up_to_thirty_seconds() {
    assert_eq!(retry_delay(0), 1000);
    assert_eq!(retry_delay(1), 2000);
    assert_eq!(retry_delay(4), 16_000);
    assert_eq!(retry_delay(5), 30_000);
    assert_eq!(retry_delay(40), 30_000);
}

#[test]
fn finality_helpers() {
    assert_eq!(finality_target(10, 12), 22);
    assert!(check_finality_deadline(3, 600_000_000_000).is_ok());
    assert_eq!(
        check_finality_deadline(3, 600_000_000_001),
        Err(AdapterError::Timeout("Finality wait timeout for block 3 after 600s".to_string()))
    );
    assert_eq!(confirmation_status(10, 22, 12), MessageStatus::Confirmed);
    assert_eq!(confirmation_status(10, 21, 12), MessageStatus::Pending);
    assert_eq!(confirmation_status(10, 5, 0), MessageStatus::Confirmed);
}

#[test]
fn transaction_lifecycle() {
    let config = PolkadotConfig::mainnet("wss://rpc.polkadot.io".to_string(), "//Alice".to_string());
    let mut adapter = PolkadotAdapter::new(config, 5);
    assert_eq!(adapter.health_monitor_interval(), Some(30_000_000_000));
    assert!(matches!(adapter.status_lookup(1), StatusLookup::Resolved(MessageStatus::Pending)));

    let hash = adapter.submit_message(1, 100);
    assert_eq!(hash.len(), 32);
    let info = adapter.get_transaction_info(1).unwrap();
    assert_eq!((info.status, info.submitted_at, info.tx_hash.clone()), (TxTrackingStatus::Submitted, 100, hash));
    assert!(matches!(adapter.status_lookup(1), StatusLookup::Resolved(MessageStatus::Pending)));

    assert!(adapter.apply_progress(1, TxProgressEvent::Other));
    assert!(adapter.apply_progress(1, TxProgressEvent::InBlock(None)));
    assert!(matches!(adapter.status_lookup(1), StatusLookup::Resolved(MessageStatus::Pending)));
    assert!(adapter.apply_progress(1, TxProgressEvent::InBlock(Some(40))));
    assert!(matches!(adapter.status_lookup(1), StatusLookup::InBlock(40)));
    assert_eq!(adapter.in_block_status(40, 52), MessageStatus::Confirmed);
    assert_eq!(adapter.in_block_status(40, 51), MessageStatus::Pending);
    assert!(!adapter.apply_progress(1, TxProgressEvent::Finalized));
    assert!(matches!(adapter.status_lookup(1), StatusLookup::Resolved(MessageStatus::Confirmed)));
    assert_eq!(adapter.get_transaction_info(1).unwrap().block_number, Some(40));

    adapter.record_submission(2, vec![2; 32], 200);
    assert!(!adapter.apply_progress(2, TxProgressEvent::Error("dropped".to_string())));
    match adapter.status_lookup(2) {
        StatusLookup::Resolved(MessageStatus::Failed(m)) => assert_eq!(m, "dropped"),
        _ => panic!("expected a failure"),
    }
    adapter.update_transaction_status(3, TxTrackingStatus::Failed, None, None);
    assert!(adapter.get_transaction_info(3).is_none());
    adapter.record_submission(3, vec![3; 32], 300);
    adapter.update_transaction_status(3, TxTrackingStatus::Failed, None, None);
    match adapter.status_lookup(3) {
        StatusLookup::Resolved(MessageStatus::Failed(m)) => assert_eq!(m, "Unknown error"),
        _ => panic!("expected a failure"),
    }
    adapter.health_metrics_mut().record_failure_strict(7);
    assert_eq!(adapter.get_health_metrics().connection_status, ConnectionStatus::Degraded);
}

#[test]
fn metadata_checks() {
    let names = |v: &[&str]| v.iter().map(|s| s.to_string()).collect::<Vec<_>>();
    assert!(validate_metadata(
        "Frost",
        Some(PalletMetadata { calls: Some(names(&["submit_message"])), events: Some(names(&["MessageSent"])) })
    )
    .is_ok());
    assert_eq!(
        validate_metadata("Frost", None),
        Err(AdapterError::Configuration("Pallet Frost not found in metadata".to_string()))
    );
    assert_eq!(
        validate_metadata("Frost", Some(PalletMetadata { calls: None, events: None })),
        Err(AdapterError::Configuration("Failed to get call variants".to_string()))
    );
    assert_eq!(
        validate_metadata("Frost", Some(PalletMetadata { calls: Some(names(&["x"])), events: None })),
        Err(AdapterError::Configuration("Required call 'submit_message' not found in pallet Frost".to_string()))
    );
    assert_eq!(
        validate_metadata("Frost", Some(PalletMetadata { calls: Some(names(&["submit_message"])), events: None })),
        Err(AdapterError::Configuration("Failed to get event variants".to_string()))
    );
    assert_eq!(
        validate_metadata("Frost", Some(PalletMetadata { calls: Some(names(&["submit_message"])), events: Some(vec![]) })),
        Err(AdapterError::Configuration("Required event 'MessageSent' not found in pallet Frost".to_string()))
    );
    assert!(runtime_upgraded(None, Some((1, 1))));
    assert!(!runtime_upgraded(Some((1, 2)), Some((1, 2))));
    assert!(runtime_upgraded(Some((1, 2)), Some((1, 3))));
}

#[test]
fn connection_and_header_errors() {
    assert_eq!(
        connection_error("ws://n", Some("refused")),
        AdapterError::Network("Failed to connect to ws://n: refused".to_string())
    );
    assert_eq!(connection_error("ws://n", None), AdapterError::Network("Connection timeout to ws://n".to_string()));
    assert_eq!(latest_block_number(Some(9)), Ok(9));
    assert_eq!(latest_block_number(None), Err(AdapterError::Network("No block header found".to_string())));
}

#[test]
fn finality_steps_wait_through_failed_polls() {
    assert!(matches!(finality_step(10, 5, 0, Ok(15)), FinalityStep::Done));
    assert!(matches!(finality_step(10, 5, 0, Ok(14)), FinalityStep::Wait));
    assert!(matches!(
        finality_step(10, 5, 0, Err(AdapterError::Network("down".to_string()))),
        FinalityStep::Wait
    ));
    match finality_step(10, 5, 600_000_000_001, Ok(100)) {
        FinalityStep::TimedOut(e) => {
            assert_eq!(e, AdapterError::Timeout("Finality wait timeout for block 10 after 600s".to_string()))
        },
        _ => panic!("expected a timeout"),
    }
}
