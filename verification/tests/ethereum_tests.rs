use frostgate_icap::chain::{AdapterError, MessageStatus};
use frostgate_icap::evm::{
    check_chain_id, check_finality_deadline, confirmation_status, failed_status, gas_with_margin, is_final, message_fee, read_receipt,
    safe_gas_price, validate_ethereum_config, EthereumAdapter, EthereumConfig, EthereumConfigBuilder, EvmConfig,
    EvmContracts, ReceiptVerdict, GAS_PRICE_CEILING,
};
use primitive_types::H160;
use std::time::Duration;

fn address(n: u64) -> [u8; 20] {
    H160::from_low_u64_be(n).0
}

fn nanos(d: Duration) -> u64 {
    d.as_nanos() as u64
}

fn valid_config() -> EthereumConfig {
    EthereumConfig {
        rpc_url: "https://mainnet.infura.io/v3/test".to_string(),
        chain_id: 1,
        relayer_address: address(1),
        contract_address: address(2),
        confirmations: Some(12),
        max_gas_price_gwei: Some(100),
        rpc_timeout: Some(nanos(Duration::from_secs(30))),
        enable_gas_bumping: Some(true),
    }
}

#[test]
fn test_config_validation() {
    let valid_config = valid_config();
    assert!(EthereumAdapter::validate_config(&valid_config).is_ok());
}

#[test]
fn test_config_validation_invalid_url() {
    let invalid_config = EthereumConfig {
        rpc_url: "invalid-url".to_string(),
        chain_id: 1,
        relayer_address: address(1),
        contract_address: address(2),
        confirmations: Some(12),
        max_gas_price_gwei: Some(100),
        rpc_timeout: Some(nanos(Duration::from_secs(30))),
        enable_gas_bumping: Some(true),
    };
    assert!(EthereumAdapter::validate_config(&invalid_config).is_err());
}

#[test]
fn test_config_builder() {
    let config = EthereumConfigBuilder::new("https://mainnet.infura.io/v3/test".to_string(), 1, address(1), address(2))
        .confirmations(15)
        .max_gas_price_gwei(150)
        .rpc_timeout(nanos(Duration::from_secs(45)))
        .enable_gas_bumping(false)
        .build();

    assert_eq!(config.confirmations, Some(15));
    assert_eq!(config.max_gas_price_gwei, Some(150));
    assert_eq!(config.rpc_timeout, Some(nanos(Duration::from_secs(45))));
    assert_eq!(config.enable_gas_bumping, Some(false));
}

#[test]
fn every_configuration_error() {
    let err = |c: EthereumConfig| match validate_ethereum_config(&c) {
        Err(AdapterError::Configuration(m)) => m,
        other => panic!("unexpected {:?}", other),
    };
    let mut c = valid_config();
    c.rpc_url = "ws://x".to_string();
    assert_eq!(err(c), "RPC URL must start with http:// or https://");
    let mut c = valid_config();
    c.rpc_url = "http://localhost:8545".to_string();
    assert!(validate_ethereum_config(&c).is_ok());
    let mut c = valid_config();
    c.chain_id = 0;
    assert_eq!(err(c), "Chain ID cannot be zero");
    let mut c = valid_config();
    c.relayer_address = [0; 20];
    assert_eq!(err(c), "Relayer address cannot be zero address");
    let mut c = valid_config();
    c.contract_address = [0; 20];
    assert_eq!(err(c), "Contract address cannot be zero address");
    let mut c = valid_config();
    c.max_gas_price_gwei = Some(0);
    assert_eq!(err(c), "Maximum gas price cannot be zero");
    let mut c = valid_config();
    c.max_gas_price_gwei = None;
    assert!(validate_ethereum_config(&c).is_ok());
}

#[test]
fn presets() {
    let m = EthereumConfig::mainnet("https://a".to_string(), address(1), address(2));
    assert_eq!((m.chain_id, m.confirmations, m.max_gas_price_gwei), (1, Some(12), Some(100)));
    assert_eq!(m.rpc_timeout, Some(nanos(Duration::from_secs(30))));
    let p = EthereumConfig::polygon("https://a".to_string(), address(1), address(2));
    assert_eq!((p.chain_id, p.confirmations, p.max_gas_price_gwei, p.enable_gas_bumping), (137, Some(20), Some(1000), Some(true)));
    let a = EthereumConfig::arbitrum("https://a".to_string(), address(1), address(2));
    assert_eq!((a.chain_id, a.confirmations, a.max_gas_price_gwei, a.enable_gas_bumping), (42161, Some(1), Some(10), Some(false)));
    let d = EthereumConfig::development("https://a".to_string(), address(1), address(2));
    assert_eq!((d.chain_id, d.rpc_timeout), (31337, Some(nanos(Duration::from_secs(5)))));
}

#[test]
fn gas_price_caps() {
    let gwei: u128 = 1_000_000_000;
    assert_eq!(safe_gas_price(50 * gwei, Some(100)), 50 * gwei);
    assert_eq!(safe_gas_price(150 * gwei, Some(100)), 100 * gwei);
    assert_eq!(safe_gas_price(300 * gwei, None), GAS_PRICE_CEILING);
    assert_eq!(safe_gas_price(300 * gwei, Some(1000)), 200 * gwei);
    assert_eq!(safe_gas_price(2000 * gwei, Some(1000)), 1000 * gwei);
}

#[test]
fn fees_and_margins() {
    assert_eq!(message_fee(20_000_000_000), 3_300_000_000_000_000);
    assert_eq!(message_fee(7), 1_155_000);
    assert_eq!(gas_with_margin(100_000), 120_000);
    assert_eq!(gas_with_margin(9), 10);
    let adapter = EthereumAdapter::new(valid_config(), 0).unwrap();
    assert_eq!(adapter.estimate_fee(500_000_000_000), 16_500_000_000_000_000);
}

#[test]
fn finality_and_status() {
    assert!(is_final(100, Some(12), 112));
    assert!(!is_final(100, Some(12), 111));
    assert!(is_final(100, None, 112));
    assert!(check_finality_deadline(7, 600_000_000_000).is_ok());
    assert_eq!(
        check_finality_deadline(7, 600_000_000_001),
        Err(AdapterError::Timeout("Finality wait timeout for block 7".to_string()))
    );
    assert!(matches!(read_receipt(None), ReceiptVerdict::Pending));
    assert!(matches!(read_receipt(Some((Some(1), Some(5)))), ReceiptVerdict::MinedIn(5)));
    assert!(matches!(read_receipt(Some((Some(1), None))), ReceiptVerdict::Pending));
    assert!(matches!(read_receipt(Some((Some(0), Some(5)))), ReceiptVerdict::Failed));
    assert!(matches!(read_receipt(Some((None, Some(5)))), ReceiptVerdict::Failed));
    assert_eq!(confirmation_status(100, 112, None), MessageStatus::Confirmed);
    assert_eq!(confirmation_status(100, 111, None), MessageStatus::Pending);
    assert_eq!(confirmation_status(100, 90, Some(0)), MessageStatus::Confirmed);
    assert_eq!(failed_status(), MessageStatus::Failed("reason".to_string()));
}

#[test]
fn submission_tracking_and_cleanup() {
    let mut adapter = EthereumAdapter::new(valid_config(), 0).unwrap();
    let h1 = adapter.submit_message(1, 1_000);
    assert_eq!(h1.len(), 32);
    assert_eq!(adapter.pending_transaction_count(), 1);
    assert_eq!(adapter.transaction_for(1), Some(h1.clone()));
    let h2 = adapter.submit_message(2, 200_000);
    assert_eq!(adapter.pending_transaction_count(), 2);
    // Resubmitting message 1 links it to the new transaction.
    let h3 = adapter.submit_message(1, 250_000);
    assert_eq!(adapter.transaction_for(1), Some(h3.clone()));
    assert_eq!(adapter.pending_transaction_count(), 3);
    // At 301_001 ms the first transaction is stale: it and the link of message 1 go.
    adapter.cleanup_stale_transactions(301_001);
    assert_eq!(adapter.pending_transaction_count(), 2);
    assert_eq!(adapter.transaction_for(1), None);
    assert_eq!(adapter.transaction_for(2), Some(h2));
    assert!(adapter.transaction_for(3).is_none());
}

#[test]
fn invalid_configuration_refused_by_new() {
    let mut c = valid_config();
    c.chain_id = 0;
    assert_eq!(
        EthereumAdapter::new(c, 0).err(),
        Some(AdapterError::Configuration("Chain ID cannot be zero".to_string()))
    );
}

#[test]
fn health_metrics_of_new_adapter() {
    let mut adapter = EthereumAdapter::new(valid_config(), 42).unwrap();
    let m = adapter.get_health_metrics();
    assert_eq!(m.last_updated_timestamp, 42);
    assert_eq!(m.total_calls, 0);
    adapter.health_metrics_mut().record_failure();
    assert_eq!(adapter.get_health_metrics().failed_calls, 1);
}

#[test]
fn evm_config_holds_contracts() {
    let c = EvmConfig {
        rpc_url: "http://x".to_string(),
        chain_id: 5,
        required_confirmations: 3,
        contracts: EvmContracts { message_handler: "0xaa".to_string(), verifier: "0xbb".to_string() },
        max_gas_price: None,
    };
    assert_eq!(c.contracts.verifier, "0xbb");
}

#[test]
fn chain_id_check() {
    assert!(check_chain_id(1, 1).is_ok());
    assert_eq!(
        check_chain_id(1, 5),
        Err(AdapterError::Configuration("Chain ID mismatch: expected 1, got 5".to_string()))
    );
}
