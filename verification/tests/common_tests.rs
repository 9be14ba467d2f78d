use frostgate_icap::capabilities::{
    family_capabilities, new_adapter_id, supports_capability, AdapterFamily, ChainCapabilityProvider, EventFilter,
    FinalityType, FinalizedBlock, FinalizedBlockExt, ProofType,
};
use frostgate_icap::chain::{AdapterError, ChainId};
use frostgate_icap::chain_config::ChainConfig;
use frostgate_icap::errors::{EventError, FeeEstimationError, FinalityError, ProofError, SubmissionError};
use frostgate_icap::evm::{EvmConfig, EvmContracts};
use frostgate_icap::finality::{check_finality_wait, finalized_record, is_finalized, latest_finalized};
use frostgate_icap::retry::{
    backoff_delay, evm_exhausted_error, evm_step, evm_timeout_error, rate_limit_wait, substrate_exhausted_error,
    substrate_step, substrate_timeout_error, AttemptOutcome, RetryStep,
};
use frostgate_icap::scale::{read_compact_u32, read_u128, read_u64};
use frostgate_icap::solana::SolanaConfig;
use frostgate_icap::substrate::config::SubstrateConfig;
use frostgate_icap::sui::SuiConfig;
use frostgate_icap::transaction::{
    evm_receipt_details, is_final_confirmation, outcome_details, ProofData, TransactionDetails, TransactionStatus,
};
use parity_scale_codec::{Compact, Encode};

#[test]
fn chain_codes_round_trip() {
    for c in [ChainId::Ethereum, ChainId::Polkadot, ChainId::Solana, ChainId::Sui] {
        assert_eq!(ChainId::try_from_u64(c.to_u64()), Some(c));
    }
    assert_eq!(ChainId::try_from_u64(0), None);
    assert_eq!(ChainId::try_from_u64(5), None);
    assert_eq!(ChainId::Polkadot.name(), "Polkadot");
    assert_eq!(AdapterError::from("boom".to_string()), AdapterError::Other("boom".to_string()));
    assert_eq!(AdapterError::from_message("x".to_string()), AdapterError::Other("x".to_string()));
}

#[test]
fn capability_tables() {
    assert!(supports_capability(AdapterFamily::Evm, "smart_contracts"));
    assert!(!supports_capability(AdapterFamily::Evm, "parallel_execution"));
    assert!(!supports_capability(AdapterFamily::Substrate, "smart_contracts"));
    assert!(supports_capability(AdapterFamily::Substrate, "onchain_verification"));
    assert!(supports_capability(AdapterFamily::Solana, "parallel_execution"));
    assert!(supports_capability(AdapterFamily::Solana, "onchain_verification"));
    assert!(supports_capability(AdapterFamily::Sui, "onchain_verification"));
    for family in [AdapterFamily::Evm, AdapterFamily::Substrate, AdapterFamily::Solana, AdapterFamily::Sui] {
        let caps = family_capabilities(family, 7);
        assert_eq!(supports_capability(family, "smart_contracts"), caps.supports_smart_contracts);
        assert_eq!(supports_capability(family, "native_tokens"), caps.supports_native_tokens);
        assert_eq!(supports_capability(family, "onchain_verification"), caps.supports_onchain_verification);
        assert_eq!(supports_capability(family, "parallel_execution"), caps.supports_parallel_execution);
    }
    assert!(!supports_capability(AdapterFamily::Sui, "instant_finality"));
    assert!(!supports_capability(AdapterFamily::Sui, "unknown"));
    let evm = EvmConfig {
        rpc_url: "http://x".to_string(),
        chain_id: 1,
        required_confirmations: 7,
        contracts: EvmContracts { message_handler: String::new(), verifier: String::new() },
        max_gas_price: Some(1),
    };
    let c = evm.capabilities();
    assert_eq!(c.finality_type, FinalityType::Probabilistic { confirmations: 7 });
    assert_eq!((c.max_message_size, c.supports_parallel_execution), (32_768, false));
    assert_eq!(c.proof_type, ProofType::NoProof);
    assert!(evm.supports_feature("native_tokens"));
    let s = SubstrateConfig { rpc_url: String::new(), chain_id: 2, pallet_name: String::new(), max_weight: 0 };
    assert_eq!(s.capabilities().finality_type, FinalityType::Deterministic);
    assert!(!s.supports_feature("smart_contracts"));
    let sol = SolanaConfig::default();
    assert_eq!(sol.capabilities().max_message_size, 1024);
    let sui = SuiConfig { rpc_url: String::new(), chain_id: 3, package_id: [0; 32], required_confirmations: 4 };
    assert_eq!(sui.capabilities().finality_type, FinalityType::Probabilistic { confirmations: 4 });
    assert!(sui.supports_feature("parallel_execution"));
    assert_eq!(family_capabilities(AdapterFamily::Solana, 0).finality_type, FinalityType::Probabilistic { confirmations: 32 });
    let id = new_adapter_id(AdapterFamily::Evm);
    assert!(id.starts_with("evm-"));
    assert!(uuid::Uuid::parse_str(&id[4..]).is_ok());
    let f = EventFilter { from_block: Some(1), to_block: None, event_types: vec!["MessageSent".to_string()] };
    assert_eq!(f.event_types.len(), 1);
    let b = FinalizedBlock { block: 9u64, finality_proof: None, finalized_at: 0, confirmations: None };
    assert_eq!(b.into_inner(), 9);
}

#[test]
fn operation_error_texts() {
    assert_eq!(FinalityError::Timeout(30).to_string(), "Finality timeout after 30 seconds");
    assert_eq!(FinalityError::BlockNotFound("7".to_string()).to_string(), "Block not found: 7");
    assert_eq!(FinalityError::InvalidProof("p".to_string()).to_string(), "Invalid finality proof: p");
    assert_eq!(FinalityError::Other("raw".to_string()).to_string(), "raw");
    assert_eq!(ProofError::MissingVerificationKey.to_string(), "Missing verification key");
    assert_eq!(ProofError::Generation("g".to_string()).to_string(), "Failed to generate proof: g");
    assert_eq!(SubmissionError::InsufficientFunds.to_string(), "Insufficient funds");
    assert_eq!(SubmissionError::InvalidMessage("m".to_string()).to_string(), "Invalid message format: m");
    assert_eq!(FeeEstimationError::EstimationFailed("e".to_string()).to_string(), "Estimation failed: e");
    assert_eq!(EventError::SubscriptionFailed("s".to_string()).to_string(), "Failed to subscribe: s");
    assert_eq!(EventError::InvalidData("d".to_string()).to_string(), "Invalid event data: d");
}

#[test]
fn retry_steps() {
    assert_eq!(evm_step(0, AttemptOutcome::Failed), RetryStep::RetryAfter(1000));
    assert_eq!(evm_step(1, AttemptOutcome::Failed), RetryStep::RetryAfter(2000));
    assert_eq!(evm_step(2, AttemptOutcome::Failed), RetryStep::Exhausted);
    assert_eq!(evm_step(0, AttemptOutcome::TimedOut), RetryStep::TimedOut);
    assert_eq!(evm_step(1, AttemptOutcome::Succeeded), RetryStep::Done);
    assert_eq!(substrate_step(0, AttemptOutcome::TimedOut), RetryStep::RetryAfter(1000));
    assert_eq!(substrate_step(2, AttemptOutcome::TimedOut), RetryStep::TimedOut);
    assert_eq!(substrate_step(2, AttemptOutcome::Failed), RetryStep::Exhausted);
    assert_eq!(evm_exhausted_error(Some("eof")), AdapterError::Network("RPC call failed after 3 attempts: eof".to_string()));
    assert_eq!(evm_exhausted_error(None), AdapterError::Network("RPC call failed after maximum retry attempts".to_string()));
    assert_eq!(substrate_exhausted_error(None), AdapterError::Network("RPC call failed after 3 retry attempts".to_string()));
    assert_eq!(evm_timeout_error(), AdapterError::Network("Request timed out".to_string()));
    assert_eq!(substrate_timeout_error(), AdapterError::Network("Request timed out after all retry attempts".to_string()));
    assert_eq!(backoff_delay(0, 3, 1000, true), Some(1000));
    assert_eq!(backoff_delay(2, 3, 1000, true), Some(4000));
    assert_eq!(backoff_delay(2, 3, 1000, false), Some(1000));
    assert_eq!(backoff_delay(3, 3, 1000, true), None);
    assert_eq!(rate_limit_wait(None, 100), 0);
    assert_eq!(rate_limit_wait(Some(30), 100), 70);
    assert_eq!(rate_limit_wait(Some(130), 100), 0);
}

#[test]
fn chain_config_entries() {
    let c = ChainConfig::new(ChainId::Ethereum, "https://x".to_string())
        .with_contract("router", "0x1")
        .with_contract("verifier", "0x2")
        .with_contract("router", "0x3")
        .with_option("gas", "auto")
        .with_ws_url("wss://x".to_string())
        .with_auth_token("t".to_string());
    assert_eq!(
        c.contracts,
        vec![("router".to_string(), "0x3".to_string()), ("verifier".to_string(), "0x2".to_string())]
    );
    assert_eq!(c.options, vec![("gas".to_string(), "auto".to_string())]);
    assert_eq!(c.ws_url.as_deref(), Some("wss://x"));
    assert_eq!(c.auth_token.as_deref(), Some("t"));
}

#[test]
fn finality_by_confirmations() {
    assert_eq!(latest_finalized(100, 12), Some(88));
    assert!(is_finalized(100, 88, 12) && !is_finalized(100, 89, 12));
    assert_eq!(latest_finalized(5, 12), None);
    assert!(!is_finalized(5, 0, 12));
    assert!(is_finalized(112, 100, 12));
    assert!(!is_finalized(111, 100, 12));
    let r = finalized_record(3, 4, 5);
    assert_eq!((r.block, r.finalized_at, r.confirmations), (3, 5, Some(4)));
    assert!(check_finality_wait(300_000_000_000, None).is_ok());
    assert_eq!(
        check_finality_wait(300_000_000_001, None),
        Err(AdapterError::FinalityError("Timeout waiting for finality".to_string()))
    );
    assert!(check_finality_wait(10, Some(5)).is_err());
}

#[test]
fn scale_reads_match_the_codec() {
    for v in [0u32, 63, 64, 16383, 16384, 1 << 30, u32::MAX] {
        let bytes = Compact(v).encode();
        assert_eq!(read_compact_u32(&bytes, 0), Some((v, bytes.len())));
    }
    // A non-canonical compact encoding (1 in the two-byte form) is refused.
    assert_eq!(read_compact_u32(&[0b0000_0101, 0], 0), None);
    let bytes = (5u64, 6u128).encode();
    assert_eq!(read_u64(&bytes, 0), Some((5, 8)));
    assert_eq!(read_u128(&bytes, 8), Some((6, 24)));
    assert_eq!(read_u64(&bytes, 20), None);
}

#[test]
fn transaction_details() {
    match evm_receipt_details(vec![1], vec![2], None, 9, vec![3], Some(1)) {
        TransactionDetails::Parsed(p) => {
            assert_eq!(p.status, TransactionStatus::Confirmed);
            assert_eq!((p.hash, p.from, p.value), (vec![1], Some(vec![2]), 9));
        }
        _ => panic!("expected parsed details"),
    }
    match evm_receipt_details(vec![1], vec![2], None, 0, vec![], Some(0)) {
        TransactionDetails::Parsed(p) => assert_eq!(p.status, TransactionStatus::Failed("Transaction reverted".to_string())),
        _ => panic!("expected parsed details"),
    }
    match evm_receipt_details(vec![1], vec![2], None, 0, vec![], None) {
        TransactionDetails::Parsed(p) => assert_eq!(p.status, TransactionStatus::Pending),
        _ => panic!("expected parsed details"),
    }
    match outcome_details(vec![4], true) {
        TransactionDetails::Parsed(p) => assert_eq!(p.status, TransactionStatus::Failed("Transaction failed".to_string())),
        _ => panic!("expected parsed details"),
    }
    assert!(is_final_confirmation(Some("finalized")));
    assert!(is_final_confirmation(Some("confirmed")));
    assert!(!is_final_confirmation(Some("processed")));
    assert!(!is_final_confirmation(None));
    let proof = ProofData { proof_type: "groth16".to_string(), proof: vec![1], public_inputs: vec![], verification_key: None };
    assert_eq!(proof.proof_type, "groth16");
}

#[test]
fn adapter_errors_from_text() {
    assert_eq!(AdapterError::from("boom"), AdapterError::Other("boom".to_string()));
    assert_eq!(AdapterError::from("boom".to_string()), AdapterError::Other("boom".to_string()));
    let e: AdapterError = "late".into();
    assert_eq!(e, AdapterError::Other("late".to_string()));
}
