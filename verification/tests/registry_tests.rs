use std::sync::Arc;

use frostgate_icap::adapter_registry::{AdapterRegistry, AdapterRegistryError};
use frostgate_icap::chain::{AdapterError, ChainId};
use frostgate_icap::health::{ConnectionStatus, HealthMetrics};
use frostgate_icap::registry::config::RegistryConfig;
use frostgate_icap::registry::AdapterRegistry as HealthAwareRegistry;

struct MockAdapter {
    chain_id: ChainId,
}

fn healthy_metrics() -> HealthMetrics {
    let mut m = HealthMetrics::new_at(0);
    m.connection_status = ConnectionStatus::Healthy;
    m
}

#[test]
fn test_register_and_get_adapter() {
    let mut registry = AdapterRegistry::new();
    let adapter = Arc::new(MockAdapter { chain_id: ChainId::Ethereum });

    registry.register_adapter(ChainId::Ethereum, adapter.clone()).unwrap();
    let retrieved = registry.get_adapter(&ChainId::Ethereum).unwrap();
    assert!(Arc::ptr_eq(&adapter, retrieved));
    assert_eq!(retrieved.chain_id, ChainId::Ethereum);
}

#[test]
fn test_duplicate_registration_fails() {
    let mut registry = AdapterRegistry::new();
    let adapter = Arc::new(MockAdapter { chain_id: ChainId::Ethereum });

    registry.register_adapter(ChainId::Ethereum, adapter.clone()).unwrap();
    let result = registry.register_adapter(ChainId::Ethereum, adapter.clone());
    assert!(matches!(result, Err(AdapterRegistryError::AdapterAlreadyExists(_))));
}

#[test]
fn test_register_or_update() {
    let mut registry = AdapterRegistry::new();
    let adapter1 = Arc::new(MockAdapter { chain_id: ChainId::Ethereum });
    let adapter2 = Arc::new(MockAdapter { chain_id: ChainId::Ethereum });

    registry.register_or_update_adapter(ChainId::Ethereum, adapter1.clone()).unwrap();
    let retrieved = registry.get_adapter(&ChainId::Ethereum).unwrap();
    assert!(Arc::ptr_eq(&adapter1, retrieved));

    registry.register_or_update_adapter(ChainId::Ethereum, adapter2.clone()).unwrap();
    let retrieved = registry.get_adapter(&ChainId::Ethereum).unwrap();
    assert!(Arc::ptr_eq(&adapter2, retrieved));
}

#[test]
fn test_nonexistent_adapter() {
    let registry: AdapterRegistry<Arc<MockAdapter>> = AdapterRegistry::new();
    let result = registry.get_adapter(&ChainId::Ethereum);
    assert!(matches!(result, Err(AdapterRegistryError::AdapterNotFound(_))));
}

#[test]
fn test_list_chain_ids() {
    let mut registry = AdapterRegistry::new();
    let adapter1 = Arc::new(MockAdapter { chain_id: ChainId::Ethereum });
    let adapter2 = Arc::new(MockAdapter { chain_id: ChainId::Solana });

    registry.register_adapter(ChainId::Ethereum, adapter1).unwrap();
    registry.register_adapter(ChainId::Solana, adapter2).unwrap();

    let chain_ids = registry.list_chain_ids().unwrap();
    assert_eq!(chain_ids.len(), 2);
    assert!(chain_ids.contains(&ChainId::Ethereum));
    assert!(chain_ids.contains(&ChainId::Solana));
}

#[test]
fn test_bulk_register() {
    let mut registry = AdapterRegistry::new();
    let adapter1 = Arc::new(MockAdapter { chain_id: ChainId::Ethereum });
    let adapter2 = Arc::new(MockAdapter { chain_id: ChainId::Solana });

    let adapters = vec![(ChainId::Ethereum, adapter1.clone()), (ChainId::Solana, adapter2.clone())];

    registry.bulk_register(adapters).unwrap();

    assert!(registry.has_adapter(&ChainId::Ethereum).unwrap());
    assert!(registry.has_adapter(&ChainId::Solana).unwrap());
}

#[test]
fn bulk_register_conflict_changes_nothing() {
    let mut registry = AdapterRegistry::new();
    registry.register_adapter(ChainId::Solana, 1u32).unwrap();
    let result = registry.bulk_register(vec![(ChainId::Ethereum, 2u32), (ChainId::Solana, 3u32), (ChainId::Sui, 4u32)]);
    assert_eq!(result, Err(AdapterRegistryError::AdapterAlreadyExists(ChainId::Solana)));
    assert_eq!(registry.count().unwrap(), 1);
    assert!(!registry.has_adapter(&ChainId::Ethereum).unwrap());
    assert_eq!(*registry.get_adapter(&ChainId::Solana).unwrap(), 1);
}

#[test]
fn bulk_register_refuses_a_chain_named_twice() {
    let mut registry = AdapterRegistry::new();
    let r = registry.bulk_register(vec![(ChainId::Ethereum, 1u32), (ChainId::Sui, 1u32), (ChainId::Ethereum, 2u32)]);
    assert!(matches!(r, Err(AdapterRegistryError::AdapterAlreadyExists(ChainId::Ethereum))));
    assert_eq!(registry.count().unwrap(), 0);
    assert!(!registry.has_adapter(&ChainId::Sui).unwrap());
}

#[test]
fn remove_clear_and_list_order() {
    let mut registry = AdapterRegistry::new();
    registry.register_adapter(ChainId::Sui, 4u32).unwrap();
    registry.register_adapter(ChainId::Ethereum, 1u32).unwrap();
    registry.register_adapter(ChainId::Polkadot, 2u32).unwrap();
    assert_eq!(registry.list_chain_ids().unwrap(), vec![ChainId::Ethereum, ChainId::Polkadot, ChainId::Sui]);
    assert_eq!(registry.remove_adapter(&ChainId::Polkadot).unwrap(), Some(2));
    assert_eq!(registry.remove_adapter(&ChainId::Polkadot).unwrap(), None);
    assert!(!registry.has_adapter(&ChainId::Polkadot).unwrap());
    registry.register_adapter(ChainId::Polkadot, 5u32).unwrap();
    assert_eq!(registry.register_or_update_adapter(ChainId::Polkadot, 6u32).unwrap(), Some(5));
    assert_eq!(registry.count().unwrap(), 3);
    let total = registry.with_adapters(|r| r.count().unwrap()).unwrap();
    assert_eq!(total, 3);
    registry.clear().unwrap();
    assert_eq!(registry.count().unwrap(), 0);
}

#[test]
fn registry_error_texts() {
    assert_eq!(
        AdapterRegistryError::AdapterAlreadyExists(ChainId::Ethereum).to_string(),
        "Adapter for chain ID Ethereum already exists"
    );
    assert_eq!(AdapterRegistryError::AdapterNotFound(ChainId::Sui).to_string(), "No adapter found for chain ID Sui");
    assert_eq!(AdapterRegistryError::LockError("poisoned".to_string()).to_string(), "Lock error: poisoned");
}

#[test]
fn test_adapter_registration() {
    let mut registry = HealthAwareRegistry::new();
    let adapter = Arc::new(MockAdapter { chain_id: ChainId::Ethereum });

    registry
        .register_adapter(adapter.clone(), "test1".to_string(), adapter.chain_id, healthy_metrics(), 1_000)
        .unwrap();

    let retrieved = registry.get_adapter(ChainId::Ethereum).unwrap();
    assert!(Arc::ptr_eq(&adapter, retrieved));
    assert_eq!(registry.list_adapters()[0].0, "test1");

    registry.deregister_adapter("test1").unwrap();

    assert!(registry.get_adapter(ChainId::Ethereum).is_err());
}

#[test]
fn test_multiple_adapters() {
    let config = RegistryConfig::default().with_max_adapters(2).with_multiple_adapters(true);
    let mut registry = HealthAwareRegistry::with_config(config);

    let adapter1 = Arc::new(MockAdapter { chain_id: ChainId::Ethereum });
    let adapter2 = Arc::new(MockAdapter { chain_id: ChainId::Ethereum });

    registry.register_adapter(adapter1, "test1".to_string(), ChainId::Ethereum, healthy_metrics(), 1).unwrap();
    registry.register_adapter(adapter2, "test2".to_string(), ChainId::Ethereum, healthy_metrics(), 2).unwrap();

    let adapter3 = Arc::new(MockAdapter { chain_id: ChainId::Ethereum });
    assert!(registry.register_adapter(adapter3, "test3".to_string(), ChainId::Ethereum, healthy_metrics(), 3).is_err());
}

#[test]
fn capacity_error_text_and_unknown_deregistration() {
    let config = RegistryConfig::strict();
    let mut registry = HealthAwareRegistry::with_config(config);
    registry.register_adapter(1u8, "a".to_string(), ChainId::Sui, healthy_metrics(), 0).unwrap();
    registry.register_adapter(2u8, "b".to_string(), ChainId::Sui, healthy_metrics(), 0).unwrap();
    let err = registry.register_adapter(3u8, "c".to_string(), ChainId::Sui, healthy_metrics(), 0).unwrap_err();
    assert_eq!(
        err,
        AdapterError::ConfigurationError("Maximum number of adapters (2) reached for chain Sui".to_string())
    );
    assert_eq!(
        registry.deregister_adapter("zzz"),
        Err(AdapterError::ConfigurationError("Adapter zzz not found".to_string()))
    );
}

#[test]
fn healthy_id_cannot_be_registered_again_without_multiple_adapters() {
    let config = RegistryConfig::default().with_multiple_adapters(false);
    let mut registry = HealthAwareRegistry::with_config(config);
    registry.register_adapter(1u8, "a".to_string(), ChainId::Ethereum, healthy_metrics(), 0).unwrap();
    let err = registry.register_adapter(2u8, "a".to_string(), ChainId::Ethereum, healthy_metrics(), 0).unwrap_err();
    assert_eq!(
        err,
        AdapterError::ConfigurationError("Adapter a for chain Ethereum already registered and healthy".to_string())
    );
    // An unhealthy entry under the same id may be replaced.
    let mut config2 = RegistryConfig::default();
    config2.allow_multiple_adapters = false;
    let mut registry2 = HealthAwareRegistry::with_config(config2);
    registry2.register_adapter(1u8, "a".to_string(), ChainId::Ethereum, HealthMetrics::new_at(0), 0).unwrap();
    registry2.register_adapter(2u8, "a".to_string(), ChainId::Ethereum, healthy_metrics(), 0).unwrap();
    assert_eq!(registry2.list_adapters().len(), 1);
    assert_eq!(*registry2.get_adapter(ChainId::Ethereum).unwrap(), 2);
}

#[test]
fn best_adapter_prefers_rate_then_response_time() {
    let mut registry = HealthAwareRegistry::with_config(RegistryConfig::permissive());
    let mut fast = healthy_metrics();
    fast.avg_response_time = 10;
    let mut slow = healthy_metrics();
    slow.avg_response_time = 50;
    registry.register_adapter("slow", "s".to_string(), ChainId::Polkadot, slow, 0).unwrap();
    registry.register_adapter("fast", "f".to_string(), ChainId::Polkadot, fast, 0).unwrap();
    assert_eq!(*registry.get_adapter(ChainId::Polkadot).unwrap(), "fast");
    assert!(registry.get_adapter(ChainId::Solana).is_err());
    assert_eq!(
        registry.get_adapter(ChainId::Solana).unwrap_err(),
        AdapterError::ConfigurationError("No healthy adapter found for chain Solana".to_string())
    );
}

#[test]
fn health_checks_update_rates_and_reenable() {
    let mut registry = HealthAwareRegistry::new();
    registry.register_adapter(7u8, "x".to_string(), ChainId::Ethereum, healthy_metrics(), 0).unwrap();
    // First check: counts are taken over, but the rate is kept (no operations counted yet).
    let mut m = healthy_metrics();
    m.total_calls = 10;
    m.failed_calls = 5;
    registry.run_health_checks(vec![Some(m)], 100);
    assert_eq!(*registry.get_adapter(ChainId::Ethereum).unwrap(), 7);
    // Second check: the rate 5/10 is below 95% and the adapter is no longer chosen.
    registry.run_health_checks(vec![Some(m)], 200);
    assert!(registry.get_adapter(ChainId::Ethereum).is_err());
    // A failed check changes nothing.
    registry.run_health_checks(vec![None], 300);
    assert!(registry.get_adapter(ChainId::Ethereum).is_err());
    let listed = registry.list_adapters();
    assert_eq!(listed[0].2, ConnectionStatus::Healthy);
}

#[test]
fn unhealthy_adapter_is_disabled_after_the_configured_duration() {
    let mut m = HealthMetrics::new_at(0);
    m.connection_status = ConnectionStatus::Unhealthy;
    // Default: 300 s allowed, re-enabling on. Unhealthy at checks a minute
    // apart from 60 s on: still enabled at 360 s, disabled at 420 s.
    let mut registry = HealthAwareRegistry::with_config(RegistryConfig::default().with_auto_reenable(false));
    registry.register_adapter(7u8, "x".to_string(), ChainId::Ethereum, healthy_metrics(), 0).unwrap();
    for t in [60_000u64, 120_000, 180_000, 240_000, 300_000, 360_000] {
        registry.run_health_checks(vec![Some(m)], t);
    }
    // Still enabled: healthy again, it is chosen.
    let mut probe = HealthAwareRegistry::with_config(RegistryConfig::default().with_auto_reenable(false));
    probe.register_adapter(7u8, "x".to_string(), ChainId::Ethereum, healthy_metrics(), 0).unwrap();
    for t in [60_000u64, 120_000, 180_000, 240_000, 300_000, 360_000] {
        probe.run_health_checks(vec![Some(m)], t);
    }
    probe.run_health_checks(vec![Some(healthy_metrics())], 361_000);
    assert_eq!(*probe.get_adapter(ChainId::Ethereum).unwrap(), 7);
    // One more unhealthy minute: 360 s since it became unhealthy, disabled,
    // and without re-enabling it stays so when healthy again.
    registry.run_health_checks(vec![Some(m)], 420_000);
    registry.run_health_checks(vec![Some(healthy_metrics())], 421_000);
    assert!(registry.get_adapter(ChainId::Ethereum).is_err());

    // A healthy check ends the span: unhealthy again later starts anew.
    let mut fresh = HealthAwareRegistry::with_config(RegistryConfig::default().with_auto_reenable(false));
    fresh.register_adapter(7u8, "x".to_string(), ChainId::Ethereum, healthy_metrics(), 0).unwrap();
    fresh.run_health_checks(vec![Some(m)], 0);
    fresh.run_health_checks(vec![Some(healthy_metrics())], 200_000);
    fresh.run_health_checks(vec![Some(m)], 250_000);
    fresh.run_health_checks(vec![Some(m)], 500_000);
    fresh.run_health_checks(vec![Some(healthy_metrics())], 500_001);
    assert_eq!(*fresh.get_adapter(ChainId::Ethereum).unwrap(), 7);

    // With re-enabling, a healthy check brings a disabled adapter back.
    let mut back = HealthAwareRegistry::new();
    back.register_adapter(7u8, "x".to_string(), ChainId::Ethereum, healthy_metrics(), 0).unwrap();
    back.run_health_checks(vec![Some(m)], 1_000);
    back.run_health_checks(vec![Some(m)], 1_000_000);
    assert!(back.get_adapter(ChainId::Ethereum).is_err());
    back.run_health_checks(vec![Some(healthy_metrics())], 1_000_001);
    assert_eq!(*back.get_adapter(ChainId::Ethereum).unwrap(), 7);
}

#[test]
fn replacing_an_id_does_not_use_up_the_chain_limit() {
    let config = RegistryConfig::default().with_max_adapters(2).with_multiple_adapters(true);
    let mut registry = HealthAwareRegistry::with_config(config);
    registry.register_adapter(1u8, "a".to_string(), ChainId::Solana, healthy_metrics(), 0).unwrap();
    registry.register_adapter(2u8, "a".to_string(), ChainId::Solana, healthy_metrics(), 1).unwrap();
    registry.register_adapter(3u8, "b".to_string(), ChainId::Solana, healthy_metrics(), 2).unwrap();
    assert_eq!(registry.list_adapters().len(), 2);
    assert!(registry.register_adapter(4u8, "c".to_string(), ChainId::Solana, healthy_metrics(), 3).is_err());
    registry.deregister_adapter("a").unwrap();
    registry.register_adapter(4u8, "c".to_string(), ChainId::Solana, healthy_metrics(), 4).unwrap();
}

#[test]
fn registry_config_presets() {
    let d = RegistryConfig::new();
    assert_eq!(d.health_check_interval, 60_000_000_000);
    assert_eq!(d.max_unhealthy_duration, 300_000_000_000);
    assert_eq!(d.max_adapters_per_chain, 3);
    assert!(d.allow_multiple_adapters);
    assert_eq!(d.min_health_success_rate, 9500);
    assert_eq!(d.max_response_time, 5_000_000_000);
    assert!(d.auto_reenable);
    let p = RegistryConfig::permissive();
    assert_eq!((p.max_adapters_per_chain, p.min_health_success_rate), (10, 9000));
    let s = RegistryConfig::strict();
    assert_eq!((s.max_adapters_per_chain, s.min_health_success_rate, s.auto_reenable), (2, 9900, false));
    let c = RegistryConfig::default()
        .with_health_check_interval(1)
        .with_max_unhealthy_duration(2)
        .with_min_success_rate(3)
        .with_max_response_time(4)
        .with_auto_reenable(false);
    assert_eq!(
        (c.health_check_interval, c.max_unhealthy_duration, c.min_health_success_rate, c.max_response_time, c.auto_reenable),
        (1, 2, 3, 4, false)
    );
    let mut r: HealthAwareRegistry<u8> = HealthAwareRegistry::default();
    r.update_config(RegistryConfig::strict());
    assert!(r.list_adapters().is_empty());
}
