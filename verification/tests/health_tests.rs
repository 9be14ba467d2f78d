use frostgate_icap::chain::AdapterError;
use frostgate_icap::health::{ConnectionStatus, HealthMetrics, ProbeOutcome};

#[test]
fn default_metrics() {
    let m = HealthMetrics::default();
    assert_eq!(m.total_calls, 0);
    assert_eq!(m.connection_status, ConnectionStatus::Unknown);
    assert!(m.last_updated_timestamp > 0);
    assert_eq!(ConnectionStatus::default(), ConnectionStatus::Unknown);
}

#[test]
fn success_resets_failures_and_averages() {
    let mut m = HealthMetrics::new_at(0);
    m.record_failure();
    m.record_failure();
    assert_eq!((m.consecutive_failures, m.connection_status), (2, ConnectionStatus::Degraded));
    m.record_success(100, 10);
    assert_eq!((m.consecutive_failures, m.connection_status), (0, ConnectionStatus::Healthy));
    assert_eq!(m.avg_response_time, 100);
    assert_eq!(m.last_successful_timestamp, Some(10));
    m.record_success(201, 11);
    assert_eq!(m.avg_response_time, 150);
    m.record_success(0, 12);
    assert_eq!(m.avg_response_time, 100);
    assert_eq!((m.total_calls, m.failed_calls, m.successful_calls()), (5, 2, 3));
}

#[test]
fn failures_grade_the_connection() {
    let mut m = HealthMetrics::new_at(0);
    for _ in 0..5 {
        m.record_failure();
    }
    assert_eq!(m.connection_status, ConnectionStatus::Degraded);
    m.record_failure();
    assert_eq!(m.connection_status, ConnectionStatus::Unhealthy);

    let mut s = HealthMetrics::new_at(0);
    s.record_failure_strict(1);
    s.record_failure_strict(2);
    assert_eq!(s.connection_status, ConnectionStatus::Degraded);
    s.record_failure_strict(3);
    assert_eq!((s.connection_status, s.last_updated_timestamp), (ConnectionStatus::Unhealthy, 3));
}

#[test]
fn operations_average_over_all_calls() {
    let mut m = HealthMetrics::new_at(0);
    m.record_operation(true, 4_000_000_000, 1);
    assert_eq!(m.connection_status, ConnectionStatus::Healthy);
    m.record_operation(false, 8_000_000_000, 2);
    assert_eq!(m.avg_response_time, 6_000_000_000);
    assert_eq!(m.connection_status, ConnectionStatus::Degraded);
    assert_eq!((m.failed_calls, m.consecutive_failures, m.last_successful_timestamp), (1, 1, Some(1)));
}

#[test]
fn probes() {
    let mut m = HealthMetrics::new_at(0);
    m.record_probe(ProbeOutcome::Header(12), 5);
    assert_eq!((m.connection_status, m.latest_block_seen, m.last_successful_timestamp), (ConnectionStatus::Healthy, Some(12), Some(5)));
    m.record_probe(ProbeOutcome::NoHeader, 6);
    assert_eq!(m.connection_status, ConnectionStatus::Degraded);
    m.record_probe(ProbeOutcome::TimedOut, 7);
    assert_eq!((m.connection_status, m.consecutive_failures), (ConnectionStatus::Unhealthy, 2));
    for _ in 0..3 {
        m.record_probe(ProbeOutcome::Failed, 8);
    }
    assert_eq!((m.connection_status, m.consecutive_failures), (ConnectionStatus::Degraded, 5));
    m.record_probe(ProbeOutcome::Failed, 9);
    assert_eq!((m.connection_status, m.consecutive_failures), (ConnectionStatus::Unhealthy, 6));
}

#[test]
fn verdicts() {
    let mut m = HealthMetrics::new_at(0);
    assert!(m.verdict().is_ok());
    m.connection_status = ConnectionStatus::Degraded;
    assert!(m.verdict().is_ok());
    m.connection_status = ConnectionStatus::Unhealthy;
    m.consecutive_failures = 7;
    assert_eq!(m.verdict(), Err(AdapterError::Network("Unhealthy connection - 7 consecutive failures".to_string())));
}

#[test]
fn two_operations_average_to_their_mean() {
    let mut m = HealthMetrics::new_at(0);
    m.record_operation(true, 100_000_000, 1);
    m.record_operation(true, 300_000_000, 2);
    assert_eq!((m.total_calls, m.failed_calls, m.consecutive_failures), (2, 0, 0));
    assert_eq!(m.avg_response_time, 200_000_000);
    assert_eq!(m.connection_status, ConnectionStatus::Healthy);
}
