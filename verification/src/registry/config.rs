//! Configuration of the health-aware adapter registry.

use vstd::prelude::*;

verus! {

/// Nanoseconds in a second.
pub const NANOS_PER_SEC: u64 = 1_000_000_000;

/// Configuration of the health-aware adapter registry. Durations are in
/// nanoseconds; the minimum success rate is in basis points (hundredths of a
/// percent, so 9500 is 95%).
#[derive(Debug, Clone, Copy, PartialEq, Eq, Structural)]
pub struct RegistryConfig {
    /// How often health checks run.
    pub health_check_interval: u64,
    /// How long an adapter may stay unhealthy before it is disabled.
    pub max_unhealthy_duration: u64,
    /// The most adapters registered for one chain.
    pub max_adapters_per_chain: usize,
    /// Whether an adapter may be registered again while its id is registered
    /// and healthy.
    pub allow_multiple_adapters: bool,
    /// The least success rate, in basis points, of an adapter that is used.
    pub min_health_success_rate: u32,
    /// Average response time above which a degraded adapter is reported.
    pub max_response_time: u64,
    /// Whether an adapter that is healthy again is enabled again.
    pub auto_reenable: bool,
}

/// The default configuration: checks every minute, five minutes of grace,
/// three adapters per chain, 95% success, five seconds of response time,
/// automatic re-enabling.
pub open spec fn default_config() -> RegistryConfig {
    RegistryConfig {
        health_check_interval: (60 * NANOS_PER_SEC) as u64,
        max_unhealthy_duration: (300 * NANOS_PER_SEC) as u64,
        max_adapters_per_chain: 3,
        allow_multiple_adapters: true,
        min_health_success_rate: 9500,
        max_response_time: (5 * NANOS_PER_SEC) as u64,
        auto_reenable: true,
    }
}

impl Default for RegistryConfig {
    fn default() -> (c: RegistryConfig)
        ensures
            c == default_config(),
    {
        RegistryConfig {
            health_check_interval: 60 * NANOS_PER_SEC,
            max_unhealthy_duration: 300 * NANOS_PER_SEC,
            max_adapters_per_chain: 3,
            allow_multiple_adapters: true,
            min_health_success_rate: 9500,
            max_response_time: 5 * NANOS_PER_SEC,
            auto_reenable: true,
        }
    }
}

impl RegistryConfig {
    /// The default configuration.
    pub fn new() -> (c: RegistryConfig)
        ensures
            c == default_config(),
    {
        RegistryConfig::default()
    }

    /// A more permissive configuration: checks every two minutes, ten minutes
    /// of grace, ten adapters per chain, 90% success, ten seconds of response
    /// time, automatic re-enabling.
    pub fn permissive() -> (c: RegistryConfig)
        ensures
            c == (RegistryConfig {
                health_check_interval: (120 * NANOS_PER_SEC) as u64,
                max_unhealthy_duration: (600 * NANOS_PER_SEC) as u64,
                max_adapters_per_chain: 10,
                allow_multiple_adapters: true,
                min_health_success_rate: 9000,
                max_response_time: (10 * NANOS_PER_SEC) as u64,
                auto_reenable: true,
            }),
    {
        RegistryConfig {
            health_check_interval: 120 * NANOS_PER_SEC,
            max_unhealthy_duration: 600 * NANOS_PER_SEC,
            max_adapters_per_chain: 10,
            allow_multiple_adapters: true,
            min_health_success_rate: 9000,
            max_response_time: 10 * NANOS_PER_SEC,
            auto_reenable: true,
        }
    }

    /// A stricter configuration: checks every thirty seconds, two and a half
    /// minutes of grace, two adapters per chain, 99% success, two seconds of
    /// response time, manual re-enabling.
    pub fn strict() -> (c: RegistryConfig)
        ensures
            c == (RegistryConfig {
                health_check_interval: (30 * NANOS_PER_SEC) as u64,
                max_unhealthy_duration: (150 * NANOS_PER_SEC) as u64,
                max_adapters_per_chain: 2,
                allow_multiple_adapters: true,
                min_health_success_rate: 9900,
                max_response_time: (2 * NANOS_PER_SEC) as u64,
                auto_reenable: false,
            }),
    {
        RegistryConfig {
            health_check_interval: 30 * NANOS_PER_SEC,
            max_unhealthy_duration: 150 * NANOS_PER_SEC,
            max_adapters_per_chain: 2,
            allow_multiple_adapters: true,
            min_health_success_rate: 9900,
            max_response_time: 2 * NANOS_PER_SEC,
            auto_reenable: false,
        }
    }

    /// Sets how often health checks run.
    pub fn with_health_check_interval(self, interval: u64) -> (c: RegistryConfig)
        ensures
            c == (RegistryConfig { health_check_interval: interval, ..self }),
    {
        RegistryConfig { health_check_interval: interval, ..self }
    }

    /// Sets how long an adapter may stay unhealthy.
    pub fn with_max_unhealthy_duration(self, duration: u64) -> (c: RegistryConfig)
        ensures
            c == (RegistryConfig { max_unhealthy_duration: duration, ..self }),
    {
        RegistryConfig { max_unhealthy_duration: duration, ..self }
    }

    /// Sets the most adapters per chain.
    pub fn with_max_adapters(self, max: usize) -> (c: RegistryConfig)
        ensures
            c == (RegistryConfig { max_adapters_per_chain: max, ..self }),
    {
        RegistryConfig { max_adapters_per_chain: max, ..self }
    }

    /// Sets whether a registered healthy id may be registered again.
    pub fn with_multiple_adapters(self, allow: bool) -> (c: RegistryConfig)
        ensures
            c == (RegistryConfig { allow_multiple_adapters: allow, ..self }),
    {
        RegistryConfig { allow_multiple_adapters: allow, ..self }
    }

    /// Sets the least success rate, in basis points.
    pub fn with_min_success_rate(self, rate: u32) -> (c: RegistryConfig)
        ensures
            c == (RegistryConfig { min_health_success_rate: rate, ..self }),
    {
        RegistryConfig { min_health_success_rate: rate, ..self }
    }

    /// Sets the response time above which a degraded adapter is reported.
    pub fn with_max_response_time(self, time: u64) -> (c: RegistryConfig)
        ensures
            c == (RegistryConfig { max_response_time: time, ..self }),
    {
        RegistryConfig { max_response_time: time, ..self }
    }

    /// Sets whether healthy adapters are enabled again automatically.
    pub fn with_auto_reenable(self, auto: bool) -> (c: RegistryConfig)
        ensures
            c == (RegistryConfig { auto_reenable: auto, ..self }),
    {
        RegistryConfig { auto_reenable: auto, ..self }
    }
}

} // verus!
