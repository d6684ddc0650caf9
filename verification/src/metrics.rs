//! Agent metrics and the manager that holds them.
use vstd::prelude::*;
use crate::config::Config;
use crate::error::Error;

verus! {

/// Metric values.
#[derive(Clone, Copy)]
pub struct Metrics {
    pub bridge_active: bool,
    pub ports_count: u32,
    pub connections_count: u32,
    pub errors_count: u64,
    pub uptime_seconds: u64,
    pub last_update: u64,
}

/// All counters zero, bridge inactive.
pub open spec fn zero_metrics(m: Metrics) -> bool {
    &&& !m.bridge_active
    &&& m.ports_count == 0
    &&& m.connections_count == 0
    &&& m.errors_count == 0
    &&& m.uptime_seconds == 0
    &&& m.last_update == 0
}

impl Default for Metrics {
    fn default() -> (r: Self)
        ensures
            zero_metrics(r),
    {
        Metrics {
            bridge_active: false,
            ports_count: 0,
            connections_count: 0,
            errors_count: 0,
            uptime_seconds: 0,
            last_update: 0,
        }
    }
}

/// Holds the configuration and the current metrics.
pub struct MetricsManager {
    pub config: Config,
    pub metrics: Metrics,
}

impl MetricsManager {
    /// A manager with all metrics at zero.
    pub fn new(config: Config) -> (r: Result<MetricsManager, Error>)
        ensures
            r matches Ok(m) && zero_metrics(m.metrics) && m.config == config,
    {
        Ok(MetricsManager { config, metrics: Metrics::default() })
    }

    /// Whether metrics collection runs at all (`metrics.enabled` in the configuration).
    pub fn collection_enabled(&self) -> (r: bool)
        ensures
            r == self.config.metrics.enabled,
    {
        self.config.metrics.enabled
    }

    /// A copy of the current metrics.
    pub fn get_metrics(&self) -> (r: Metrics)
        ensures
            r == self.metrics,
    {
        self.metrics
    }

    /// Records the bridge status; the other metrics are unchanged.
    pub fn update_bridge_status(&mut self, active: bool)
        ensures
            final(self).metrics == (Metrics { bridge_active: active, ..old(self).metrics }),
            final(self).config == old(self).config,
    {
        self.metrics.bridge_active = active;
    }

    /// Counts one more error; the other metrics are unchanged.
    pub fn increment_errors(&mut self)
        requires
            old(self).metrics.errors_count < u64::MAX,
        ensures
            final(self).metrics == (Metrics { errors_count: (old(self).metrics.errors_count + 1) as u64, ..old(self).metrics }),
            final(self).config == old(self).config,
    {
        self.metrics.errors_count = self.metrics.errors_count + 1;
    }
}

} // verus!
