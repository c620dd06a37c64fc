//! The supervisor's record of a running instance.
//!
//! Instants are milliseconds on a monotonic clock that the caller reads.
use vstd::prelude::*;

verus! {

/// Why a runtime event was emitted.
#[derive(Debug, Clone, Copy, PartialEq, Eq, Structural)]
pub enum RuntimeEventReason {
    ProcessTracked,
    ProcessRemoved,
    HealthDisconnected,
}

/// A change in the runtime state of one instance.
#[derive(Debug)]
pub struct RuntimeEvent {
    pub instance_id: String,
    pub reason: RuntimeEventReason,
}

/// What callers see of a running instance.
#[derive(Debug, Clone, Copy, PartialEq, Eq, Structural)]
pub struct InstanceRuntimeSnapshot {
    pub running: bool,
    pub port: u16,
    pub dashboard_enabled: bool,
}

/// Information about a running instance.
#[derive(Debug, Clone, Copy, PartialEq, Eq, Structural)]
pub struct InstanceProcess {
    pub pid: u32,
    pub port: u16,
    pub dashboard_enabled: bool,
    /// Whether the first child process has exited.
    pub pid_exited: bool,
    /// When health check failures started (none while healthy).
    pub health_failure_since: Option<u64>,
    /// When to perform the next health check.
    pub next_check_at: Option<u64>,
    /// Number of consecutive health check failures.
    pub failure_count: u32,
}

/// Longest wait between health checks, in seconds.
pub const MAX_BACKOFF_SECS: u64 = 30;

/// Seconds to wait after `failures` consecutive failures: doubling from one
/// second, at most thirty.
pub open spec fn backoff_secs(failures: u32) -> u64 {
    if failures == 0 {
        1
    } else if failures == 1 {
        2
    } else if failures == 2 {
        4
    } else if failures == 3 {
        8
    } else if failures == 4 {
        16
    } else {
        30
    }
}

impl InstanceProcess {
    /// A freshly started, healthy process.
    pub fn new(pid: u32, port: u16, dashboard_enabled: bool) -> (r: Self)
        ensures
            r == (InstanceProcess {
                pid,
                port,
                dashboard_enabled,
                pid_exited: false,
                health_failure_since: None,
                next_check_at: None,
                failure_count: 0,
            }),
    {
        InstanceProcess {
            pid,
            port,
            dashboard_enabled,
            pid_exited: false,
            health_failure_since: None,
            next_check_at: None,
            failure_count: 0,
        }
    }

    /// The wait before the next health check, in seconds.
    pub fn calculate_backoff(&self) -> (r: u64)
        ensures
            r == backoff_secs(self.failure_count),
    {
        let exp: u64 = if self.failure_count < 5 {
            self.failure_count as u64
        } else {
            5
        };
        let secs: u64 = 1u64 << exp;
        assert(secs == (if exp == 0 {
            1u64
        } else if exp == 1 {
            2u64
        } else if exp == 2 {
            4u64
        } else if exp == 3 {
            8u64
        } else if exp == 4 {
            16u64
        } else {
            32u64
        })) by (bit_vector)
            requires
                exp <= 5,
                secs == 1u64 << exp,
        ;
        if secs > MAX_BACKOFF_SECS {
            MAX_BACKOFF_SECS
        } else {
            secs
        }
    }

    /// Forget a health failure streak.
    pub fn clear_health_failure_state(&mut self)
        ensures
            *final(self) == (InstanceProcess {
                health_failure_since: None,
                next_check_at: None,
                failure_count: 0,
                ..*old(self)
            }),
    {
        self.health_failure_since = None;
        self.next_check_at = None;
        self.failure_count = 0;
    }

    /// What callers see of this process.
    pub fn snapshot(&self) -> (r: InstanceRuntimeSnapshot)
        ensures
            r == (InstanceRuntimeSnapshot {
                running: true,
                port: self.port,
                dashboard_enabled: self.dashboard_enabled,
            }),
    {
        InstanceRuntimeSnapshot { running: true, port: self.port, dashboard_enabled: self.dashboard_enabled }
    }
}

} // verus!
