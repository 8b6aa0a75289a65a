//! Operational counters that hold aggregates only, and the log lines that go with them.
use crate::text::{self, decimal_text, joined};
use vstd::prelude::*;

verus! {

/// Counters at one moment.
#[derive(Debug, Clone, Copy, PartialEq, Eq, Structural)]
pub struct AppMetricsSnapshot {
    pub authentication_failures: u64,
    pub command_conflicts: u64,
    pub projection_rebuilds: u64,
    pub live_subscribers: u64,
    pub database_failures: u64,
    pub compose_authorization_failures: u64,
    pub live_subscription_failures: u64,
}

/// The running counters of one process.
#[derive(Debug)]
pub struct AppMetrics {
    counters: AppMetricsSnapshot,
}

impl View for AppMetrics {
    type V = AppMetricsSnapshot;

    closed spec fn view(&self) -> AppMetricsSnapshot {
        self.counters
    }
}

/// A counter after one more event; it starts again from 0 behind its largest value.
pub open spec fn counted(count: u64) -> u64 {
    if count == u64::MAX {
        0
    } else {
        (count + 1) as u64
    }
}

fn count_up(count: u64) -> (next: u64)
    ensures
        next == counted(count),
{
    if count == u64::MAX {
        0
    } else {
        count + 1
    }
}

impl AppMetrics {
    /// Counters that have counted nothing.
    pub fn new() -> (metrics: AppMetrics)
        ensures
            metrics@ == (AppMetricsSnapshot {
                authentication_failures: 0,
                command_conflicts: 0,
                projection_rebuilds: 0,
                live_subscribers: 0,
                database_failures: 0,
                compose_authorization_failures: 0,
                live_subscription_failures: 0,
            }),
    {
        AppMetrics {
            counters: AppMetricsSnapshot {
                authentication_failures: 0,
                command_conflicts: 0,
                projection_rebuilds: 0,
                live_subscribers: 0,
                database_failures: 0,
                compose_authorization_failures: 0,
                live_subscription_failures: 0,
            },
        }
    }
}

/// Counts a failed authentication and gives its log line.
pub fn record_authentication_failure(metrics: &mut AppMetrics, reason: &'static str) -> (line: String)
    ensures
        line@ == "authentication_failed reason="@ + reason@,
        final(metrics)@ == (AppMetricsSnapshot {
            authentication_failures: counted(old(metrics)@.authentication_failures),
            ..old(metrics)@
        }),
{
    metrics.counters.authentication_failures = count_up(metrics.counters.authentication_failures);
    joined("authentication_failed reason=", reason)
}

/// Counts a command that was made against another revision and gives its log line.
pub fn record_command_conflict(metrics: &mut AppMetrics, expected: u64, actual: u64) -> (line: String)
    ensures
        line@ == "command_conflict expected_revision="@ + text::decimal(expected as nat) + " actual_revision="@ + text::decimal(actual as nat),
        final(metrics)@ == (AppMetricsSnapshot {
            command_conflicts: counted(old(metrics)@.command_conflicts),
            ..old(metrics)@
        }),
{
    metrics.counters.command_conflicts = count_up(metrics.counters.command_conflicts);
    joined("command_conflict expected_revision=", decimal_text(expected).as_str()).concat(" actual_revision=").concat(decimal_text(actual).as_str())
}

/// Counts a rebuilt projection and gives its log line.
pub fn record_projection_rebuild(metrics: &mut AppMetrics, revision: u64) -> (line: String)
    ensures
        line@ == "projection_rebuilt revision="@ + text::decimal(revision as nat),
        final(metrics)@ == (AppMetricsSnapshot {
            projection_rebuilds: counted(old(metrics)@.projection_rebuilds),
            ..old(metrics)@
        }),
{
    metrics.counters.projection_rebuilds = count_up(metrics.counters.projection_rebuilds);
    joined("projection_rebuilt revision=", decimal_text(revision).as_str())
}

/// Sets how many live subscribers there are and gives the log line.
pub fn set_live_subscribers(metrics: &mut AppMetrics, count: usize) -> (line: String)
    ensures
        line@ == "live_subscribers count="@ + text::decimal(count as nat),
        final(metrics)@ == (AppMetricsSnapshot {
            live_subscribers: count as u64,
            ..old(metrics)@
        }),
{
    metrics.counters.live_subscribers = count as u64;
    joined("live_subscribers count=", decimal_text(count as u64).as_str())
}

/// Counts a failed database operation and gives its log line.
pub fn record_database_failure(metrics: &mut AppMetrics, operation: &'static str) -> (line: String)
    ensures
        line@ == "database_operation_failed operation="@ + operation@,
        final(metrics)@ == (AppMetricsSnapshot {
            database_failures: counted(old(metrics)@.database_failures),
            ..old(metrics)@
        }),
{
    metrics.counters.database_failures = count_up(metrics.counters.database_failures);
    joined("database_operation_failed operation=", operation)
}

/// Counts a refused deployment request and gives its log line.
pub fn record_compose_authorization_failure(metrics: &mut AppMetrics, reason: &'static str, request_id: &str) -> (line: String)
    ensures
        line@ == "compose_authorization_failed reason="@ + reason@ + " request_id="@ + request_id@,
        final(metrics)@ == (AppMetricsSnapshot {
            compose_authorization_failures: counted(
                old(metrics)@.compose_authorization_failures,
            ),
            ..old(metrics)@
        }),
{
    metrics.counters.compose_authorization_failures = count_up(
        metrics.counters.compose_authorization_failures,
    );
    joined("compose_authorization_failed reason=", reason).concat(" request_id=").concat(request_id)
}

/// Counts a failed live subscription and gives its log line.
pub fn record_live_subscription_failure(metrics: &mut AppMetrics, reason: &'static str) -> (line: String)
    ensures
        line@ == "live_subscription_failed reason="@ + reason@,
        final(metrics)@ == (AppMetricsSnapshot {
            live_subscription_failures: counted(old(metrics)@.live_subscription_failures),
            ..old(metrics)@
        }),
{
    metrics.counters.live_subscription_failures = count_up(
        metrics.counters.live_subscription_failures,
    );
    joined("live_subscription_failed reason=", reason)
}

/// The counters at this moment; reading does not reset them.
pub fn app_metrics_snapshot(metrics: &AppMetrics) -> (snapshot: AppMetricsSnapshot)
    ensures
        snapshot == metrics@,
{
    metrics.counters
}

} // verus!
