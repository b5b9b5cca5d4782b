//! Decision logic of the time-sync task.
//!
//! The task runs forever next to the refresh cycle: wait for the network,
//! bind a socket, resolve the time source's name, query it, feed the result
//! into the clock, and sleep until the next round. Every outside step —
//! waiting, binding, resolving, querying — is performed by the caller; this
//! module decides, from the step's outcome alone, what to do next.

use vstd::prelude::*;

verus! {

/// Seconds between two successful time queries.
pub const SYNC_INTERVAL_SECONDS: u64 = 3600;

/// Seconds to back off after a failed name resolution.
pub const DNS_RETRY_SECONDS: u64 = 30;

/// Seconds part of a monotonic microsecond reading.
pub fn timestamp_sec(duration_micros: u64) -> (r: u64)
    ensures
        r == duration_micros / 1_000_000,
{
    duration_micros / 1_000_000
}

/// Sub-second part of a monotonic microsecond reading, in microseconds.
pub fn timestamp_subsec_micros(duration_micros: u64) -> (r: u32)
    ensures
        r == duration_micros % 1_000_000,
{
    (duration_micros % 1_000_000) as u32
}

/// Where the time-sync task stands.
#[derive(Debug, Clone, Copy, PartialEq, Eq, Structural)]
pub enum SyncState {
    /// Waiting for link and address configuration.
    AwaitingNetwork,
    /// Network is up; a socket must be bound.
    Binding,
    /// Socket bound; the time source's name must be resolved.
    Resolving,
    /// An address is known; the time source must be queried.
    Querying,
    /// The task gave up; only the supervisor can act.
    Stopped,
}

/// What the caller reports back after performing the current state's work.
#[derive(Debug, Clone, Copy, PartialEq, Eq, Structural)]
pub enum SyncEvent {
    /// Link and configuration came up.
    NetworkUp,
    /// The socket bound successfully.
    BindOk,
    /// The socket could not be bound.
    BindFailed,
    /// Name resolution finished; true when it yielded at least one address.
    DnsResolved(bool),
    /// Name resolution failed.
    DnsFailed,
    /// The time source answered with seconds since the Unix epoch.
    TimeReceived(u32),
    /// The time query failed.
    TimeFailed,
}

/// What the caller must do next.
#[derive(Debug, Clone, Copy, PartialEq, Eq, Structural)]
pub enum SyncAction {
    /// Wait until link and configuration are up.
    WaitForNetwork,
    /// Bind a fresh socket.
    Bind,
    /// Resolve the time source's name.
    ResolveName,
    /// Send a time query to the resolved address.
    QueryTime,
    /// Feed the received epoch seconds into the clock, then sleep
    /// [`SYNC_INTERVAL_SECONDS`] before starting over.
    SyncClockThenSleep(u32),
    /// Sleep [`DNS_RETRY_SECONDS`], then start over.
    SleepThenRetry,
    /// Start over at once.
    Retry,
    /// Stop: report the failure and do nothing further.
    Stop,
}

/// The transition table of the time-sync task.
pub open spec fn sync_step_spec(state: SyncState, event: SyncEvent) -> (SyncState, SyncAction) {
    match (state, event) {
        (SyncState::AwaitingNetwork, SyncEvent::NetworkUp) => (SyncState::Binding, SyncAction::Bind),
        (SyncState::Binding, SyncEvent::BindOk) => (SyncState::Resolving, SyncAction::ResolveName),
        (SyncState::Binding, SyncEvent::BindFailed) => (SyncState::Stopped, SyncAction::Stop),
        (SyncState::Resolving, SyncEvent::DnsResolved(true)) => (
            SyncState::Querying,
            SyncAction::QueryTime,
        ),
        (SyncState::Resolving, SyncEvent::DnsResolved(false)) => (
            SyncState::AwaitingNetwork,
            SyncAction::Retry,
        ),
        (SyncState::Resolving, SyncEvent::DnsFailed) => (
            SyncState::AwaitingNetwork,
            SyncAction::SleepThenRetry,
        ),
        (SyncState::Querying, SyncEvent::TimeReceived(sec)) => (
            SyncState::AwaitingNetwork,
            SyncAction::SyncClockThenSleep(sec),
        ),
        (SyncState::Querying, SyncEvent::TimeFailed) => (
            SyncState::AwaitingNetwork,
            SyncAction::Retry,
        ),
        (SyncState::Stopped, _) => (SyncState::Stopped, SyncAction::Stop),
        // An event that does not belong to the state changes nothing; the
        // state's own work is simply asked for again.
        (SyncState::AwaitingNetwork, _) => (SyncState::AwaitingNetwork, SyncAction::WaitForNetwork),
        (SyncState::Binding, _) => (SyncState::Binding, SyncAction::Bind),
        (SyncState::Resolving, _) => (SyncState::Resolving, SyncAction::ResolveName),
        (SyncState::Querying, _) => (SyncState::Querying, SyncAction::QueryTime),
    }
}

/// One decision of the time-sync task: from the current state and the
/// outcome of its outside work, the next state and the next action.
pub fn sync_step(state: SyncState, event: SyncEvent) -> (r: (SyncState, SyncAction))
    ensures
        r == sync_step_spec(state, event),
{
    match (state, event) {
        (SyncState::AwaitingNetwork, SyncEvent::NetworkUp) => (SyncState::Binding, SyncAction::Bind),
        (SyncState::Binding, SyncEvent::BindOk) => (SyncState::Resolving, SyncAction::ResolveName),
        (SyncState::Binding, SyncEvent::BindFailed) => (SyncState::Stopped, SyncAction::Stop),
        (SyncState::Resolving, SyncEvent::DnsResolved(true)) => (
            SyncState::Querying,
            SyncAction::QueryTime,
        ),
        (SyncState::Resolving, SyncEvent::DnsResolved(false)) => (
            SyncState::AwaitingNetwork,
            SyncAction::Retry,
        ),
        (SyncState::Resolving, SyncEvent::DnsFailed) => (
            SyncState::AwaitingNetwork,
            SyncAction::SleepThenRetry,
        ),
        (SyncState::Querying, SyncEvent::TimeReceived(sec)) => (
            SyncState::AwaitingNetwork,
            SyncAction::SyncClockThenSleep(sec),
        ),
        (SyncState::Querying, SyncEvent::TimeFailed) => (
            SyncState::AwaitingNetwork,
            SyncAction::Retry,
        ),
        (SyncState::Stopped, _) => (SyncState::Stopped, SyncAction::Stop),
        (SyncState::AwaitingNetwork, _) => (SyncState::AwaitingNetwork, SyncAction::WaitForNetwork),
        (SyncState::Binding, _) => (SyncState::Binding, SyncAction::Bind),
        (SyncState::Resolving, _) => (SyncState::Resolving, SyncAction::ResolveName),
        (SyncState::Querying, _) => (SyncState::Querying, SyncAction::QueryTime),
    }
}

} // verus!
