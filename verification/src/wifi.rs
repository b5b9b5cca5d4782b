//! Decision logic of the connectivity task.
//!
//! The task keeps the wireless association alive forever: while the station
//! is connected it waits for a disconnect, otherwise it makes sure the
//! controller is configured and started and then tries to connect, backing
//! off for a few seconds after a disconnect or a failed attempt. The radio
//! work itself is the caller's; this module decides, from each outcome,
//! what to do next.

use vstd::prelude::*;

verus! {

/// Seconds to back off after a disconnect or a failed connection attempt.
pub const RECONNECT_BACKOFF_SECONDS: u64 = 5;

/// Where the connectivity task stands.
#[derive(Debug, Clone, Copy, PartialEq, Eq, Structural)]
pub enum WifiState {
    /// Find out whether the station is currently associated.
    CheckingLink,
    /// Associated: wait for a disconnect event.
    AwaitingDisconnect,
    /// Back off, then find out whether the controller is started.
    BackoffThenCheckStarted,
    /// Find out whether the controller is started.
    CheckingStarted,
    /// Configure the controller and start it.
    Starting,
    /// Try to associate.
    Connecting,
    /// Back off, then look at the link again.
    BackoffThenCheckLink,
}

/// What the caller reports back after performing the current state's work.
#[derive(Debug, Clone, Copy, PartialEq, Eq, Structural)]
pub enum WifiEvent {
    /// Whether the station is currently associated.
    LinkIs(bool),
    /// The station lost its association.
    Disconnected,
    /// The backoff sleep elapsed.
    Slept,
    /// Whether the controller reported itself started; `None` when the
    /// query itself failed.
    StartedIs(Option<bool>),
    /// Configuring and starting the controller finished.
    Started,
    /// An association attempt succeeded.
    ConnectOk,
    /// An association attempt failed.
    ConnectFailed,
}

/// What the caller must do next.
#[derive(Debug, Clone, Copy, PartialEq, Eq, Structural)]
pub enum WifiAction {
    /// Ask whether the station is associated.
    QueryLink,
    /// Wait for a disconnect event.
    WaitForDisconnect,
    /// Sleep [`RECONNECT_BACKOFF_SECONDS`].
    Backoff,
    /// Ask whether the controller is started.
    QueryStarted,
    /// Set the client configuration and start the controller.
    ConfigureAndStart,
    /// Try to associate.
    Connect,
}

/// The action each state asks of the caller.
pub open spec fn wifi_action_spec(state: WifiState) -> WifiAction {
    match state {
        WifiState::CheckingLink => WifiAction::QueryLink,
        WifiState::AwaitingDisconnect => WifiAction::WaitForDisconnect,
        WifiState::BackoffThenCheckStarted => WifiAction::Backoff,
        WifiState::CheckingStarted => WifiAction::QueryStarted,
        WifiState::Starting => WifiAction::ConfigureAndStart,
        WifiState::Connecting => WifiAction::Connect,
        WifiState::BackoffThenCheckLink => WifiAction::Backoff,
    }
}

/// The transition table of the connectivity task.
pub open spec fn wifi_step_spec(state: WifiState, event: WifiEvent) -> WifiState {
    match (state, event) {
        (WifiState::CheckingLink, WifiEvent::LinkIs(true)) => WifiState::AwaitingDisconnect,
        (WifiState::CheckingLink, WifiEvent::LinkIs(false)) => WifiState::CheckingStarted,
        (WifiState::AwaitingDisconnect, WifiEvent::Disconnected) => (
        WifiState::BackoffThenCheckStarted),
        (WifiState::BackoffThenCheckStarted, WifiEvent::Slept) => WifiState::CheckingStarted,
        (WifiState::CheckingStarted, WifiEvent::StartedIs(Option::None)) => (
        WifiState::CheckingLink),
        (WifiState::CheckingStarted, WifiEvent::StartedIs(Option::Some(true))) => (
        WifiState::Connecting),
        (WifiState::CheckingStarted, WifiEvent::StartedIs(Option::Some(false))) => (
        WifiState::Starting),
        (WifiState::Starting, WifiEvent::Started) => WifiState::Connecting,
        (WifiState::Connecting, WifiEvent::ConnectOk) => WifiState::CheckingLink,
        (WifiState::Connecting, WifiEvent::ConnectFailed) => WifiState::BackoffThenCheckLink,
        (WifiState::BackoffThenCheckLink, WifiEvent::Slept) => WifiState::CheckingLink,
        // An event that does not belong to the state changes nothing.
        (s, _) => s,
    }
}

/// The action the connectivity task asks of the caller in `state`.
pub fn wifi_action(state: WifiState) -> (r: WifiAction)
    ensures
        r == wifi_action_spec(state),
{
    match state {
        WifiState::CheckingLink => WifiAction::QueryLink,
        WifiState::AwaitingDisconnect => WifiAction::WaitForDisconnect,
        WifiState::BackoffThenCheckStarted => WifiAction::Backoff,
        WifiState::CheckingStarted => WifiAction::QueryStarted,
        WifiState::Starting => WifiAction::ConfigureAndStart,
        WifiState::Connecting => WifiAction::Connect,
        WifiState::BackoffThenCheckLink => WifiAction::Backoff,
    }
}

/// One decision of the connectivity task: the state after the reported
/// outcome.
pub fn keep_connection_step(state: WifiState, event: WifiEvent) -> (r: WifiState)
    ensures
        r == wifi_step_spec(state, event),
{
    match (state, event) {
        (WifiState::CheckingLink, WifiEvent::LinkIs(true)) => WifiState::AwaitingDisconnect,
        (WifiState::CheckingLink, WifiEvent::LinkIs(false)) => WifiState::CheckingStarted,
        (WifiState::AwaitingDisconnect, WifiEvent::Disconnected) => (
        WifiState::BackoffThenCheckStarted),
        (WifiState::BackoffThenCheckStarted, WifiEvent::Slept) => WifiState::CheckingStarted,
        (WifiState::CheckingStarted, WifiEvent::StartedIs(None)) => WifiState::CheckingLink,
        (WifiState::CheckingStarted, WifiEvent::StartedIs(Some(true))) => WifiState::Connecting,
        (WifiState::CheckingStarted, WifiEvent::StartedIs(Some(false))) => WifiState::Starting,
        (WifiState::Starting, WifiEvent::Started) => WifiState::Connecting,
        (WifiState::Connecting, WifiEvent::ConnectOk) => WifiState::CheckingLink,
        (WifiState::Connecting, WifiEvent::ConnectFailed) => WifiState::BackoffThenCheckLink,
        (WifiState::BackoffThenCheckLink, WifiEvent::Slept) => WifiState::CheckingLink,
        (s, _) => s,
    }
}

} // verus!
