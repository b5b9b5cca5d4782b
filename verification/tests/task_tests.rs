use home_dashboard::cycle::{next_step, sleep_seconds, CycleStep, Outcome};
use home_dashboard::ntp::{sync_step, timestamp_sec, timestamp_subsec_micros, SyncAction, SyncEvent, SyncState};
use home_dashboard::wifi::{keep_connection_step, wifi_action, WifiAction, WifiEvent, WifiState};

#[test]
fn timestamp_parts_split_microseconds() {
    assert_eq!(timestamp_sec(0), 0);
    assert_eq!(timestamp_sec(999_999), 0);
    assert_eq!(timestamp_sec(1_000_000), 1);
    assert_eq!(timestamp_sec(1_234_567_890), 1234);
    assert_eq!(timestamp_subsec_micros(1_234_567_890), 567_890);
    assert_eq!(timestamp_subsec_micros(1_000_000), 0);
}

#[test]
fn time_sync_happy_path() {
    let (s, a) = sync_step(SyncState::AwaitingNetwork, SyncEvent::NetworkUp);
    assert_eq!((s, a), (SyncState::Binding, SyncAction::Bind));
    let (s, a) = sync_step(s, SyncEvent::BindOk);
    assert_eq!((s, a), (SyncState::Resolving, SyncAction::ResolveName));
    let (s, a) = sync_step(s, SyncEvent::DnsResolved(true));
    assert_eq!((s, a), (SyncState::Querying, SyncAction::QueryTime));
    let (s, a) = sync_step(s, SyncEvent::TimeReceived(1_700_000_000));
    assert_eq!(s, SyncState::AwaitingNetwork);
    assert_eq!(a, SyncAction::SyncClockThenSleep(1_700_000_000));
}

#[test]
fn time_sync_failures_back_off_or_stop() {
    let (s, a) = sync_step(SyncState::Binding, SyncEvent::BindFailed);
    assert_eq!((s, a), (SyncState::Stopped, SyncAction::Stop));
    let (s, a) = sync_step(SyncState::Resolving, SyncEvent::DnsFailed);
    assert_eq!((s, a), (SyncState::AwaitingNetwork, SyncAction::SleepThenRetry));
    let (s, a) = sync_step(SyncState::Resolving, SyncEvent::DnsResolved(false));
    assert_eq!((s, a), (SyncState::AwaitingNetwork, SyncAction::Retry));
    let (s, a) = sync_step(SyncState::Querying, SyncEvent::TimeFailed);
    assert_eq!((s, a), (SyncState::AwaitingNetwork, SyncAction::Retry));
    let (s, a) = sync_step(SyncState::Stopped, SyncEvent::NetworkUp);
    assert_eq!((s, a), (SyncState::Stopped, SyncAction::Stop));
}

#[test]
fn wifi_reconnects_after_disconnect() {
    let s = WifiState::CheckingLink;
    assert_eq!(wifi_action(s), WifiAction::QueryLink);
    let s = keep_connection_step(s, WifiEvent::LinkIs(true));
    assert_eq!(s, WifiState::AwaitingDisconnect);
    let s = keep_connection_step(s, WifiEvent::Disconnected);
    assert_eq!(s, WifiState::BackoffThenCheckStarted);
    assert_eq!(wifi_action(s), WifiAction::Backoff);
    let s = keep_connection_step(s, WifiEvent::Slept);
    assert_eq!(s, WifiState::CheckingStarted);
    let s = keep_connection_step(s, WifiEvent::StartedIs(Some(false)));
    assert_eq!(s, WifiState::Starting);
    assert_eq!(wifi_action(s), WifiAction::ConfigureAndStart);
    let s = keep_connection_step(s, WifiEvent::Started);
    assert_eq!(s, WifiState::Connecting);
    let s = keep_connection_step(s, WifiEvent::ConnectOk);
    assert_eq!(s, WifiState::CheckingLink);
}

#[test]
fn wifi_failed_attempt_backs_off_then_retries() {
    let s = keep_connection_step(WifiState::Connecting, WifiEvent::ConnectFailed);
    assert_eq!(s, WifiState::BackoffThenCheckLink);
    let s = keep_connection_step(s, WifiEvent::Slept);
    assert_eq!(s, WifiState::CheckingLink);
    let s = keep_connection_step(WifiState::CheckingStarted, WifiEvent::StartedIs(None));
    assert_eq!(s, WifiState::CheckingLink);
    let s = keep_connection_step(WifiState::CheckingStarted, WifiEvent::StartedIs(Some(true)));
    assert_eq!(s, WifiState::Connecting);
}

/// One whole cycle with the calendar fetch forced to fail: every other step
/// still runs in order, the weather and date regions still render, and only
/// the calendar region stays blank.
#[test]
fn failed_calendar_fetch_blanks_only_its_region() {
    let todo_configured = true;
    let mut step = CycleStep::ClearDisplay;
    let mut visited = Vec::new();
    let mut rendered = Vec::new();
    for _ in 0..12 {
        let outcome = if step == CycleStep::FetchCalendar {
            Outcome::Failure
        } else {
            Outcome::Success
        };
        let (next, render) = next_step(step, outcome, todo_configured);
        visited.push(next);
        rendered.push((step, render));
        step = next;
    }
    assert_eq!(
        visited,
        vec![
            CycleStep::FetchHourly,
            CycleStep::FetchDaily,
            CycleStep::DrawDate,
            CycleStep::FetchCalendar,
            CycleStep::FetchTodo,
            CycleStep::WakeDisplay,
            CycleStep::UpdateFrame,
            CycleStep::Settle,
            CycleStep::WaitIdle,
            CycleStep::SleepDisplay,
            CycleStep::ScheduleNext,
            CycleStep::ClearDisplay,
        ]
    );
    assert!(rendered.contains(&(CycleStep::FetchHourly, true)));
    assert!(rendered.contains(&(CycleStep::FetchDaily, true)));
    assert!(rendered.contains(&(CycleStep::FetchCalendar, false)));
    assert!(rendered.contains(&(CycleStep::FetchTodo, true)));
}

#[test]
fn cycle_without_todo_source_skips_the_todo_step() {
    let (next, _) = next_step(CycleStep::FetchCalendar, Outcome::Success, false);
    assert_eq!(next, CycleStep::WakeDisplay);
    let (next, _) = next_step(CycleStep::FetchCalendar, Outcome::Success, true);
    assert_eq!(next, CycleStep::FetchTodo);
}

#[test]
fn non_fetch_steps_never_render() {
    let (_, render) = next_step(CycleStep::DrawDate, Outcome::Success, true);
    assert!(!render);
    let (_, render) = next_step(CycleStep::WakeDisplay, Outcome::Failure, true);
    assert!(!render);
}

#[test]
fn sleep_lands_one_minute_past_the_hour() {
    assert_eq!(sleep_seconds(0), 3660);
    assert_eq!(sleep_seconds(59), 120);
    assert_eq!(sleep_seconds(30), 1860);
}
