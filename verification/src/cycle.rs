//! Decision logic of the refresh orchestrator.
//!
//! Once connectivity is up, one cycle runs a fixed sequence of steps: clear
//! the drawing surface, fetch and render the two weather forecasts, render
//! the date, fetch and render the calendar, optionally fetch and render the
//! todo list, push the frame through the display's wake/update/settle/
//! idle/sleep sequence, and sleep until shortly after the next full hour.
//! Each fetch may fail; a failure only blanks its own region and never
//! changes the route through the cycle.

use vstd::prelude::*;

verus! {

/// Seconds the display gets to assert its busy signal after an update is
/// pushed, before the orchestrator starts waiting for idle.
pub const DISPLAY_SETTLE_SECONDS: u64 = 1;

/// The steps of one refresh cycle, in the order they run.
#[derive(Debug, Clone, Copy, PartialEq, Eq, Structural)]
pub enum CycleStep {
    /// Reset the shared drawing surface.
    ClearDisplay,
    /// Fetch and decode the hourly weather forecast.
    FetchHourly,
    /// Fetch and decode the daily weather forecast.
    FetchDaily,
    /// Render the current date from the clock.
    DrawDate,
    /// Fetch the calendar stream and parse it against the current time.
    FetchCalendar,
    /// Fetch the todo list, when one is configured.
    FetchTodo,
    /// Wake the display.
    WakeDisplay,
    /// Push the frame to the display.
    UpdateFrame,
    /// Give the display [`DISPLAY_SETTLE_SECONDS`] to assert busy.
    Settle,
    /// Wait until the display reports idle.
    WaitIdle,
    /// Put the display to sleep.
    SleepDisplay,
    /// Compute the next wake time and suspend until then.
    ScheduleNext,
}

/// How a step went. Steps that cannot fail report `Success`.
#[derive(Debug, Clone, Copy, PartialEq, Eq, Structural)]
pub enum Outcome {
    Success,
    Failure,
}

/// The successor of each step: a fixed route, independent of any outcome.
/// The todo step is skipped when no todo source is configured, and
/// `ScheduleNext` wraps around into the next cycle.
pub open spec fn successor_spec(step: CycleStep, todo_configured: bool) -> CycleStep {
    match step {
        CycleStep::ClearDisplay => CycleStep::FetchHourly,
        CycleStep::FetchHourly => CycleStep::FetchDaily,
        CycleStep::FetchDaily => CycleStep::DrawDate,
        CycleStep::DrawDate => CycleStep::FetchCalendar,
        CycleStep::FetchCalendar => if todo_configured {
            CycleStep::FetchTodo
        } else {
            CycleStep::WakeDisplay
        },
        CycleStep::FetchTodo => CycleStep::WakeDisplay,
        CycleStep::WakeDisplay => CycleStep::UpdateFrame,
        CycleStep::UpdateFrame => CycleStep::Settle,
        CycleStep::Settle => CycleStep::WaitIdle,
        CycleStep::WaitIdle => CycleStep::SleepDisplay,
        CycleStep::SleepDisplay => CycleStep::ScheduleNext,
        CycleStep::ScheduleNext => CycleStep::ClearDisplay,
    }
}

/// A step whose result feeds a region of the display.
pub open spec fn is_fetch_step(step: CycleStep) -> bool {
    step == CycleStep::FetchHourly || step == CycleStep::FetchDaily || step
        == CycleStep::FetchCalendar || step == CycleStep::FetchTodo
}

/// Whether the region belonging to `step` is rendered: exactly when the
/// step is a fetch step and its fetch succeeded.
pub open spec fn renders_spec(step: CycleStep, outcome: Outcome) -> bool {
    is_fetch_step(step) && outcome == Outcome::Success
}

/// One decision of the orchestrator: the step to run next, and whether the
/// finished step's region is to be rendered. The next step never depends on
/// the outcome, so a failed fetch blanks only its own region.
pub fn next_step(step: CycleStep, outcome: Outcome, todo_configured: bool) -> (r: (
    CycleStep,
    bool,
))
    ensures
        r.0 == successor_spec(step, todo_configured),
        r.1 == renders_spec(step, outcome),
{
    let render = match step {
        CycleStep::FetchHourly | CycleStep::FetchDaily | CycleStep::FetchCalendar
            | CycleStep::FetchTodo => matches!(outcome, Outcome::Success),
        _ => false,
    };
    let next = match step {
        CycleStep::ClearDisplay => CycleStep::FetchHourly,
        CycleStep::FetchHourly => CycleStep::FetchDaily,
        CycleStep::FetchDaily => CycleStep::DrawDate,
        CycleStep::DrawDate => CycleStep::FetchCalendar,
        CycleStep::FetchCalendar => if todo_configured {
            CycleStep::FetchTodo
        } else {
            CycleStep::WakeDisplay
        },
        CycleStep::FetchTodo => CycleStep::WakeDisplay,
        CycleStep::WakeDisplay => CycleStep::UpdateFrame,
        CycleStep::UpdateFrame => CycleStep::Settle,
        CycleStep::Settle => CycleStep::WaitIdle,
        CycleStep::WaitIdle => CycleStep::SleepDisplay,
        CycleStep::SleepDisplay => CycleStep::ScheduleNext,
        CycleStep::ScheduleNext => CycleStep::ClearDisplay,
    };
    (next, render)
}

/// The steps a cycle visits from `step` when each step in turn reports the
/// outcomes in `outcomes`: the state after each decision.
pub open spec fn route(step: CycleStep, outcomes: Seq<Outcome>, todo_configured: bool) -> Seq<
    CycleStep,
>
    decreases outcomes.len(),
{
    if outcomes.len() == 0 {
        seq![]
    } else {
        let next = successor_spec(step, todo_configured);
        seq![next] + route(next, outcomes.drop_first(), todo_configured)
    }
}

/// Step isolation: two runs of the cycle from the same step visit exactly
/// the same steps, whatever the outcomes of their fallible steps — so a
/// failed calendar fetch can never keep the weather or date regions, or the
/// display sequence, from running.
pub proof fn lemma_route_fixed(
    step: CycleStep,
    outcomes1: Seq<Outcome>,
    outcomes2: Seq<Outcome>,
    todo_configured: bool,
)
    requires
        outcomes1.len() == outcomes2.len(),
    ensures
        route(step, outcomes1, todo_configured) == route(step, outcomes2, todo_configured),
    decreases outcomes1.len(),
{
    if outcomes1.len() > 0 {
        let next = successor_spec(step, todo_configured);
        lemma_route_fixed(next, outcomes1.drop_first(), outcomes2.drop_first(), todo_configured);
    }
}

/// A run visits one step per outcome.
pub proof fn lemma_route_len(step: CycleStep, outcomes: Seq<Outcome>, todo_configured: bool)
    ensures
        route(step, outcomes, todo_configured).len() == outcomes.len(),
    decreases outcomes.len(),
{
    if outcomes.len() > 0 {
        lemma_route_len(
            successor_spec(step, todo_configured),
            outcomes.drop_first(),
            todo_configured,
        );
    }
}

/// The step reached from `step` after `k` decisions.
pub open spec fn steps_after(step: CycleStep, k: nat, todo_configured: bool) -> CycleStep
    decreases k,
{
    if k == 0 {
        step
    } else {
        successor_spec(steps_after(step, (k - 1) as nat, todo_configured), todo_configured)
    }
}

/// Taking one successor first or last comes to the same.
proof fn lemma_steps_after_shift(step: CycleStep, k: nat, todo_configured: bool)
    ensures
        steps_after(step, (k + 1) as nat, todo_configured) == steps_after(
            successor_spec(step, todo_configured),
            k,
            todo_configured,
        ),
    decreases k,
{
    let next = successor_spec(step, todo_configured);
    assert(steps_after(step, (k + 1) as nat, todo_configured) == successor_spec(
        steps_after(step, k, todo_configured),
        todo_configured,
    ));
    if k == 0 {
        assert(steps_after(step, 0nat, todo_configured) == step);
        assert(steps_after(next, 0nat, todo_configured) == next);
    } else {
        lemma_steps_after_shift(step, (k - 1) as nat, todo_configured);
        assert(steps_after(next, k, todo_configured) == successor_spec(
            steps_after(next, (k - 1) as nat, todo_configured),
            todo_configured,
        ));
    }
}

/// The `i`-th step a run visits is the `i + 1`-st successor of its start,
/// whatever the outcomes were.
pub proof fn lemma_route_index(
    step: CycleStep,
    outcomes: Seq<Outcome>,
    todo_configured: bool,
    i: int,
)
    requires
        0 <= i < outcomes.len(),
    ensures
        route(step, outcomes, todo_configured)[i] == steps_after(
            step,
            (i + 1) as nat,
            todo_configured,
        ),
    decreases i,
{
    let next = successor_spec(step, todo_configured);
    let rest = route(next, outcomes.drop_first(), todo_configured);
    lemma_route_len(next, outcomes.drop_first(), todo_configured);
    assert(route(step, outcomes, todo_configured) == seq![next] + rest);
    lemma_steps_after_shift(step, i as nat, todo_configured);
    if i == 0 {
        assert((seq![next] + rest)[0] == next);
        assert(steps_after(step, 0nat, todo_configured) == step);
    } else {
        assert((seq![next] + rest)[i] == rest[i - 1]);
        lemma_route_index(next, outcomes.drop_first(), todo_configured, i - 1);
    }
}

/// Every cycle ends in scheduling: from `ClearDisplay`, the cycle reaches
/// `ScheduleNext` after its fixed number of steps, whatever the outcomes
/// were.
pub proof fn lemma_cycle_completes(outcomes: Seq<Outcome>, todo_configured: bool)
    requires
        outcomes.len() >= 11,
    ensures
        todo_configured ==> route(CycleStep::ClearDisplay, outcomes, todo_configured)[10]
            == CycleStep::ScheduleNext,
        !todo_configured ==> route(CycleStep::ClearDisplay, outcomes, todo_configured)[9]
            == CycleStep::ScheduleNext,
{
    reveal_with_fuel(steps_after, 12);
    if todo_configured {
        lemma_route_index(CycleStep::ClearDisplay, outcomes, todo_configured, 10);
    } else {
        lemma_route_index(CycleStep::ClearDisplay, outcomes, todo_configured, 9);
    }
}

/// Seconds to sleep so that the next cycle starts one minute after the next
/// full hour: sixty seconds for each minute left of the hour, plus one
/// minute of leeway.
pub fn sleep_seconds(current_minute: u8) -> (r: u64)
    requires
        current_minute <= 59,
    ensures
        r == 60 * (61 - current_minute),
        120 <= r <= 3660,
{
    60 * (61 - current_minute as u64)
}

} // verus!
