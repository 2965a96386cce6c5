//! The service loop: what follows from what has happened, and what one tick of it does next.
use vstd::prelude::*;

use crate::config::{dispatch_problem, validate_dispatch_config};
use crate::error::{ErrorView, SymphonyError};
use crate::orchestrator::{
    no_effects, stalled_ids, Effect, OrchestratorState, RunningRuntimeView, StopReason,
};
use crate::queue::dispatch_order;
use crate::string_map::{keys_differ, map_of};
use crate::time::Timestamp;
use crate::types::{EffectiveConfig, EffectiveConfigView, Issue};
use crate::workspace::CurrentDir;

verus! {

// ---------------------------------------------------------------------------
// The loop
// ---------------------------------------------------------------------------

/// What the service has just done.
#[derive(Clone, Copy, Debug, PartialEq, Eq, Structural)]
pub enum ServiceEvent {
    /// It has prepared everything.
    Started,
    /// It has told its workers to stop.
    ShutDown,
    /// A tick has ended.
    Ticked,
    /// It has heard a worker.
    HeardWorker,
    /// It has handled a retry.
    HandledRetry,
    /// It has taken a request to refresh.
    TookRefresh,
    /// It has read the changed workflow file.
    ReloadedWorkflow,
}

/// When the next tick comes.
#[derive(Clone, Copy, Debug, PartialEq, Eq, Structural)]
pub enum NextTick {
    /// When it would have come before.
    Unchanged,
    /// After so many milliseconds.
    After(u64),
    /// Never.
    Never,
}

/// What the service does next.
#[derive(Clone, Copy, Debug, PartialEq, Eq, Structural)]
pub struct ServiceStep {
    /// It publishes its state.
    pub publishes: bool,
    pub next_tick: NextTick,
}

/// What the service does next. The state is published where it may have changed but for a tick, whose
/// own changes the next event shows; a tick follows the last one after the interval, and a refresh or
/// a change of the workflow file at once.
pub open spec fn service_reaction(event: ServiceEvent, interval_ms: u64) -> ServiceStep {
    match event {
        ServiceEvent::Started => ServiceStep { publishes: true, next_tick: NextTick::After(0) },
        ServiceEvent::ShutDown => ServiceStep { publishes: true, next_tick: NextTick::Never },
        ServiceEvent::Ticked => ServiceStep {
            publishes: false,
            next_tick: NextTick::After(interval_ms),
        },
        ServiceEvent::HeardWorker => ServiceStep {
            publishes: true,
            next_tick: NextTick::Unchanged,
        },
        ServiceEvent::HandledRetry => ServiceStep {
            publishes: true,
            next_tick: NextTick::Unchanged,
        },
        ServiceEvent::TookRefresh => ServiceStep {
            publishes: false,
            next_tick: NextTick::After(0),
        },
        ServiceEvent::ReloadedWorkflow => ServiceStep {
            publishes: true,
            next_tick: NextTick::After(0),
        },
    }
}

/// What the service does next.
pub fn service_step(event: ServiceEvent, config: &EffectiveConfig) -> (r: ServiceStep)
    ensures
        r == service_reaction(event, config@.polling.interval_ms),
{
    match event {
        ServiceEvent::Started => ServiceStep { publishes: true, next_tick: NextTick::After(0) },
        ServiceEvent::ShutDown => ServiceStep { publishes: true, next_tick: NextTick::Never },
        ServiceEvent::Ticked => ServiceStep {
            publishes: false,
            next_tick: NextTick::After(config.polling.interval_ms),
        },
        ServiceEvent::HeardWorker | ServiceEvent::HandledRetry => ServiceStep {
            publishes: true,
            next_tick: NextTick::Unchanged,
        },
        ServiceEvent::TookRefresh => ServiceStep {
            publishes: false,
            next_tick: NextTick::After(0),
        },
        ServiceEvent::ReloadedWorkflow => ServiceStep {
            publishes: true,
            next_tick: NextTick::After(0),
        },
    }
}

// ---------------------------------------------------------------------------
// A tick
// ---------------------------------------------------------------------------

/// What has happened in a tick.
#[derive(Debug, PartialEq)]
pub enum TickEvent {
    /// It has begun.
    Began,
    /// The issues that are worked on were asked for.
    Refreshed { running_ids: Vec<String>, issues: Result<Vec<Issue>, SymphonyError> },
    /// The issues that may be worked on were asked for.
    Fetched { issues: Result<Vec<Issue>, SymphonyError> },
}

/// What a tick asks for next.
#[derive(Debug, PartialEq)]
pub enum TickRequest {
    /// The issues that are worked on.
    RunningIssues { running_ids: Vec<String> },
    /// The issues that may be worked on.
    Candidates,
    /// Nothing; there may be something wrong with the configuration.
    Nothing { problem: Option<SymphonyError> },
}

/// The mathematical value of a [`TickRequest`].
pub ghost enum TickRequestView {
    RunningIssues { running_ids: Seq<Seq<char>> },
    Candidates,
    Nothing { problem: Option<ErrorView> },
}

impl View for TickRequest {
    type V = TickRequestView;

    open spec fn view(&self) -> TickRequestView {
        match *self {
            TickRequest::RunningIssues { running_ids } => TickRequestView::RunningIssues {
                running_ids: running_ids.deep_view(),
            },
            TickRequest::Candidates => TickRequestView::Candidates,
            TickRequest::Nothing { problem } => TickRequestView::Nothing {
                problem: match problem {
                    Some(error) => Some(error@),
                    None => None,
                },
            },
        }
    }
}

/// What a tick asks for when it has looked after what is worked on: what may be worked on, where work
/// can be dispatched.
pub open spec fn request_behind_refresh(config: EffectiveConfigView) -> TickRequestView {
    match dispatch_problem(config) {
        Some(error) => TickRequestView::Nothing { problem: Some(error) },
        None => TickRequestView::Candidates,
    }
}

/// What a tick asks for at its beginning: the issues that are worked on, where there are any.
pub open spec fn first_request(config: EffectiveConfigView, running_ids: Seq<Seq<char>>) ->
    TickRequestView {
    if running_ids.len() == 0 {
        request_behind_refresh(config)
    } else {
        TickRequestView::RunningIssues { running_ids }
    }
}

fn ask_behind_refresh(config: &EffectiveConfig) -> (r: TickRequest)
    ensures
        r@ == request_behind_refresh(config@),
{
    match validate_dispatch_config(config) {
        Ok(()) => TickRequest::Candidates,
        Err(error) => TickRequest::Nothing { problem: Some(error) },
    }
}

impl OrchestratorState {
    /// Go on with a tick: what stalls is stopped, what is worked on is held against what it has become,
    /// and what may be worked on is taken up. What could not be had is passed over; without the issues
    /// that may be worked on the tick ends.
    pub fn advance_tick(&mut self, event: TickEvent, now: Timestamp, current_dir: &CurrentDir) -> (r: (
        Vec<Effect>,
        TickRequest,
    ))
        ensures
            match event {
                TickEvent::Began => {
                    &&& (final(self)@, r.0.deep_view()) == if old(self)@.config.codex.stall_timeout_ms
                        <= 0 {
                        (old(self)@, seq![])
                    } else {
                        old(self)@.stopping_all(
                            stalled_ids(
                                old(self).running.entry_views(),
                                old(self)@.config.codex.stall_timeout_ms,
                                now,
                            ),
                            StopReason::Stall,
                        )
                    }
                    &&& old(self)@.config.codex.stall_timeout_ms > 0 ==> keys_differ(
                        old(self).running.entry_views(),
                    ) && map_of(old(self).running.entry_views()) == old(self)@.running
                    &&& keys_differ(final(self).running.entry_views())
                    &&& map_of(final(self).running.entry_views()) == final(self)@.running
                    &&& r.1@ == first_request(
                        final(self)@.config,
                        final(self).running.entry_views().map_values(
                            |entry: (Seq<char>, RunningRuntimeView)| entry.0,
                        ),
                    )
                },
                TickEvent::Refreshed { running_ids, issues } => {
                    &&& (final(self)@, r.0.deep_view()) == match issues {
                        Ok(issues) => old(self)@.facing_all(
                            running_ids.deep_view(),
                            issues.deep_view(),
                        ),
                        Err(_) => (old(self)@, seq![]),
                    }
                    &&& r.1@ == request_behind_refresh(final(self)@.config)
                },
                TickEvent::Fetched { issues } => {
                    &&& (final(self)@, r.0.deep_view()) == match issues {
                        Ok(issues) => old(self)@.taking_up_all(
                            dispatch_order(issues.deep_view()),
                            now,
                            current_dir@,
                        ),
                        Err(_) => (old(self)@, seq![]),
                    }
                    &&& r.1@ == (TickRequestView::Nothing { problem: None })
                },
            },
    {
        match event {
            TickEvent::Began => {
                let effects = self.reconcile_stalled_runs(now);
                let running_ids = self.running_ids();
                if running_ids.len() == 0 {
                    (effects, ask_behind_refresh(&self.config))
                } else {
                    (effects, TickRequest::RunningIssues { running_ids })
                }
            },
            TickEvent::Refreshed { running_ids, issues } => {
                let effects = match issues {
                    Ok(issues) => self.reconcile_running_issues(&running_ids, &issues),
                    Err(_) => no_effects(),
                };
                (effects, ask_behind_refresh(&self.config))
            },
            TickEvent::Fetched { issues } => {
                let effects = match issues {
                    Ok(issues) => self.dispatch_candidates(issues, now, current_dir),
                    Err(_) => no_effects(),
                };
                (effects, TickRequest::Nothing { problem: None })
            },
        }
    }
}

} // verus!
