//! What the operations of the service come to, from what they are called with to what they return.
use vstd::prelude::*;

use crate::config::{
    build_effective_config, build_tracker_settings, validate_dispatch_config, Environment,
    RawTracker, RawWorkflowConfig, StringOrVec,
};
use crate::error::SymphonyError;
use crate::json::{Json, JsonView};
use crate::laws::dispatch::{lemma_unfinished_blockers_hold_an_issue_back, started_on};
use crate::laws::issues::lemma_priority_of_an_issue;
use crate::laws::runs::{differ_in_runs, lemma_silent_runs_are_stopped};
use crate::laws::settings::lemma_dispatch_problem;
use crate::laws::values::holds;
use crate::laws::workers::{
    lemma_refreshed_issue_decides, lemma_turns_go_on_with_active_issues_only,
};
use crate::orchestrator::{
    listening_port, startup_cleanup_effects, Effect, EffectView, OrchestratorState,
};
use crate::queue::dispatch_order;
use crate::service::{TickEvent, TickRequest};
use crate::string_map::{entry_position, has_entry};
use crate::text::{list_items, trimmed, unicode_lowercase};
use crate::time::{chrono_millis_between, Timestamp};
use crate::tracker::normalize_issue;
use crate::types::{EffectiveConfig, Issue, TrackerSettings, WorkflowDefinition};
use crate::worker::{WorkerAction, WorkerInput, WorkerPhase, WorkerRun};
use crate::workspace::CurrentDir;

verus! {

// ---------------------------------------------------------------------------
// Dispatch
// ---------------------------------------------------------------------------

/// A state is active or terminal if and only if the configuration lists it as such, told apart without regard
/// to case and surrounding white space.
pub proof fn lemma_states(config: EffectiveConfig, state: &str, active: bool, terminal: bool)
    requires
        call_ensures(EffectiveConfig::is_active_state, (&config, state), active),
        call_ensures(EffectiveConfig::is_terminal_state, (&config, state), terminal),
    ensures
        active <==> exists|i: int|
            0 <= i < config.tracker.active_states@.len() && unicode_lowercase(
                trimmed((#[trigger] config.tracker.active_states@[i])@),
            ) == unicode_lowercase(trimmed(state@)),
        terminal <==> exists|i: int|
            0 <= i < config.tracker.terminal_states@.len() && unicode_lowercase(
                trimmed((#[trigger] config.tracker.terminal_states@[i])@),
            ) == unicode_lowercase(trimmed(state@)),
{
    let view = config@.tracker;
    if active {
        let i = choose|i: int|
            0 <= i < view.active_states.len() && unicode_lowercase(
                trimmed(#[trigger] view.active_states[i]),
            ) == unicode_lowercase(trimmed(state@));
        assert(config.tracker.active_states@[i]@ == view.active_states[i]);
    }
    if exists|i: int|
        0 <= i < config.tracker.active_states@.len() && unicode_lowercase(
            trimmed((#[trigger] config.tracker.active_states@[i])@),
        ) == unicode_lowercase(trimmed(state@)) {
        let i = choose|i: int|
            0 <= i < config.tracker.active_states@.len() && unicode_lowercase(
                trimmed((#[trigger] config.tracker.active_states@[i])@),
            ) == unicode_lowercase(trimmed(state@));
        assert(config.tracker.active_states@[i]@ == view.active_states[i]);
    }
    if terminal {
        let i = choose|i: int|
            0 <= i < view.terminal_states.len() && unicode_lowercase(
                trimmed(#[trigger] view.terminal_states[i]),
            ) == unicode_lowercase(trimmed(state@));
        assert(config.tracker.terminal_states@[i]@ == view.terminal_states[i]);
    }
    if exists|i: int|
        0 <= i < config.tracker.terminal_states@.len() && unicode_lowercase(
            trimmed((#[trigger] config.tracker.terminal_states@[i])@),
        ) == unicode_lowercase(trimmed(state@)) {
        let i = choose|i: int|
            0 <= i < config.tracker.terminal_states@.len() && unicode_lowercase(
                trimmed((#[trigger] config.tracker.terminal_states@[i])@),
            ) == unicode_lowercase(trimmed(state@));
        assert(config.tracker.terminal_states@[i]@ == view.terminal_states[i]);
    }
}

/// An issue that is to be done is not dispatched while one of its blockers is in no state that is listed
/// as terminal, or in a state that is not told. No worker is started on it, whichever issues it is offered
/// with.
pub proof fn lemma_blocked_issue_is_not_dispatched(
    state: &mut OrchestratorState,
    issue: Issue,
    allowed: Option<&str>,
    k: int,
    dispatched: bool,
    issues: Vec<Issue>,
    now: Timestamp,
    current_dir: CurrentDir,
    effects: Vec<Effect>,
)
    requires
        unicode_lowercase(trimmed(issue@.state)) == "todo"@,
        0 <= k < issue@.blocked_by.len(),
        issue@.blocked_by[k].state is None || forall|i: int|
            0 <= i < old(state)@.config.tracker.terminal_states.len() ==> unicode_lowercase(
                trimmed(#[trigger] old(state)@.config.tracker.terminal_states[i]),
            ) != unicode_lowercase(trimmed(issue@.blocked_by[k].state.unwrap())),
    ensures
        call_ensures(OrchestratorState::should_dispatch, (&*old(state), &issue, allowed), dispatched)
            ==> !dispatched,
        call_ensures(
            OrchestratorState::dispatch_candidates,
            (state, issues, now, &current_dir),
            effects,
        ) ==> forall|j: int, attempt: Option<u32>|
            0 <= j < effects@.len() ==> (#[trigger] effects@[j])@ != (#[trigger] started_on(
                issue@,
                attempt,
            )),
{
    let order = dispatch_order(issues.deep_view());
    lemma_unfinished_blockers_hold_an_issue_back(
        old(state)@,
        issue@,
        k,
        order,
        now,
        current_dir@,
    );
    if call_ensures(
        OrchestratorState::dispatch_candidates,
        (state, issues, now, &current_dir),
        effects,
    ) {
        assert forall|j: int, attempt: Option<u32>| 0 <= j < effects@.len() implies (
        #[trigger] effects@[j])@ != (#[trigger] started_on(issue@, attempt)) by {
            assert(effects.deep_view()[j] == effects@[j]@);
            assert(old(state)@.taking_up_all(order, now, current_dir@).1[j] != started_on(
                issue@,
                attempt,
            ));
        }
    }
}

// ---------------------------------------------------------------------------
// Runs
// ---------------------------------------------------------------------------

/// With a positive limit every run that has been silent for longer, since its last event or else since its
/// start, has a reason to stop and its worker is told so; no other run changes, and nothing but runs does.
/// Without one nothing changes.
pub proof fn lemma_stalled_runs_are_told_to_stop(
    state: &mut OrchestratorState,
    now: Timestamp,
    effects: Vec<Effect>,
    id: Seq<char>,
)
    requires
        call_ensures(OrchestratorState::reconcile_stalled_runs, (state, now), effects),
    ensures
        old(state)@.config.codex.stall_timeout_ms <= 0 ==> final(state)@ == old(state)@
            && effects@.len() == 0,
        old(state)@.config.codex.stall_timeout_ms > 0 ==> {
            let limit = old(state)@.config.codex.stall_timeout_ms;
            let run = old(state)@.running[id];
            let told = exists|j: int|
                0 <= j < effects@.len() && (#[trigger] effects@[j])@ == (EffectView::CancelWorker {
                    issue_id: id,
                });
            let silent = match run.entry.session.last_codex_timestamp {
                Some(at) => chrono_millis_between(at, now) > limit,
                None => chrono_millis_between(run.entry.started_at, now) > limit,
            };
            &&& differ_in_runs(old(state)@, final(state)@)
            &&& final(state)@.running.dom() == old(state)@.running.dom()
            &&& old(state)@.running.dom().contains(id) && silent
                ==> final(state)@.running[id].stop_reason is Some && told
            &&& old(state)@.running.dom().contains(id) && !silent ==> final(state)@.running[id]
                == run && !told
        },
{
    let before = old(state)@;
    let entries = old(state).running.entry_views();
    let limit = before.config.codex.stall_timeout_ms;
    if limit > 0 {
        lemma_silent_runs_are_stopped(before, entries, limit, now);
        let cancel = EffectView::CancelWorker { issue_id: id };
        if before.running.dom().contains(id) {
            if effects.deep_view().contains(cancel) {
                let j = choose|j: int|
                    0 <= j < effects.deep_view().len() && effects.deep_view()[j] == cancel;
                assert(effects@[j]@ == cancel);
            }
            if exists|j: int| 0 <= j < effects@.len() && (#[trigger] effects@[j])@ == cancel {
                let j = choose|j: int| 0 <= j < effects@.len() && (#[trigger] effects@[j])@ == cancel;
                assert(effects.deep_view()[j] == cancel);
            }
        }
    } else {
        assert(effects.deep_view().len() == 0);
    }
}

/// When a worker has asked for its issue again and the issue, as it was told of last, is in no state that
/// is listed as active, the worker stops its session and does nothing else. In one that is, it goes on
/// with another turn as long as it may have one.
pub proof fn lemma_worker_stops_on_an_inactive_issue(
    run: &mut WorkerRun,
    issues: Vec<Issue>,
    current_dir: CurrentDir,
    actions: Vec<WorkerAction>,
)
    requires
        call_ensures(
            WorkerRun::advance,
            (run, WorkerInput::IssueRefreshed(issues), &current_dir),
            actions,
        ),
        old(run).phase == WorkerPhase::RefreshingIssue,
        issues@.len() > 0,
    ensures
        ({
            let states = old(run)@.config.tracker.active_states;
            let issue = issues@[issues@.len() - 1]@;
            let active = exists|i: int|
                0 <= i < states.len() && unicode_lowercase(trimmed(#[trigger] states[i]))
                    == unicode_lowercase(trimmed(issue.state));
            &&& final(run)@.issue == issue
            &&& actions@.len() == 1
            &&& !active ==> final(run).phase == WorkerPhase::StoppingSession
                && actions@[0] is StopSession
            &&& active && old(run).turn_count >= old(run)@.config.agent.max_turns
                ==> final(run).phase == WorkerPhase::StoppingSession && actions@[0] is StopSession
            &&& active && old(run).turn_count < old(run)@.config.agent.max_turns
                ==> final(run).phase == WorkerPhase::RunningTurn && actions@[0] is RunTurn
                && final(run).turn_count == old(run).turn_count + 1
        }),
{
    let told = issues.deep_view();
    lemma_refreshed_issue_decides(old(run)@, told, current_dir@);
    assert(told[told.len() - 1] == issues@[issues@.len() - 1]@);
    assert(actions.deep_view().len() == actions@.len());
    assert(actions.deep_view()[0] == actions@[0]@);
}

/// Whatever a worker hears, it begins a turn after the first only with an issue in a state that is listed
/// as active, and only while it may have another turn.
pub proof fn lemma_worker_goes_on_with_active_issues_only(
    run: &mut WorkerRun,
    input: WorkerInput,
    current_dir: CurrentDir,
    actions: Vec<WorkerAction>,
    k: int,
)
    requires
        call_ensures(WorkerRun::advance, (run, input, &current_dir), actions),
        old(run).phase != WorkerPhase::RenderingPrompt,
        0 <= k < actions@.len(),
        actions@[k] is RunTurn,
    ensures
        exists|i: int|
            0 <= i < old(run)@.config.tracker.active_states.len() && unicode_lowercase(
                trimmed(#[trigger] old(run)@.config.tracker.active_states[i]),
            ) == unicode_lowercase(trimmed(final(run)@.issue.state)),
        old(run).turn_count < old(run)@.config.agent.max_turns,
{
    assert(actions.deep_view()[k] == actions@[k]@);
    lemma_turns_go_on_with_active_issues_only(old(run)@, input@, current_dir@, k);
}

// ---------------------------------------------------------------------------
// Issues
// ---------------------------------------------------------------------------

/// An issue has the priority that its node has: every integer that fits in 64 bits with a sign, be it zero,
/// positive or negative.
pub proof fn lemma_priority_is_kept(node: Json, issue: Issue, n: u64, m: i64)
    requires
        call_ensures(normalize_issue, (&node,), issue),
    ensures
        holds(node@, "priority"@, JsonView::PosInt(n)) && n <= i64::MAX ==> issue.priority == Some(
            n as i64,
        ),
        holds(node@, "priority"@, JsonView::NegInt(m)) ==> issue.priority == Some(m),
{
    lemma_priority_of_an_issue(node@, n, m, JsonView::Null);
}

// ---------------------------------------------------------------------------
// Settings
// ---------------------------------------------------------------------------

/// The texts are those of the list that is asked for, or the items of the text with commas; and the default
/// only where neither is asked for.
pub open spec fn are_as_asked(
    states: Seq<String>,
    asked: Option<StringOrVec>,
    default: Seq<Seq<char>>,
) -> bool {
    match asked {
        Some(StringOrVec::Many(list)) => states.len() == list@.len() && forall|i: int|
            0 <= i < list@.len() ==> (#[trigger] states[i])@ == list@[i]@,
        Some(StringOrVec::One(text)) => states.len() == list_items(text@).len() && forall|i: int|
            0 <= i < states.len() ==> (#[trigger] states[i])@ == list_items(text@)[i],
        None => states.len() == default.len() && forall|i: int|
            0 <= i < states.len() ==> (#[trigger] states[i])@ == default[i],
    }
}

proof fn lemma_as_asked(
    states: Vec<String>,
    asked: Option<StringOrVec>,
    default: Seq<Seq<char>>,
)
    requires
        match asked {
            Some(StringOrVec::Many(list)) => states.deep_view() == list.deep_view(),
            Some(StringOrVec::One(text)) => states.deep_view() == list_items(text@),
            None => states.deep_view() == default,
        },
    ensures
        are_as_asked(states@, asked, default),
{
    let views = states.deep_view();
    assert(views.len() == states@.len());
    assert forall|i: int| 0 <= i < states@.len() implies (#[trigger] states@[i])@ == views[i] by {}
    if let Some(StringOrVec::Many(list)) = asked {
        assert(list.deep_view().len() == list@.len());
        assert forall|i: int| 0 <= i < list@.len() implies (#[trigger] states@[i])@ == list@[i]@ by {
            assert(list.deep_view()[i] == list@[i]@);
        }
    }
}

/// The settings of the tracker are those that are asked for, and defaults only where nothing is.
pub proof fn lemma_tracker_is_as_asked(raw: RawTracker, env: Environment, settings: TrackerSettings)
    requires
        call_ensures(build_tracker_settings, (raw, &env), settings),
    ensures
        raw.kind is Some ==> settings.kind@ == raw.kind.unwrap()@,
        raw.kind is None ==> settings.kind@ == "linear"@,
        raw.endpoint is Some ==> settings.endpoint@ == raw.endpoint.unwrap()@,
        raw.endpoint is None ==> settings.endpoint@ == "https://api.linear.app/graphql"@,
        raw.project_slug is Some ==> settings.project_slug@ == raw.project_slug.unwrap()@,
        raw.project_slug is None ==> settings.project_slug@.len() == 0,
        are_as_asked(
            settings.active_states@,
            raw.active_states,
            seq!["Todo"@, "In Progress"@],
        ),
        are_as_asked(
            settings.terminal_states@,
            raw.terminal_states,
            seq!["Closed"@, "Cancelled"@, "Canceled"@, "Duplicate"@, "Done"@],
        ),
{
    lemma_as_asked(settings.active_states, raw.active_states, seq!["Todo"@, "In Progress"@]);
    lemma_as_asked(
        settings.terminal_states,
        raw.terminal_states,
        seq!["Closed"@, "Cancelled"@, "Canceled"@, "Duplicate"@, "Done"@],
    );
}

/// The configuration that is built has the tracker, the hooks and the command that the front matter asks
/// for, and the path and the prompt of the file.
pub proof fn lemma_configuration_is_as_asked(
    path: &str,
    definition: WorkflowDefinition,
    raw: RawWorkflowConfig,
    env: Environment,
    built: Result<EffectiveConfig, SymphonyError>,
)
    requires
        call_ensures(build_effective_config, (path, &definition, raw, &env), built),
        built is Ok,
    ensures
        ({
            let config = built->Ok_0;
            let asked = raw.tracker;
            let hooks = raw.hooks;
            &&& config.workflow_path@ == path@
            &&& config.prompt_template@ == definition.prompt_template@
            &&& are_as_asked(
                config.tracker.active_states@,
                if asked is Some {
                    asked.unwrap().active_states
                } else {
                    None
                },
                seq!["Todo"@, "In Progress"@],
            )
            &&& are_as_asked(
                config.tracker.terminal_states@,
                if asked is Some {
                    asked.unwrap().terminal_states
                } else {
                    None
                },
                seq!["Closed"@, "Cancelled"@, "Canceled"@, "Duplicate"@, "Done"@],
            )
            &&& asked is Some && asked.unwrap().kind is Some ==> config.tracker.kind@
                == asked.unwrap().kind.unwrap()@
            &&& asked is Some && asked.unwrap().endpoint is Some ==> config.tracker.endpoint@
                == asked.unwrap().endpoint.unwrap()@
            &&& asked is Some && asked.unwrap().project_slug is Some ==> config.tracker.project_slug@
                == asked.unwrap().project_slug.unwrap()@
            &&& hooks is Some ==> {
                &&& same_text(config.hooks.after_create, hooks.unwrap().after_create)
                &&& same_text(config.hooks.before_run, hooks.unwrap().before_run)
                &&& same_text(config.hooks.after_run, hooks.unwrap().after_run)
                &&& same_text(config.hooks.before_remove, hooks.unwrap().before_remove)
            }
            &&& hooks is None ==> {
                &&& config.hooks.after_create is None
                &&& config.hooks.before_run is None
                &&& config.hooks.after_run is None
                &&& config.hooks.before_remove is None
            }
            &&& raw.codex is Some && raw.codex.unwrap().command is Some ==> config.codex.command@
                == raw.codex.unwrap().command.unwrap()@
        }),
{
    let config = built->Ok_0;
    let asked = raw.tracker;
    lemma_as_asked(
        config.tracker.active_states,
        if asked is Some {
            asked.unwrap().active_states
        } else {
            None
        },
        seq!["Todo"@, "In Progress"@],
    );
    lemma_as_asked(
        config.tracker.terminal_states,
        if asked is Some {
            asked.unwrap().terminal_states
        } else {
            None
        },
        seq!["Closed"@, "Cancelled"@, "Canceled"@, "Duplicate"@, "Done"@],
    );
}

/// Both are there, with the same text, or neither is.
pub open spec fn same_text(a: Option<String>, b: Option<String>) -> bool {
    (a is Some <==> b is Some) && (a is Some ==> a.unwrap()@ == b.unwrap()@)
}

/// Work can be dispatched if and only if the tracker is Linear and its key, its project and the command
/// that starts Codex are not blank.
pub proof fn lemma_dispatch_is_allowed(config: EffectiveConfig, checked: Result<(), SymphonyError>)
    requires
        call_ensures(validate_dispatch_config, (&config,), checked),
    ensures
        checked is Ok <==> {
            &&& trimmed(config.tracker.kind@).len() > 0
            &&& config.tracker.kind@ == "linear"@
            &&& trimmed(config.tracker.api_key@).len() > 0
            &&& trimmed(config.tracker.project_slug@).len() > 0
            &&& trimmed(config.codex.command@).len() > 0
        },
{
    lemma_dispatch_problem(config@);
}

/// A workflow that is loaded again is taken over if its tracker is Linear. What is refused changes nothing,
/// and what runs goes on either way.
pub proof fn lemma_reloading(
    state: &mut OrchestratorState,
    loaded: Result<EffectiveConfig, SymphonyError>,
    r: Result<(), SymphonyError>,
)
    requires
        call_ensures(OrchestratorState::reload_workflow, (state, loaded), r),
    ensures
        r is Ok <==> loaded is Ok && loaded->Ok_0.tracker.kind@ == "linear"@,
        r is Ok ==> final(state)@.config == loaded->Ok_0@,
        r is Err ==> final(state)@.config == old(state)@.config,
        loaded is Err ==> r->Err_0@ == loaded->Err_0@,
        final(state)@.running == old(state)@.running,
        final(state)@.claimed == old(state)@.claimed,
        final(state)@.retrying == old(state)@.retrying,
        final(state)@.completed == old(state)@.completed,
        final(state)@.totals == old(state)@.totals,
        final(state)@.rate_limits == old(state)@.rate_limits,
        final(state)@.refresh_queued == old(state)@.refresh_queued,
{
}

// ---------------------------------------------------------------------------
// The service
// ---------------------------------------------------------------------------

/// A request for a refresh is joined with an earlier one that no tick has served yet; a tick serves it.
pub proof fn lemma_refreshing(state: &mut OrchestratorState, joined: bool)
    ensures
        call_ensures(OrchestratorState::request_refresh, (state,), joined) ==> {
            &&& joined == old(state)@.refresh_queued
            &&& final(state)@.refresh_queued
            &&& final(state)@.running == old(state)@.running
            &&& final(state)@.retrying == old(state)@.retrying
            &&& final(state)@.claimed == old(state)@.claimed
        },
        call_ensures(OrchestratorState::finish_tick, (state,), ()) ==> {
            &&& !final(state)@.refresh_queued
            &&& final(state)@.running == old(state)@.running
            &&& final(state)@.retrying == old(state)@.retrying
            &&& final(state)@.claimed == old(state)@.claimed
        },
{
}

/// When the service stops, the worker of each run is told to stop and each retry is taken back, and nothing
/// else is done.
pub proof fn lemma_shutdown(state: OrchestratorState, effects: Vec<Effect>, id: Seq<char>)
    requires
        call_ensures(OrchestratorState::shutdown_effects, (&state,), effects),
    ensures
        state@.running.dom().contains(id) <==> exists|j: int|
            0 <= j < effects@.len() && (#[trigger] effects@[j])@ == (EffectView::CancelWorker {
                issue_id: id,
            }),
        state@.retrying.dom().contains(id) <==> exists|j: int|
            0 <= j < effects@.len() && (#[trigger] effects@[j])@ == (EffectView::AbortRetry {
                issue_id: id,
            }),
        forall|j: int|
            0 <= j < effects@.len() ==> (#[trigger] effects@[j])@ is CancelWorker
                || effects@[j]@ is AbortRetry,
{
    let runs = state.running.entry_views();
    let retries = state.retry_attempts.entry_views();
    let all = effects.deep_view();
    let n = runs.len() as int;
    assert(all.len() == effects@.len());
    assert(all.len() == n + retries.len());
    assert forall|j: int| 0 <= j < all.len() implies (#[trigger] effects@[j])@ == all[j] && (if j < n {
        all[j] == (EffectView::CancelWorker { issue_id: runs[j].0 })
    } else {
        all[j] == (EffectView::AbortRetry { issue_id: retries[j - n].0 })
    }) by {}
    if state@.running.dom().contains(id) {
        assert(has_entry(runs, id));
        let j = entry_position(runs, id);
        assert(runs[j].0 == id);
        assert(effects@[j]@ == (EffectView::CancelWorker { issue_id: id }));
    }
    if state@.retrying.dom().contains(id) {
        assert(has_entry(retries, id));
        let j = entry_position(retries, id);
        assert(retries[j].0 == id);
        assert(effects@[n + j]@ == (EffectView::AbortRetry { issue_id: id }));
    }
    if exists|j: int|
        0 <= j < effects@.len() && (#[trigger] effects@[j])@ == (EffectView::CancelWorker {
            issue_id: id,
        }) {
        let j = choose|j: int|
            0 <= j < effects@.len() && (#[trigger] effects@[j])@ == (EffectView::CancelWorker {
                issue_id: id,
            });
        assert(runs[j].0 == id);
        assert(has_entry(runs, id));
    }
    if exists|j: int|
        0 <= j < effects@.len() && (#[trigger] effects@[j])@ == (EffectView::AbortRetry {
            issue_id: id,
        }) {
        let j = choose|j: int|
            0 <= j < effects@.len() && (#[trigger] effects@[j])@ == (EffectView::AbortRetry {
                issue_id: id,
            });
        assert(retries[j - n].0 == id);
        assert(has_entry(retries, id));
    }
}

/// When the service starts, the workspace of each issue that is finished is removed, in their order.
pub proof fn lemma_cleanup(issues: Vec<Issue>, effects: Vec<Effect>)
    requires
        call_ensures(startup_cleanup_effects, (&issues,), effects),
    ensures
        effects@.len() == issues@.len(),
        forall|i: int|
            0 <= i < issues@.len() ==> (#[trigger] effects@[i])@ == (EffectView::CleanupWorkspace {
                identifier: issues@[i].identifier@,
            }),
{
    let all = effects.deep_view();
    let views = issues.deep_view();
    assert(all.len() == effects@.len());
    assert(views.len() == issues@.len());
    assert forall|i: int| 0 <= i < issues@.len() implies (#[trigger] effects@[i])@ == (
    EffectView::CleanupWorkspace { identifier: issues@[i].identifier@ }) by {
        assert(all[i] == effects@[i]@);
        assert(views[i] == issues@[i]@);
    }
}

/// The port is the one that is asked for, and that of the configuration where none is.
pub proof fn lemma_port(asked: Option<u16>, config: EffectiveConfig, port: Option<u16>)
    requires
        call_ensures(listening_port, (asked, &config), port),
    ensures
        asked is Some ==> port == asked,
        asked is None ==> port == config.server.port,
{
}

/// A tick begins with the runs that have stalled, and asks for the issues that run. It holds them against
/// what they have become, and asks for those that may run, if work can be dispatched. It takes those up,
/// and ends. What cannot be had changes nothing.
pub proof fn lemma_tick(
    state: &mut OrchestratorState,
    now: Timestamp,
    current_dir: CurrentDir,
    running_ids: Vec<String>,
    issues: Vec<Issue>,
    error: SymphonyError,
    r: (Vec<Effect>, TickRequest),
)
    ensures
        call_ensures(OrchestratorState::advance_tick, (state, TickEvent::Began, now, &current_dir), r)
            ==> {
            &&& final(state)@.config == old(state)@.config
            &&& old(state)@.config.codex.stall_timeout_ms <= 0 ==> final(state)@ == old(state)@
                && r.0@.len() == 0
            &&& final(state)@.running.dom().len() > 0 ==> r.1 is RunningIssues
            &&& r.1 is RunningIssues ==> forall|id: Seq<char>|
                final(state)@.running.dom().contains(id) <==> exists|i: int|
                    0 <= i < r.1->running_ids@.len() && (#[trigger] r.1->running_ids@[i])@ == id
        },
        call_ensures(
            OrchestratorState::advance_tick,
            (state, TickEvent::Refreshed { running_ids, issues: Err(error) }, now, &current_dir),
            r,
        ) ==> final(state)@ == old(state)@ && r.0@.len() == 0 && !(r.1 is RunningIssues),
        call_ensures(
            OrchestratorState::advance_tick,
            (state, TickEvent::Refreshed { running_ids, issues: Ok(issues) }, now, &current_dir),
            r,
        ) ==> (final(state)@, r.0.deep_view()) == old(state)@.facing_all(
            running_ids.deep_view(),
            issues.deep_view(),
        ) && !(r.1 is RunningIssues),
        call_ensures(
            OrchestratorState::advance_tick,
            (state, TickEvent::Fetched { issues: Err(error) }, now, &current_dir),
            r,
        ) ==> final(state)@ == old(state)@ && r.0@.len() == 0 && r.1 is Nothing,
        call_ensures(
            OrchestratorState::advance_tick,
            (state, TickEvent::Fetched { issues: Ok(issues) }, now, &current_dir),
            r,
        ) ==> (final(state)@, r.0.deep_view()) == old(state)@.taking_up_all(
            dispatch_order(issues.deep_view()),
            now,
            current_dir@,
        ) && r.1 is Nothing,
{
    assert(r.0.deep_view().len() == r.0@.len());
    if call_ensures(
        OrchestratorState::advance_tick,
        (state, TickEvent::Began, now, &current_dir),
        r,
    ) {
        let before = old(state)@;
        let entries = old(state).running.entry_views();
        if before.config.codex.stall_timeout_ms > 0 {
            lemma_silent_runs_are_stopped(
                before,
                entries,
                before.config.codex.stall_timeout_ms,
                now,
            );
        }
        let left = final(state).running.entry_views();
        let ids = left.map_values(
            |entry: (Seq<char>, crate::orchestrator::RunningRuntimeView)| entry.0,
        );
        if final(state)@.running.dom().len() > 0 && left.len() == 0 {
            assert(final(state)@.running.dom() =~= Set::empty());
        }
        if r.1 is RunningIssues {
            let told = r.1->running_ids;
            assert(told.deep_view() == ids);
            assert(told.deep_view().len() == told@.len());
            assert forall|id: Seq<char>|
                final(state)@.running.dom().contains(id) <==> exists|i: int|
                    0 <= i < told@.len() && (#[trigger] told@[i])@ == id by {
                if final(state)@.running.dom().contains(id) {
                    assert(has_entry(left, id));
                    let i = entry_position(left, id);
                    assert(ids[i] == id);
                    assert(told.deep_view()[i] == told@[i]@);
                }
                if exists|i: int| 0 <= i < told@.len() && (#[trigger] told@[i])@ == id {
                    let i = choose|i: int| 0 <= i < told@.len() && (#[trigger] told@[i])@ == id;
                    assert(told.deep_view()[i] == told@[i]@);
                    assert(left[i].0 == id);
                    assert(has_entry(left, id));
                }
            }
        }
    }
}

} // verus!
