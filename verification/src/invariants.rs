//! What the scheduler promises of every state and every change.
use vstd::arithmetic::power2::{lemma_pow2_strictly_increases, pow2};
use vstd::prelude::*;

use crate::error::ErrorView;
use crate::orchestrator::{
    first_with_id, idle, last_with_id, latest_events, next_attempt, retry_delay, told_run,
    told_tokens, totals_fit, with_tokens, EffectView, OrchestratorView, RunningRuntimeView,
    StopReason, FOLLOW_UP_MS, RECENT_EVENT_LIMIT, RETRY_BASE_MS,
};
use crate::protocol::SessionUpdateView;
use crate::queue::dispatch_order;
use crate::time::Timestamp;
use crate::types::{
    normalized_state, CodexTotals, EffectiveConfigView, IssueView, LiveSessionView, RecentEventView,
    TokenUsage,
};
use crate::worker::{WorkerExit, WorkerOutcomeView};
use crate::workspace::CurrentDirView;

verus! {

// ---------------------------------------------------------------------------
// Soundness
// ---------------------------------------------------------------------------

/// What holds of every state: exactly the issues that run or wait for a retry are claimed, none does
/// both, what is kept under an id is about the issue with that id, and no run keeps more events than
/// it may.
pub open spec fn is_sound(state: OrchestratorView) -> bool {
    &&& state.running.dom().finite()
    &&& state.claimed == state.running.dom().union(state.retrying.dom())
    &&& state.running.dom().disjoint(state.retrying.dom())
    &&& forall|id: Seq<char>|
        state.running.contains_key(id) ==> is_own_run(id, #[trigger] state.running[id])
    &&& forall|id: Seq<char>|
        state.retrying.contains_key(id) ==> (#[trigger] state.retrying[id]).issue_id == id
}

/// The run is about the issue with this id, and keeps no more events than it may.
pub open spec fn is_own_run(id: Seq<char>, run: RunningRuntimeView) -> bool {
    &&& run.entry.issue_id == id
    &&& run.entry.issue.id == id
    &&& run.entry.recent_events.len() <= RECENT_EVENT_LIMIT
}

/// A change of the state.
pub ghost enum Transition {
    /// The tracker offers issues.
    Dispatch { candidates: Seq<IssueView>, now: Timestamp, current_dir: CurrentDirView },
    /// The tracker tells how running issues stand.
    Refresh { ids: Seq<Seq<char>>, refreshed: Seq<IssueView> },
    /// Runs have been silent for too long.
    Stall { ids: Seq<Seq<char>> },
    /// A session tells its news.
    Update { update: SessionUpdateView },
    /// A run has ended.
    Finish { outcome: WorkerOutcomeView, now: Timestamp },
    /// A retry is due.
    Retry {
        id: Seq<char>,
        fetched: Result<Seq<IssueView>, ErrorView>,
        now: Timestamp,
        current_dir: CurrentDirView,
    },
    /// The configuration has changed.
    Reload { config: EffectiveConfigView },
    /// A refresh is asked for.
    RequestRefresh,
    /// A refresh has been made.
    FinishTick,
}

/// The state after a change.
pub open spec fn after(state: OrchestratorView, transition: Transition) -> OrchestratorView {
    match transition {
        Transition::Dispatch { candidates, now, current_dir } => state.taking_up_all(
            dispatch_order(candidates),
            now,
            current_dir,
        ).0,
        Transition::Refresh { ids, refreshed } => state.facing_all(ids, refreshed).0,
        Transition::Stall { ids } => state.stopping_all(ids, StopReason::Stall).0,
        Transition::Update { update } => state.hearing(update),
        Transition::Finish { outcome, now } => state.ending(outcome, now).0,
        Transition::Retry { id, fetched, now, current_dir } => state.retrying_now(
            id,
            fetched,
            now,
            current_dir,
        ).0,
        Transition::Reload { config } => OrchestratorView { config, ..state },
        Transition::RequestRefresh => OrchestratorView { refresh_queued: true, ..state },
        Transition::FinishTick => OrchestratorView { refresh_queued: false, ..state },
    }
}

proof fn lemma_taking_up(
    state: OrchestratorView,
    issue: IssueView,
    attempt: Option<u32>,
    now: Timestamp,
    current_dir: CurrentDirView,
)
    requires
        state.running.dom().finite(),
        state.running.dom().disjoint(state.retrying.dom()),
        forall|id: Seq<char>|
            state.running.contains_key(id) ==> is_own_run(id, #[trigger] state.running[id]),
        forall|id: Seq<char>|
            state.retrying.contains_key(id) ==> (#[trigger] state.retrying[id]).issue_id == id,
        state.claimed.insert(issue.id) == state.running.dom().union(state.retrying.dom()).insert(
            issue.id,
        ),
    ensures
        is_sound(state.taking_up(issue, attempt, now, current_dir).0),
{
    let next = state.taking_up(issue, attempt, now, current_dir).0;
    assert(next.running.dom() =~= state.running.dom().insert(issue.id));
    assert(next.claimed =~= next.running.dom().union(next.retrying.dom()));
    assert forall|id: Seq<char>| next.running.contains_key(id) implies is_own_run(
        id,
        #[trigger] next.running[id],
    ) by {
        if id != issue.id {
            assert(next.running[id] == state.running[id]);
        }
    }
    assert forall|id: Seq<char>| next.retrying.contains_key(id) implies (
    #[trigger] next.retrying[id]).issue_id == id by {
        assert(next.retrying[id] == state.retrying[id]);
    }
}

proof fn lemma_taking_up_all(
    state: OrchestratorView,
    issues: Seq<IssueView>,
    now: Timestamp,
    current_dir: CurrentDirView,
)
    requires
        is_sound(state),
    ensures
        is_sound(state.taking_up_all(issues, now, current_dir).0),
    decreases issues.len(),
{
    if issues.len() > 0 && state.free_slots() > 0 {
        if state.may_take_up(issues[0], None) {
            lemma_taking_up(state, issues[0], None, now, current_dir);
            lemma_taking_up_all(
                state.taking_up(issues[0], None, now, current_dir).0,
                issues.drop_first(),
                now,
                current_dir,
            );
        } else {
            lemma_taking_up_all(state, issues.drop_first(), now, current_dir);
        }
    }
}

proof fn lemma_replaced_run(state: OrchestratorView, id: Seq<char>, run: RunningRuntimeView)
    requires
        is_sound(state),
        state.running.contains_key(id),
        is_own_run(id, run),
    ensures
        is_sound(OrchestratorView { running: state.running.insert(id, run), ..state }),
        state.running.insert(id, run).dom() == state.running.dom(),
{
    let next = OrchestratorView { running: state.running.insert(id, run), ..state };
    assert(next.running.dom() =~= state.running.dom());
    assert forall|other: Seq<char>| next.running.contains_key(other) implies is_own_run(
        other,
        #[trigger] next.running[other],
    ) by {
        if other != id {
            assert(next.running[other] == state.running[other]);
        }
    }
}

proof fn lemma_stopping(state: OrchestratorView, id: Seq<char>, reason: StopReason)
    requires
        is_sound(state),
    ensures
        is_sound(state.stopping(id, reason).0),
        state.stopping(id, reason).0.running.dom() == state.running.dom(),
{
    if state.running.contains_key(id) {
        assert(is_own_run(id, state.running[id]));
        lemma_replaced_run(state, id, state.stopping(id, reason).0.running[id]);
    }
}

proof fn lemma_stopping_all(state: OrchestratorView, ids: Seq<Seq<char>>, reason: StopReason)
    requires
        is_sound(state),
    ensures
        is_sound(state.stopping_all(ids, reason).0),
        state.stopping_all(ids, reason).0.running.dom() == state.running.dom(),
        state.stopping_all(ids, reason).0.config == state.config,
    decreases ids.len(),
{
    if ids.len() > 0 {
        lemma_stopping_all(state, ids.drop_last(), reason);
        lemma_stopping(state.stopping_all(ids.drop_last(), reason).0, ids.last(), reason);
    }
}

proof fn lemma_last_with_id(issues: Seq<IssueView>, id: Seq<char>)
    ensures
        last_with_id(issues, id) matches Some(issue) ==> issue.id == id,
    decreases issues.len(),
{
    if issues.len() > 0 && issues.last().id != id {
        lemma_last_with_id(issues.drop_last(), id);
    }
}

proof fn lemma_first_with_id(issues: Seq<IssueView>, id: Seq<char>)
    ensures
        first_with_id(issues, id) matches Some(issue) ==> issue.id == id,
    decreases issues.len(),
{
    if issues.len() > 0 && issues[0].id != id {
        lemma_first_with_id(issues.drop_first(), id);
    }
}

proof fn lemma_facing_all(state: OrchestratorView, ids: Seq<Seq<char>>, refreshed: Seq<IssueView>)
    requires
        is_sound(state),
    ensures
        is_sound(state.facing_all(ids, refreshed).0),
        state.facing_all(ids, refreshed).0.running.dom() == state.running.dom(),
        state.facing_all(ids, refreshed).0.config == state.config,
    decreases ids.len(),
{
    if ids.len() > 0 {
        let id = ids.last();
        lemma_facing_all(state, ids.drop_last(), refreshed);
        let before = state.facing_all(ids.drop_last(), refreshed).0;
        lemma_last_with_id(refreshed, id);
        lemma_stopping(before, id, StopReason::Terminal);
        lemma_stopping(before, id, StopReason::NonActive);
        if before.running.contains_key(id) {
            assert(is_own_run(id, before.running[id]));
            if let Some(issue) = last_with_id(refreshed, id) {
                let run = before.running[id];
                let updated = RunningRuntimeView {
                    entry: crate::types::RunningEntryView { issue, ..run.entry },
                    ..run
                };
                lemma_replaced_run(before, id, updated);
            }
        }
    }
}

proof fn lemma_trying_again(
    state: OrchestratorView,
    id: Seq<char>,
    identifier: Seq<char>,
    attempt: u32,
    error: Option<Seq<char>>,
    delay_ms: u64,
    now: Timestamp,
)
    requires
        state.running.dom().finite(),
        !state.running.contains_key(id),
        state.running.dom().disjoint(state.retrying.dom()),
        state.claimed.insert(id) == state.running.dom().union(state.retrying.dom()).insert(id),
        forall|other: Seq<char>|
            state.running.contains_key(other) ==> is_own_run(other, #[trigger] state.running[other]),
        forall|other: Seq<char>|
            state.retrying.contains_key(other) ==> (#[trigger] state.retrying[other]).issue_id
                == other,
    ensures
        is_sound(state.trying_again(id, identifier, attempt, error, delay_ms, now).0),
{
    let next = state.trying_again(id, identifier, attempt, error, delay_ms, now).0;
    assert(next.claimed =~= next.running.dom().union(next.retrying.dom()));
    assert forall|other: Seq<char>| next.retrying.contains_key(other) implies (
    #[trigger] next.retrying[other]).issue_id == other by {
        if other != id {
            assert(next.retrying[other] == state.retrying[other]);
        }
    }
}

proof fn lemma_letting_go(state: OrchestratorView, id: Seq<char>)
    requires
        state.running.dom().finite(),
        !state.running.contains_key(id),
        state.running.dom().disjoint(state.retrying.dom()),
        state.claimed.remove(id) == state.running.dom().union(state.retrying.dom()).remove(id),
        forall|other: Seq<char>|
            state.running.contains_key(other) ==> is_own_run(other, #[trigger] state.running[other]),
        forall|other: Seq<char>|
            state.retrying.contains_key(other) ==> (#[trigger] state.retrying[other]).issue_id
                == other,
    ensures
        is_sound(state.letting_go(id).0),
{
    let next = state.letting_go(id).0;
    assert(next.claimed =~= next.running.dom().union(next.retrying.dom()));
    assert forall|other: Seq<char>| next.retrying.contains_key(other) implies (
    #[trigger] next.retrying[other]).issue_id == other by {
        assert(next.retrying[other] == state.retrying[other]);
    }
}

proof fn lemma_ending(state: OrchestratorView, outcome: WorkerOutcomeView, now: Timestamp)
    requires
        is_sound(state),
    ensures
        is_sound(state.ending(outcome, now).0),
{
    let id = outcome.issue.id;
    if state.running.contains_key(id) {
        let identifier = outcome.issue.identifier;
        let rest = state.without_run(id, now);
        let done = OrchestratorView { completed: rest.completed.insert(id), ..rest };
        let attempt = next_attempt(state.running[id].entry.retry_attempt);
        assert(rest.running.dom() =~= state.running.dom().remove(id));
        assert forall|other: Seq<char>| rest.running.contains_key(other) implies is_own_run(
            other,
            #[trigger] rest.running[other],
        ) by {
            assert(rest.running[other] == state.running[other]);
        }
        assert(rest.claimed.insert(id) =~= rest.running.dom().union(rest.retrying.dom()).insert(
            id,
        ));
        assert(rest.claimed.remove(id) =~= rest.running.dom().union(rest.retrying.dom()).remove(
            id,
        ));
        lemma_letting_go(rest, id);
        let delay = rest.delay(attempt);
        lemma_trying_again(rest, id, identifier, attempt, Some("stalled session"@), delay, now);
        lemma_trying_again(rest, id, identifier, attempt, Some("worker turn timeout"@), delay, now);
        lemma_trying_again(rest, id, identifier, attempt, Some("worker canceled"@), delay, now);
        lemma_trying_again(rest, id, identifier, attempt, outcome.error, delay, now);
        lemma_trying_again(done, id, identifier, 1, None, FOLLOW_UP_MS, now);
    }
}

proof fn lemma_retrying_now(
    state: OrchestratorView,
    id: Seq<char>,
    fetched: Result<Seq<IssueView>, ErrorView>,
    now: Timestamp,
    current_dir: CurrentDirView,
)
    requires
        is_sound(state),
    ensures
        is_sound(state.retrying_now(id, fetched, now, current_dir).0),
{
    if state.retrying.contains_key(id) {
        let retry = state.retrying[id];
        let rest = OrchestratorView { retrying: state.retrying.remove(id), ..state };
        let attempt = (retry.attempt + 1) as u32;
        let delay = rest.delay(attempt);
        assert(!state.running.contains_key(id));
        assert(rest.claimed.insert(id) =~= rest.running.dom().union(rest.retrying.dom()).insert(
            id,
        ));
        assert(rest.claimed.remove(id) =~= rest.running.dom().union(rest.retrying.dom()).remove(
            id,
        ));
        assert forall|other: Seq<char>| rest.retrying.contains_key(other) implies (
        #[trigger] rest.retrying[other]).issue_id == other by {
            assert(rest.retrying[other] == state.retrying[other]);
        }
        lemma_letting_go(rest, id);
        match fetched {
            Err(error) => {
                lemma_trying_again(
                    rest,
                    id,
                    retry.identifier,
                    attempt,
                    Some("retry poll failed: "@ + crate::error::error_text(error)),
                    delay,
                    now,
                );
            },
            Ok(candidates) => {
                lemma_first_with_id(candidates, id);
                if let Some(issue) = first_with_id(candidates, id) {
                    lemma_taking_up(rest, issue, Some(retry.attempt), now, current_dir);
                    lemma_trying_again(
                        rest,
                        issue.id,
                        issue.identifier,
                        attempt,
                        Some("no available orchestrator slots"@),
                        delay,
                        now,
                    );
                }
            },
        }
    }
}

/// The state of a scheduler that knows of no issue is sound.
pub proof fn lemma_idle_is_sound(config: EffectiveConfigView)
    ensures
        is_sound(idle(config)),
{
    let state = idle(config);
    assert(state.claimed =~= state.running.dom().union(state.retrying.dom()));
}

/// Every change of a sound state leads to a sound state. So at every time exactly the issues that run
/// or wait for a retry are claimed, and none does both.
pub proof fn lemma_every_transition_is_sound(state: OrchestratorView, transition: Transition)
    requires
        is_sound(state),
    ensures
        is_sound(after(state, transition)),
{
    match transition {
        Transition::Dispatch { candidates, now, current_dir } => {
            lemma_taking_up_all(state, dispatch_order(candidates), now, current_dir);
        },
        Transition::Refresh { ids, refreshed } => {
            lemma_facing_all(state, ids, refreshed);
        },
        Transition::Stall { ids } => {
            lemma_stopping_all(state, ids, StopReason::Stall);
        },
        Transition::Update { update } => {
            if state.running.contains_key(update.issue_id) {
                let run = state.running[update.issue_id];
                assert(is_own_run(update.issue_id, run));
                let told = RunningRuntimeView { entry: told_run(run.entry, update), ..run };
                lemma_replaced_run(state, update.issue_id, told);
                let next = state.hearing(update);
                let plain = OrchestratorView {
                    running: state.running.insert(update.issue_id, told),
                    ..state
                };
                assert(next.running == plain.running);
            }
        },
        Transition::Finish { outcome, now } => {
            lemma_ending(state, outcome, now);
        },
        Transition::Retry { id, fetched, now, current_dir } => {
            lemma_retrying_now(state, id, fetched, now, current_dir);
        },
        _ => {},
    }
}

/// The states that a scheduler can come to, by a list of changes.
pub open spec fn reached(config: EffectiveConfigView, transitions: Seq<Transition>) ->
    OrchestratorView
    decreases transitions.len(),
{
    if transitions.len() == 0 {
        idle(config)
    } else {
        after(reached(config, transitions.drop_last()), transitions.last())
    }
}

/// Every state that a scheduler can come to is sound.
pub proof fn lemma_every_reached_state_is_sound(
    config: EffectiveConfigView,
    transitions: Seq<Transition>,
)
    ensures
        is_sound(reached(config, transitions)),
    decreases transitions.len(),
{
    if transitions.len() == 0 {
        lemma_idle_is_sound(config);
    } else {
        lemma_every_reached_state_is_sound(config, transitions.drop_last());
        lemma_every_transition_is_sound(
            reached(config, transitions.drop_last()),
            transitions.last(),
        );
    }
}

// ---------------------------------------------------------------------------
// Limits
// ---------------------------------------------------------------------------

/// The greater of two numbers.
pub open spec fn greater(a: nat, b: nat) -> nat {
    if a >= b {
        a
    } else {
        b
    }
}

/// Between two states the runs became no more than they may be, all together and by state.
pub open spec fn keeps_limits(before: OrchestratorView, next: OrchestratorView) -> bool {
    &&& next.config == before.config
    &&& next.running.dom().finite()
    &&& next.running.dom().len() <= greater(
        before.running.dom().len(),
        before.config.agent.max_concurrent_agents as nat,
    )
    &&& forall|state: Seq<char>|
        (#[trigger] next.running_in(state)).len() <= greater(
            before.running_in(state).len(),
            before.state_limit(state) as nat,
        )
}

/// Between two states no run went away, and none was begun anew.
pub open spec fn keeps_runs(before: OrchestratorView, next: OrchestratorView) -> bool {
    forall|id: Seq<char>|
        before.running.contains_key(id) ==> #[trigger] next.running.contains_key(id)
            && next.running[id] == before.running[id]
}

/// Taking up an issue that may be taken up keeps the limits and the runs: it adds one run, and there
/// was room for it.
pub proof fn lemma_taking_up_keeps_limits(
    state: OrchestratorView,
    issue: IssueView,
    allowed: Option<Seq<char>>,
    attempt: Option<u32>,
    now: Timestamp,
    current_dir: CurrentDirView,
)
    requires
        state.running.dom().finite(),
        state.may_take_up(issue, allowed),
    ensures
        keeps_limits(state, state.taking_up(issue, attempt, now, current_dir).0),
        keeps_runs(state, state.taking_up(issue, attempt, now, current_dir).0),
        state.taking_up(issue, attempt, now, current_dir).0.running.dom() == state.running.dom().insert(
            issue.id,
        ),
{
    let next = state.taking_up(issue, attempt, now, current_dir).0;
    assert(next.running.dom() =~= state.running.dom().insert(issue.id));
    assert forall|other: Seq<char>|
        (#[trigger] next.running_in(other)).len() <= greater(
            state.running_in(other).len(),
            state.state_limit(other) as nat,
        ) by {
        let earlier = state.running_in(other);
        assert(!earlier.contains(issue.id));
        if normalized_state(issue.state) == normalized_state(other) {
            assert(earlier =~= state.running_in(issue.state));
            assert(next.running_in(other) =~= earlier.insert(issue.id));
        } else {
            assert(next.running_in(other) =~= earlier);
        }
    }
}

/// However many issues the tracker offers, taking them up keeps the limits and the runs.
pub proof fn lemma_dispatch_keeps_limits(
    state: OrchestratorView,
    issues: Seq<IssueView>,
    now: Timestamp,
    current_dir: CurrentDirView,
)
    requires
        state.running.dom().finite(),
    ensures
        keeps_limits(state, state.taking_up_all(issues, now, current_dir).0),
        keeps_runs(state, state.taking_up_all(issues, now, current_dir).0),
    decreases issues.len(),
{
    if issues.len() > 0 && state.free_slots() > 0 {
        let rest = issues.drop_first();
        if state.may_take_up(issues[0], None) {
            let mid = state.taking_up(issues[0], None, now, current_dir).0;
            lemma_taking_up_keeps_limits(state, issues[0], None, None, now, current_dir);
            lemma_dispatch_keeps_limits(mid, rest, now, current_dir);
            let last = mid.taking_up_all(rest, now, current_dir).0;
            assert forall|other: Seq<char>|
                (#[trigger] last.running_in(other)).len() <= greater(
                    state.running_in(other).len(),
                    state.state_limit(other) as nat,
                ) by {
                assert(mid.running_in(other).len() <= greater(
                    state.running_in(other).len(),
                    state.state_limit(other) as nat,
                ));
            }
            assert forall|id: Seq<char>| state.running.contains_key(
                id,
            ) implies #[trigger] last.running.contains_key(id) && last.running[id]
                == state.running[id] by {
                assert(mid.running.contains_key(id));
            }
        } else {
            lemma_dispatch_keeps_limits(state, rest, now, current_dir);
        }
    }
}

/// The greatest number of runs that a configuration allows.
pub open spec fn run_limit(config: EffectiveConfigView) -> nat {
    config.agent.max_concurrent_agents as nat
}

/// No change of a sound state leads to more runs than are allowed, unless there were more before. The
/// configuration changes only when another is loaded.
pub proof fn lemma_every_transition_keeps_the_limit(state: OrchestratorView, transition: Transition)
    requires
        is_sound(state),
    ensures
        after(state, transition).running.dom().len() <= greater(
            state.running.dom().len(),
            run_limit(state.config),
        ),
        after(state, transition).config == match transition {
            Transition::Reload { config } => config,
            _ => state.config,
        },
{
    match transition {
        Transition::Dispatch { candidates, now, current_dir } => {
            lemma_dispatch_keeps_limits(state, dispatch_order(candidates), now, current_dir);
        },
        Transition::Refresh { ids, refreshed } => {
            lemma_facing_all(state, ids, refreshed);
        },
        Transition::Stall { ids } => {
            lemma_stopping_all(state, ids, StopReason::Stall);
        },
        Transition::Update { update } => {
            assert(state.running.contains_key(update.issue_id) ==> state.hearing(
                update,
            ).running.dom() =~= state.running.dom());
        },
        Transition::Finish { outcome, now } => {
            let id = outcome.issue.id;
            assert(state.running.contains_key(id) ==> state.ending(outcome, now).0.running.dom()
                =~= state.running.dom().remove(id));
        },
        Transition::Retry { id, fetched, now, current_dir } => {
            let rest = OrchestratorView { retrying: state.retrying.remove(id), ..state };
            if let Ok(candidates) = fetched {
                if let Some(issue) = first_with_id(candidates, id) {
                    if rest.may_take_up(issue, Some(id)) {
                        lemma_taking_up_keeps_limits(
                            rest,
                            issue,
                            Some(id),
                            Some(state.retrying[id].attempt),
                            now,
                            current_dir,
                        );
                    }
                }
            }
        },
        _ => {},
    }
}

/// There are never more runs than the configurations allow that were in force.
pub proof fn lemma_never_more_runs_than_allowed(
    config: EffectiveConfigView,
    transitions: Seq<Transition>,
    limit: nat,
)
    requires
        run_limit(config) <= limit,
        forall|i: int|
            0 <= i < transitions.len() ==> match #[trigger] transitions[i] {
                Transition::Reload { config } => run_limit(config) <= limit,
                _ => true,
            },
    ensures
        reached(config, transitions).running.dom().len() <= limit,
        run_limit(reached(config, transitions).config) <= limit,
    decreases transitions.len(),
{
    if transitions.len() > 0 {
        let earlier = transitions.drop_last();
        assert forall|i: int| 0 <= i < earlier.len() implies match #[trigger] earlier[i] {
            Transition::Reload { config } => run_limit(config) <= limit,
            _ => true,
        } by {
            assert(earlier[i] == transitions[i]);
        }
        lemma_never_more_runs_than_allowed(config, earlier, limit);
        lemma_every_reached_state_is_sound(config, earlier);
        lemma_every_transition_keeps_the_limit(reached(config, earlier), transitions.last());
    }
}

/// Every worker that is started when issues are offered is started on one of them that may be worked
/// on and that nobody worked on or waited to try again, and is a first attempt.
pub proof fn lemma_dispatch_starts_only_workable(
    state: OrchestratorView,
    issues: Seq<IssueView>,
    now: Timestamp,
    current_dir: CurrentDirView,
)
    ensures
        forall|i: int|
            0 <= i < state.taking_up_all(issues, now, current_dir).1.len()
                ==> match #[trigger] state.taking_up_all(issues, now, current_dir).1[i] {
                EffectView::StartWorker { issue, attempt } => {
                    &&& issues.contains(issue)
                    &&& state.is_workable(issue)
                    &&& !state.running.contains_key(issue.id)
                    &&& !state.claimed.contains(issue.id)
                    &&& attempt is None
                },
                _ => true,
            },
    decreases issues.len(),
{
    if issues.len() > 0 && state.free_slots() > 0 {
        let rest = issues.drop_first();
        let first = issues[0];
        let (mid, effects) = if state.may_take_up(first, None) {
            state.taking_up(first, None, now, current_dir)
        } else {
            (state, seq![])
        };
        lemma_dispatch_starts_only_workable(mid, rest, now, current_dir);
        let more = mid.taking_up_all(rest, now, current_dir).1;
        let all = state.taking_up_all(issues, now, current_dir).1;
        assert(all == effects + more);
        assert forall|i: int| 0 <= i < all.len() implies match #[trigger] all[i] {
            EffectView::StartWorker { issue, attempt } => {
                &&& issues.contains(issue)
                &&& state.is_workable(issue)
                &&& !state.running.contains_key(issue.id)
                &&& !state.claimed.contains(issue.id)
                &&& attempt is None
            },
            _ => true,
        } by {
            if i < effects.len() {
                assert(issues.contains(first));
            } else {
                assert(all[i] == more[i - effects.len()]);
                if let EffectView::StartWorker { issue, attempt } = all[i] {
                    let k = choose|k: int| 0 <= k < rest.len() && rest[k] == issue;
                    assert(issues[k + 1] == issue);
                    assert(mid.config == state.config);
                    assert(mid.is_blocked(issue) == state.is_blocked(issue)) by {
                        assert forall|b: crate::types::BlockerRefView| #[trigger]
                            mid.still_blocks(b) == state.still_blocks(b) by {}
                    }
                }
            }
        }
    }
}

// ---------------------------------------------------------------------------
// Runs and retries
// ---------------------------------------------------------------------------

/// A run that was told to stop keeps the first reason for that, however often it is told again.
pub proof fn lemma_first_reason_is_kept(
    state: OrchestratorView,
    id: Seq<char>,
    first: StopReason,
    second: StopReason,
)
    requires
        state.running.contains_key(id),
    ensures
        ({
            let once = state.stopping(id, first).0;
            let twice = once.stopping(id, second).0;
            &&& once.running[id].stop_reason is Some
            &&& twice.running[id].stop_reason == once.running[id].stop_reason
            &&& state.running[id].stop_reason is None ==> once.running[id].stop_reason == Some(first)
            &&& state.running[id].stop_reason is Some ==> once.running[id].stop_reason
                == state.running[id].stop_reason
        }),
{
}

/// A run that has ended is a run no more. Its issue is then let go, where it was told to stop because
/// the issue is finished or no longer active, and waits for a retry otherwise; that is a first attempt
/// after a success, and one attempt more after anything else.
pub proof fn lemma_ended_run_is_accounted_for(
    state: OrchestratorView,
    outcome: WorkerOutcomeView,
    now: Timestamp,
)
    requires
        state.running.contains_key(outcome.issue.id),
    ensures
        ({
            let id = outcome.issue.id;
            let run = state.running[id];
            let next = state.ending(outcome, now).0;
            &&& !next.running.contains_key(id)
            &&& if run.stop_reason == Some(StopReason::Terminal) || run.stop_reason == Some(
                StopReason::NonActive,
            ) {
                !next.claimed.contains(id) && !next.retrying.contains_key(id)
            } else {
                &&& next.claimed.contains(id)
                &&& next.retrying.contains_key(id)
                &&& next.retrying[id].attempt == if run.stop_reason is None && outcome.exit
                    == WorkerExit::Succeeded {
                    1
                } else {
                    next_attempt(run.entry.retry_attempt)
                }
            }
            &&& next.completed == if run.stop_reason is None && outcome.exit
                == WorkerExit::Succeeded {
                state.completed.insert(id)
            } else {
                state.completed
            }
        }),
{
}

/// A run that ended well and was not told to stop is followed up after a second.
pub proof fn lemma_success_is_followed_up(
    state: OrchestratorView,
    outcome: WorkerOutcomeView,
    now: Timestamp,
)
    requires
        state.running.contains_key(outcome.issue.id),
        state.running[outcome.issue.id].stop_reason is None,
        outcome.exit == WorkerExit::Succeeded,
    ensures
        state.ending(outcome, now).1.last() == (EffectView::StartRetryTimer {
            issue_id: outcome.issue.id,
            delay_ms: 1_000,
        }),
        state.ending(outcome, now).0.retrying[outcome.issue.id].error is None,
{
}

/// An issue whose retry is due is not lost: it runs then, or waits for another retry, or is claimed no
/// more.
pub proof fn lemma_retry_is_accounted_for(
    state: OrchestratorView,
    id: Seq<char>,
    fetched: Result<Seq<IssueView>, ErrorView>,
    now: Timestamp,
    current_dir: CurrentDirView,
)
    requires
        state.retrying.contains_key(id),
    ensures
        ({
            let next = state.retrying_now(id, fetched, now, current_dir).0;
            ||| next.running.contains_key(id) && next.running[id].entry.retry_attempt == Some(
                state.retrying[id].attempt,
            )
            ||| next.retrying.contains_key(id) && next.retrying[id].attempt == (
            state.retrying[id].attempt + 1) as u32
            ||| !next.claimed.contains(id)
        }),
{
    if let Ok(candidates) = fetched {
        lemma_first_with_id(candidates, id);
    }
}

/// The time before a retry never exceeds the limit, never shrinks from one attempt to the next, and
/// begins with ten seconds where the limit allows.
pub proof fn lemma_retry_delay_is_capped(attempt: u32, later: u32, limit: u64)
    requires
        attempt <= later,
    ensures
        retry_delay(attempt, limit) <= limit,
        retry_delay(attempt, limit) <= retry_delay(later, limit),
        limit >= 10_000 ==> retry_delay(1, limit) == 10_000,
{
    vstd::arithmetic::power2::lemma2_to64();
    let n: nat = if attempt == 0 {
        0
    } else {
        (attempt - 1) as nat
    };
    let m: nat = if later == 0 {
        0
    } else {
        (later - 1) as nat
    };
    if n < m {
        lemma_pow2_strictly_increases(n, m);
    }
    assert(RETRY_BASE_MS * pow2(n) <= RETRY_BASE_MS * pow2(m)) by (nonlinear_arith)
        requires
            pow2(n) <= pow2(m),
    ;
}

// ---------------------------------------------------------------------------
// News
// ---------------------------------------------------------------------------

/// Tokens are counted once: what a session tells of twice, each time as a total of its own that does
/// not shrink, adds what it tells of the second time alone.
pub proof fn lemma_tokens_are_counted_once(
    totals: CodexTotals,
    live: LiveSessionView,
    first: TokenUsage,
    second: TokenUsage,
)
    requires
        live.last_reported_input_tokens <= first.input_tokens <= second.input_tokens,
        live.last_reported_output_tokens <= first.output_tokens <= second.output_tokens,
        live.last_reported_total_tokens <= first.total_tokens <= second.total_tokens,
        totals_fit(totals, live, second),
    ensures
        totals_fit(totals, live, first),
        with_tokens(with_tokens(totals, live, first), told_tokens(live, first), second)
            == with_tokens(totals, live, second),
{
}

/// Totals never shrink: neither when a session tells its news nor when a run ends.
pub proof fn lemma_totals_never_shrink(
    state: OrchestratorView,
    update: SessionUpdateView,
    outcome: WorkerOutcomeView,
    now: Timestamp,
)
    requires
        state.can_hear(update),
    ensures
        state.hearing(update).totals.input_tokens >= state.totals.input_tokens,
        state.hearing(update).totals.output_tokens >= state.totals.output_tokens,
        state.hearing(update).totals.total_tokens >= state.totals.total_tokens,
        state.hearing(update).totals.millis_running == state.totals.millis_running,
        state.ending(outcome, now).0.totals.input_tokens == state.totals.input_tokens,
        state.ending(outcome, now).0.totals.output_tokens == state.totals.output_tokens,
        state.ending(outcome, now).0.totals.total_tokens == state.totals.total_tokens,
        state.ending(outcome, now).0.totals.millis_running >= state.totals.millis_running,
{
}

/// News about an issue that does not run change nothing.
pub proof fn lemma_stray_news_change_nothing(
    state: OrchestratorView,
    update: SessionUpdateView,
    outcome: WorkerOutcomeView,
    now: Timestamp,
)
    requires
        !state.running.contains_key(update.issue_id),
        !state.running.contains_key(outcome.issue.id),
    ensures
        state.hearing(update) == state,
        state.ending(outcome, now) == (state, Seq::<EffectView>::empty()),
{
}

/// Of the events of a run the last ones are kept, in their order, and no more than there may be.
pub proof fn lemma_latest_events_are_kept(events: Seq<RecentEventView>)
    ensures
        latest_events(events).len() <= RECENT_EVENT_LIMIT,
        latest_events(events).is_suffix_of(events),
        events.len() <= RECENT_EVENT_LIMIT ==> latest_events(events) == events,
{
    let kept = latest_events(events);
    assert(kept =~= events.subrange(events.len() - kept.len(), events.len() as int));
}

} // verus!
