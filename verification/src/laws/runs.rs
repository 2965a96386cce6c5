//! What becomes of runs: when they are stopped, what follows their end, and what they tell.
use vstd::prelude::*;
use vstd::arithmetic::power2::pow2;

use crate::error::{error_text, ErrorView};
use crate::orchestrator::{
    first_with_id, idle, last_with_id, retry_delay, stalled_ids, EffectView, OrchestratorView,
    RunningRuntimeView, StopReason,
};
use crate::protocol::SessionUpdateView;
use crate::string_map::{entry_position, has_entry, keys_differ, map_of};
use crate::text::{trimmed, unicode_lowercase};
use crate::time::{chrono_after_millis, chrono_millis_between, Timestamp};
use crate::types::{EffectiveConfigView, IssueView, RecentEventView};
use crate::worker::{WorkerExit, WorkerOutcomeView};
use crate::workspace::CurrentDirView;

verus! {

// ---------------------------------------------------------------------------
// Stopping
// ---------------------------------------------------------------------------

/// Two states differ in their runs alone.
pub open spec fn differ_in_runs(a: OrchestratorView, b: OrchestratorView) -> bool {
    &&& a.config == b.config
    &&& a.claimed == b.claimed
    &&& a.retrying == b.retrying
    &&& a.completed == b.completed
    &&& a.totals == b.totals
    &&& a.rate_limits == b.rate_limits
    &&& a.refresh_queued == b.refresh_queued
}

/// A run that is told to stop keeps all but the reason to stop, which it gets where it has none, and
/// its worker is told; no other run changes. Where there is no such run, nothing is done.
pub proof fn lemma_stopping(state: OrchestratorView, id: Seq<char>, reason: StopReason)
    ensures
        ({
            let (next, effects) = state.stopping(id, reason);
            &&& next.running.dom() == state.running.dom()
            &&& differ_in_runs(state, next)
            &&& forall|other: Seq<char>|
                other != id && state.running.dom().contains(other)
                    ==> #[trigger] next.running[other] == state.running[other]
            &&& if state.running.dom().contains(id) {
                &&& next.running[id].entry == state.running[id].entry
                &&& state.running[id].stop_reason is None ==> next.running[id].stop_reason == Some(
                    reason,
                )
                &&& state.running[id].stop_reason is Some ==> next.running[id].stop_reason
                    == state.running[id].stop_reason
                &&& effects == seq![EffectView::CancelWorker { issue_id: id }]
            } else {
                next == state && effects.len() == 0
            }
        }),
{
    let (next, effects) = state.stopping(id, reason);
    assert(next.running.dom() =~= state.running.dom());
}

proof fn lemma_stopping_all(state: OrchestratorView, ids: Seq<Seq<char>>, reason: StopReason)
    ensures
        ({
            let (next, effects) = state.stopping_all(ids, reason);
            &&& next.running.dom() == state.running.dom()
            &&& differ_in_runs(state, next)
            &&& forall|id: Seq<char>| #[trigger]
                state.running.dom().contains(id) ==> if ids.contains(id) {
                    &&& next.running[id].entry == state.running[id].entry
                    &&& next.running[id].stop_reason == if state.running[id].stop_reason is Some {
                        state.running[id].stop_reason
                    } else {
                        Some(reason)
                    }
                } else {
                    next.running[id] == state.running[id]
                }
            &&& forall|j: int|
                0 <= j < effects.len() ==> exists|id: Seq<char>|
                    #![trigger ids.contains(id)]
                    ids.contains(id) && state.running.dom().contains(id) && (
                    #[trigger] effects[j]) == (EffectView::CancelWorker { issue_id: id })
            &&& forall|id: Seq<char>| #[trigger]
                ids.contains(id) && state.running.dom().contains(id) ==> effects.contains(
                    EffectView::CancelWorker { issue_id: id },
                )
        }),
    decreases ids.len(),
{
    if ids.len() > 0 {
        let head = ids.drop_last();
        let id = ids.last();
        lemma_stopping_all(state, head, reason);
        let (mid, effects) = state.stopping_all(head, reason);
        lemma_stopping(mid, id, reason);
        let (next, more) = mid.stopping(id, reason);
        let all = effects + more;
        assert(ids =~= head.push(id));
        assert forall|other: Seq<char>| ids.contains(other) == (head.contains(other) || other
            == id) by {
            if head.contains(other) {
                let k = choose|k: int| 0 <= k < head.len() && head[k] == other;
                assert(ids[k] == other);
            }
            if other == id {
                assert(ids[ids.len() - 1] == id);
            }
        }
        assert forall|j: int| 0 <= j < all.len() implies exists|other: Seq<char>|
            #![trigger ids.contains(other)]
            ids.contains(other) && state.running.dom().contains(other) && (#[trigger] all[j]) == (
            EffectView::CancelWorker { issue_id: other }) by {
            if j < effects.len() {
                assert(all[j] == effects[j]);
                let other = choose|other: Seq<char>|
                    #![trigger head.contains(other)]
                    head.contains(other) && state.running.dom().contains(other) && effects[j] == (
                    EffectView::CancelWorker { issue_id: other });
                assert(ids.contains(other));
            } else {
                assert(all[j] == more[j - effects.len()]);
                assert(ids.contains(id));
            }
        }
        assert forall|other: Seq<char>| #[trigger]
            ids.contains(other) && state.running.dom().contains(other) implies all.contains(
            EffectView::CancelWorker { issue_id: other },
        ) by {
            let wanted = EffectView::CancelWorker { issue_id: other };
            if head.contains(other) {
                let k = choose|k: int| 0 <= k < effects.len() && effects[k] == wanted;
                assert(all[k] == wanted);
            } else {
                assert(more[0] == wanted);
                assert(all[effects.len() as int] == wanted);
            }
        }
    }
}

/// A run has been silent for longer than a time: since its last event, or since it was begun, where
/// there was none yet.
pub open spec fn silent_for(run: RunningRuntimeView, now: Timestamp, millis: i64) -> bool {
    match run.entry.session.last_codex_timestamp {
        Some(at) => chrono_millis_between(at, now) > millis,
        None => chrono_millis_between(run.entry.started_at, now) > millis,
    }
}

proof fn lemma_stalled_ids(
    entries: Seq<(Seq<char>, RunningRuntimeView)>,
    timeout_ms: i64,
    now: Timestamp,
    id: Seq<char>,
)
    ensures
        stalled_ids(entries, timeout_ms, now).contains(id) <==> exists|j: int|
            0 <= j < entries.len() && (#[trigger] entries[j]).0 == id && silent_for(
                entries[j].1,
                now,
                timeout_ms,
            ),
    decreases entries.len(),
{
    if entries.len() > 0 {
        let head = entries.drop_last();
        let last = entries.last();
        lemma_stalled_ids(head, timeout_ms, now, id);
        let before = stalled_ids(head, timeout_ms, now);
        let all = stalled_ids(entries, timeout_ms, now);
        if before.contains(id) {
            let j = choose|j: int|
                0 <= j < head.len() && (#[trigger] head[j]).0 == id && silent_for(
                    head[j].1,
                    now,
                    timeout_ms,
                );
            assert(entries[j] == head[j]);
            let k = choose|k: int| 0 <= k < before.len() && before[k] == id;
            assert(all[k] == id);
        }
        if all.contains(id) && !before.contains(id) {
            let k = choose|k: int| 0 <= k < all.len() && all[k] == id;
            if k < before.len() {
                assert(before[k] == id);
            }
            assert(entries[entries.len() - 1].0 == id);
        }
        if exists|j: int|
            0 <= j < entries.len() && (#[trigger] entries[j]).0 == id && silent_for(
                entries[j].1,
                now,
                timeout_ms,
            ) {
            let j = choose|j: int|
                0 <= j < entries.len() && (#[trigger] entries[j]).0 == id && silent_for(
                    entries[j].1,
                    now,
                    timeout_ms,
                );
            if j < head.len() {
                assert(head[j] == entries[j]);
            } else {
                assert(all[before.len() as int] == id);
            }
        }
    }
}

/// Every run that has been silent for longer than the time allowed, counted from its last event, or from
/// its beginning where there was no event yet, is told to stop, and no other run is touched.
pub proof fn lemma_silent_runs_are_stopped(
    state: OrchestratorView,
    entries: Seq<(Seq<char>, RunningRuntimeView)>,
    timeout_ms: i64,
    now: Timestamp,
)
    requires
        map_of(entries) == state.running,
        keys_differ(entries),
    ensures
        ({
            let (next, effects) = state.stopping_all(
                stalled_ids(entries, timeout_ms, now),
                StopReason::Stall,
            );
            &&& next.running.dom() == state.running.dom()
            &&& differ_in_runs(state, next)
            &&& forall|id: Seq<char>| #[trigger]
                state.running.dom().contains(id) ==> {
                    let run = state.running[id];
                    let since = match run.entry.session.last_codex_timestamp {
                        Some(at) => at,
                        None => run.entry.started_at,
                    };
                    let cancel = EffectView::CancelWorker { issue_id: id };
                    if chrono_millis_between(since, now) > timeout_ms {
                        &&& next.running[id].entry == run.entry
                        &&& next.running[id].stop_reason == if run.stop_reason is Some {
                            run.stop_reason
                        } else {
                            Some(StopReason::Stall)
                        }
                        &&& effects.contains(cancel)
                    } else {
                        next.running[id] == run && !effects.contains(cancel)
                    }
                }
            &&& forall|j: int| 0 <= j < effects.len() ==> (#[trigger] effects[j]) is CancelWorker
        }),
{
    let ids = stalled_ids(entries, timeout_ms, now);
    lemma_stopping_all(state, ids, StopReason::Stall);
    let (next, effects) = state.stopping_all(ids, StopReason::Stall);
    assert forall|id: Seq<char>| #[trigger] state.running.dom().contains(id) implies ids.contains(id)
        == silent_for(state.running[id], now, timeout_ms) by {
        lemma_stalled_ids(entries, timeout_ms, now, id);
        assert(has_entry(entries, id));
        let k = entry_position(entries, id);
        assert(entries[k].0 == id);
        assert(state.running[id] == entries[k].1);
        if ids.contains(id) {
            let j = choose|j: int|
                0 <= j < entries.len() && (#[trigger] entries[j]).0 == id && silent_for(
                    entries[j].1,
                    now,
                    timeout_ms,
                );
            assert(entries[j].0 == entries[k].0);
            assert(j == k);
        }
    }
    assert forall|id: Seq<char>|
        state.running.dom().contains(id) && !ids.contains(id) implies !#[trigger] effects.contains(
        EffectView::CancelWorker { issue_id: id },
    ) by {
        if effects.contains(EffectView::CancelWorker { issue_id: id }) {
            let j = choose|j: int|
                0 <= j < effects.len() && effects[j] == (EffectView::CancelWorker { issue_id: id });
            assert(effects[j] is CancelWorker);
        }
    }
}

// ---------------------------------------------------------------------------
// Refreshing
// ---------------------------------------------------------------------------

proof fn lemma_last_with_id(issues: Seq<IssueView>, id: Seq<char>)
    ensures
        match last_with_id(issues, id) {
            Some(issue) => exists|p: int|
                0 <= p < issues.len() && (#[trigger] issues[p]) == issue && issue.id == id
                    && forall|q: int| p < q < issues.len() ==> (#[trigger] issues[q]).id != id,
            None => forall|q: int| 0 <= q < issues.len() ==> (#[trigger] issues[q]).id != id,
        },
    decreases issues.len(),
{
    if issues.len() > 0 {
        let head = issues.drop_last();
        if issues.last().id == id {
            assert(issues[issues.len() - 1] == issues.last());
        } else {
            lemma_last_with_id(head, id);
            if let Some(issue) = last_with_id(head, id) {
                let p = choose|p: int|
                    0 <= p < head.len() && (#[trigger] head[p]) == issue && issue.id == id
                        && forall|q: int| p < q < head.len() ==> (#[trigger] head[q]).id != id;
                assert(issues[p] == issue);
                assert forall|q: int| p < q < issues.len() implies (#[trigger] issues[q]).id != id by {
                    if q < head.len() {
                        assert(head[q] == issues[q]);
                    }
                }
            } else {
                assert forall|q: int| 0 <= q < issues.len() implies (#[trigger] issues[q]).id
                    != id by {
                    if q < head.len() {
                        assert(head[q] == issues[q]);
                    }
                }
            }
        }
    }
}

/// The tracker tells of a running issue, at its last mention: where its state is listed as terminal the
/// run is told to stop for that, where it is listed as active the run takes the issue over and goes on,
/// and otherwise it is told to stop since the issue is not active.
pub proof fn lemma_facing_a_running_issue(
    state: OrchestratorView,
    id: Seq<char>,
    refreshed: Seq<IssueView>,
    p: int,
)
    requires
        state.running.dom().contains(id),
        0 <= p < refreshed.len(),
        refreshed[p].id == id,
        forall|q: int| p < q < refreshed.len() ==> (#[trigger] refreshed[q]).id != id,
    ensures
        ({
            let (next, effects) = state.facing(id, refreshed);
            let run = state.running[id];
            let finished = exists|i: int|
                0 <= i < state.config.tracker.terminal_states.len() && unicode_lowercase(
                    trimmed(#[trigger] state.config.tracker.terminal_states[i]),
                ) == unicode_lowercase(trimmed(refreshed[p].state));
            let active = exists|i: int|
                0 <= i < state.config.tracker.active_states.len() && unicode_lowercase(
                    trimmed(#[trigger] state.config.tracker.active_states[i]),
                ) == unicode_lowercase(trimmed(refreshed[p].state));
            &&& next.running.dom() == state.running.dom()
            &&& differ_in_runs(state, next)
            &&& forall|other: Seq<char>|
                other != id && state.running.dom().contains(other)
                    ==> #[trigger] next.running[other] == state.running[other]
            &&& if finished || !active {
                &&& next.running[id].entry == run.entry
                &&& next.running[id].stop_reason == if run.stop_reason is Some {
                    run.stop_reason
                } else if finished {
                    Some(StopReason::Terminal)
                } else {
                    Some(StopReason::NonActive)
                }
                &&& effects == seq![EffectView::CancelWorker { issue_id: id }]
            } else {
                &&& next.running[id].stop_reason == run.stop_reason
                &&& next.running[id].entry.issue == refreshed[p]
                &&& next.running[id].entry == (crate::types::RunningEntryView {
                    issue: refreshed[p],
                    ..run.entry
                })
                &&& effects.len() == 0
            }
        }),
{
    lemma_last_with_id(refreshed, id);
    assert(last_with_id(refreshed, id) == Some(refreshed[p])) by {
        match last_with_id(refreshed, id) {
            Some(issue) => {
                let r = choose|r: int|
                    0 <= r < refreshed.len() && (#[trigger] refreshed[r]) == issue && issue.id == id
                        && forall|q: int|
                        r < q < refreshed.len() ==> (#[trigger] refreshed[q]).id != id;
                if r < p {
                    assert(refreshed[p].id != id);
                } else if p < r {
                    assert(refreshed[r].id != id);
                }
            },
            None => {
                assert(refreshed[p].id != id);
            },
        }
    }
    lemma_stopping(state, id, StopReason::Terminal);
    lemma_stopping(state, id, StopReason::NonActive);
    assert(state.facing(id, refreshed).0.running.dom() =~= state.running.dom());
}

/// Of an issue that does not run, or that the tracker does not tell of, nothing changes; and hearing of
/// some issues and then of others is hearing of all of them.
pub proof fn lemma_facing_others(
    state: OrchestratorView,
    id: Seq<char>,
    refreshed: Seq<IssueView>,
    first: Seq<Seq<char>>,
)
    ensures
        !state.running.dom().contains(id) || (forall|q: int|
            0 <= q < refreshed.len() ==> (#[trigger] refreshed[q]).id != id) ==> state.facing(
            id,
            refreshed,
        ) == (state, Seq::<EffectView>::empty()),
        state.facing_all(Seq::empty(), refreshed) == (state, Seq::<EffectView>::empty()),
        state.facing_all(first.push(id), refreshed) == ({
            let (mid, effects) = state.facing_all(first, refreshed);
            let (last, more) = mid.facing(id, refreshed);
            (last, effects + more)
        }),
{
    lemma_last_with_id(refreshed, id);
    assert(first.push(id).drop_last() =~= first);
}

// ---------------------------------------------------------------------------
// Ends and retries
// ---------------------------------------------------------------------------

/// The time before a retry is ten seconds before the first, and doubles from one to the next, as long as
/// that is below the limit; then it is the limit.
pub proof fn lemma_retry_delay(attempt: u32, limit: u64)
    ensures
        retry_delay(attempt, limit) <= limit,
        attempt >= 1 && 10_000 * pow2((attempt - 1) as nat) < limit ==> retry_delay(attempt, limit)
            == 10_000 * pow2((attempt - 1) as nat),
        attempt >= 1 && 10_000 * pow2((attempt - 1) as nat) >= limit ==> retry_delay(attempt, limit)
            == limit,
        retry_delay(0, limit) == retry_delay(1, limit),
{
}

/// The retry that an issue waits for, and the timer that is started for it.
pub open spec fn waits_for_retry(
    next: OrchestratorView,
    effects: Seq<EffectView>,
    id: Seq<char>,
    identifier: Seq<char>,
    attempt: u32,
    error: Option<Seq<char>>,
    delay_ms: u64,
    now: Timestamp,
) -> bool {
    &&& next.retrying.dom().contains(id)
    &&& next.retrying[id].issue_id == id
    &&& next.retrying[id].identifier == identifier
    &&& next.retrying[id].attempt == attempt
    &&& next.retrying[id].error == error
    &&& next.retrying[id].due_at == chrono_after_millis(now, delay_ms as i64)
    &&& next.claimed.contains(id)
    &&& effects.len() > 0
    &&& effects.last() == (EffectView::StartRetryTimer { issue_id: id, delay_ms })
}

/// A run has ended. It is a run no more, and its time is added up. If it was told to stop since its
/// issue is finished, the issue is let go and its workspace removed; if since it is not active, it is let
/// go. Otherwise it waits for a retry: after a second and as a first attempt, if the run succeeded and
/// was not told to stop, and as the next attempt after a time that grows, if it stalled, took too long,
/// was canceled or failed, with what was wrong. No other issue is touched.
pub proof fn lemma_end_of_a_run(state: OrchestratorView, outcome: WorkerOutcomeView, now: Timestamp)
    requires
        state.running.dom().contains(outcome.issue.id),
    ensures
        ({
            let id = outcome.issue.id;
            let identifier = outcome.issue.identifier;
            let run = state.running[id];
            let (next, effects) = state.ending(outcome, now);
            let again: u32 = match run.entry.retry_attempt {
                Some(n) => (n + 1) as u32,
                None => 1,
            };
            let delay = retry_delay(again, state.config.agent.max_retry_backoff_ms);
            let elapsed = chrono_millis_between(run.entry.started_at, now);
            &&& next.running == state.running.remove(id)
            &&& next.config == state.config
            &&& next.rate_limits == state.rate_limits
            &&& next.refresh_queued == state.refresh_queued
            &&& next.totals.input_tokens == state.totals.input_tokens
            &&& next.totals.output_tokens == state.totals.output_tokens
            &&& next.totals.total_tokens == state.totals.total_tokens
            &&& elapsed > 0 && state.totals.millis_running + elapsed <= u64::MAX
                ==> next.totals.millis_running == state.totals.millis_running + elapsed
            &&& elapsed <= 0 ==> next.totals.millis_running == state.totals.millis_running
            &&& forall|other: Seq<char>|
                other != id ==> #[trigger] next.claimed.contains(other) == state.claimed.contains(
                    other,
                )
            &&& next.retrying.remove(id) == state.retrying.remove(id)
            &&& next.completed == if run.stop_reason is None && outcome.exit
                == WorkerExit::Succeeded {
                state.completed.insert(id)
            } else {
                state.completed
            }
            &&& effects.contains(EffectView::CleanupWorkspace { identifier }) <==> run.stop_reason
                == Some(StopReason::Terminal)
            &&& forall|j: int| 0 <= j < effects.len() ==> !((#[trigger] effects[j]) is StartWorker)
            &&& match run.stop_reason {
                Some(StopReason::Terminal) | Some(StopReason::NonActive) => {
                    &&& !next.claimed.contains(id)
                    &&& !next.retrying.dom().contains(id)
                    &&& forall|j: int|
                        0 <= j < effects.len() ==> !((#[trigger] effects[j]) is StartRetryTimer)
                },
                Some(StopReason::Stall) => waits_for_retry(
                    next,
                    effects,
                    id,
                    identifier,
                    again,
                    Some("stalled session"@),
                    delay,
                    now,
                ),
                None => match outcome.exit {
                    WorkerExit::Succeeded => waits_for_retry(
                        next,
                        effects,
                        id,
                        identifier,
                        1,
                        None,
                        1_000,
                        now,
                    ),
                    WorkerExit::TimedOut => waits_for_retry(
                        next,
                        effects,
                        id,
                        identifier,
                        again,
                        Some("worker turn timeout"@),
                        delay,
                        now,
                    ),
                    WorkerExit::Canceled => waits_for_retry(
                        next,
                        effects,
                        id,
                        identifier,
                        again,
                        Some("worker canceled"@),
                        delay,
                        now,
                    ),
                    WorkerExit::Failed => waits_for_retry(
                        next,
                        effects,
                        id,
                        identifier,
                        again,
                        outcome.error,
                        delay,
                        now,
                    ),
                },
            }
        }),
{
    let id = outcome.issue.id;
    let identifier = outcome.issue.identifier;
    let (next, effects) = state.ending(outcome, now);
    assert(next.retrying.remove(id) =~= state.retrying.remove(id));
    if state.running[id].stop_reason == Some(StopReason::Terminal) {
        assert(effects[0] == (EffectView::CleanupWorkspace { identifier }));
    }
}

/// The end of a run that is not known changes nothing.
pub proof fn lemma_end_of_no_run(state: OrchestratorView, outcome: WorkerOutcomeView, now: Timestamp)
    requires
        !state.running.dom().contains(outcome.issue.id),
    ensures
        state.ending(outcome, now) == (state, Seq::<EffectView>::empty()),
{
}

proof fn lemma_first_with_id(issues: Seq<IssueView>, id: Seq<char>)
    ensures
        match first_with_id(issues, id) {
            Some(issue) => exists|p: int|
                0 <= p < issues.len() && (#[trigger] issues[p]) == issue && issue.id == id
                    && forall|q: int| 0 <= q < p ==> (#[trigger] issues[q]).id != id,
            None => forall|q: int| 0 <= q < issues.len() ==> (#[trigger] issues[q]).id != id,
        },
    decreases issues.len(),
{
    if issues.len() > 0 {
        let tail = issues.drop_first();
        if issues[0].id != id {
            lemma_first_with_id(tail, id);
            if let Some(issue) = first_with_id(tail, id) {
                let p = choose|p: int|
                    0 <= p < tail.len() && (#[trigger] tail[p]) == issue && issue.id == id
                        && forall|q: int| 0 <= q < p ==> (#[trigger] tail[q]).id != id;
                assert(issues[p + 1] == issue);
                assert forall|q: int| 0 <= q < p + 1 implies (#[trigger] issues[q]).id != id by {
                    if q > 0 {
                        assert(tail[q - 1] == issues[q]);
                    }
                }
            } else {
                assert forall|q: int| 0 <= q < issues.len() implies (#[trigger] issues[q]).id
                    != id by {
                    if q > 0 {
                        assert(tail[q - 1] == issues[q]);
                    }
                }
            }
        }
    }
}

/// The retry of an issue is due. Where the issues could not be had, it waits for another, one attempt
/// further, with what was wrong; where the issue is not among them, it is let go; where it may be taken
/// up it is, as the attempt that was waited for; and otherwise it waits for another retry.
pub proof fn lemma_due_retry(
    state: OrchestratorView,
    id: Seq<char>,
    fetched: Result<Seq<IssueView>, ErrorView>,
    now: Timestamp,
    current_dir: CurrentDirView,
)
    requires
        state.retrying.dom().contains(id),
        state.retrying[id].attempt < u32::MAX,
    ensures
        ({
            let (next, effects) = state.retrying_now(id, fetched, now, current_dir);
            let retry = state.retrying[id];
            let rest = OrchestratorView { retrying: state.retrying.remove(id), ..state };
            let again = (retry.attempt + 1) as u32;
            let delay = retry_delay(again, state.config.agent.max_retry_backoff_ms);
            match fetched {
                Err(error) => {
                    &&& waits_for_retry(
                        next,
                        effects,
                        id,
                        retry.identifier,
                        again,
                        Some("retry poll failed: "@ + error_text(error)),
                        delay,
                        now,
                    )
                    &&& next.running == state.running
                },
                Ok(issues) => {
                    &&& (forall|q: int| 0 <= q < issues.len() ==> (#[trigger] issues[q]).id != id)
                        ==> {
                        &&& !next.claimed.contains(id)
                        &&& !next.retrying.dom().contains(id)
                        &&& next.running == state.running
                        &&& effects.len() == 0
                    }
                    &&& forall|p: int|
                        0 <= p < issues.len() && (#[trigger] issues[p]).id == id && (forall|q: int|
                            0 <= q < p ==> (#[trigger] issues[q]).id != id) ==> if rest.may_take_up(
                            issues[p],
                            Some(id),
                        ) {
                            &&& next.running.dom().contains(id)
                            &&& next.running[id].entry.issue == issues[p]
                            &&& next.running[id].entry.retry_attempt == Some(retry.attempt)
                            &&& next.running[id].entry.started_at == now
                            &&& effects == seq![
                                EffectView::StartWorker {
                                    issue: issues[p],
                                    attempt: Some(retry.attempt),
                                },
                            ]
                        } else {
                            &&& waits_for_retry(
                                next,
                                effects,
                                id,
                                issues[p].identifier,
                                again,
                                Some("no available orchestrator slots"@),
                                delay,
                                now,
                            )
                            &&& next.running == state.running
                        }
                },
            }
        }),
{
    let (next, effects) = state.retrying_now(id, fetched, now, current_dir);
    let rest = OrchestratorView { retrying: state.retrying.remove(id), ..state };
    if let Ok(issues) = fetched {
        lemma_first_with_id(issues, id);
        assert forall|p: int|
            0 <= p < issues.len() && (#[trigger] issues[p]).id == id && (forall|q: int|
                0 <= q < p ==> (#[trigger] issues[q]).id != id) implies first_with_id(issues, id)
            == Some(issues[p]) by {
            match first_with_id(issues, id) {
                Some(issue) => {
                    let r = choose|r: int|
                        0 <= r < issues.len() && (#[trigger] issues[r]) == issue && issue.id == id
                            && forall|q: int| 0 <= q < r ==> (#[trigger] issues[q]).id != id;
                    if r < p {
                        assert(issues[r].id != id);
                    } else if p < r {
                        assert(issues[p].id != id);
                    }
                },
                None => {},
            }
        }
        if let Some(issue) = first_with_id(issues, id) {
            if rest.may_take_up(issue, Some(id)) {
                assert(effects =~= seq![
                    EffectView::StartWorker { issue, attempt: Some(state.retrying[id].attempt) },
                ]);
            }
        }
    }
}

/// A retry that nobody waits for changes nothing.
pub proof fn lemma_stray_retry(
    state: OrchestratorView,
    id: Seq<char>,
    fetched: Result<Seq<IssueView>, ErrorView>,
    now: Timestamp,
    current_dir: CurrentDirView,
)
    requires
        !state.retrying.dom().contains(id),
    ensures
        state.retrying_now(id, fetched, now, current_dir) == (state, Seq::<EffectView>::empty()),
{
}

// ---------------------------------------------------------------------------
// News
// ---------------------------------------------------------------------------

/// A session tells its news: the run notes the event, when it came, the process, the thread, the turn and
/// the session, and of the message and the number of turns what is told; the totals grow by what the
/// session has used beyond what it told before, and the rate limits are the last that were told.
pub proof fn lemma_news_of_a_session(state: OrchestratorView, update: SessionUpdateView)
    requires
        state.running.dom().contains(update.issue_id),
        state.can_hear(update),
    ensures
        ({
            let id = update.issue_id;
            let next = state.hearing(update);
            let old_run = state.running[id];
            let run = next.running[id];
            let old_live = old_run.entry.session;
            let live = run.entry.session;
            &&& next.running.dom() == state.running.dom()
            &&& forall|other: Seq<char>|
                other != id && state.running.dom().contains(other)
                    ==> #[trigger] next.running[other] == state.running[other]
            &&& next.config == state.config
            &&& next.claimed == state.claimed
            &&& next.retrying == state.retrying
            &&& next.completed == state.completed
            &&& next.refresh_queued == state.refresh_queued
            &&& next.totals.millis_running == state.totals.millis_running
            &&& run.stop_reason == old_run.stop_reason
            &&& run.entry.issue == old_run.entry.issue
            &&& run.entry.issue_id == old_run.entry.issue_id
            &&& run.entry.issue_identifier == old_run.entry.issue_identifier
            &&& run.entry.workspace_path == old_run.entry.workspace_path
            &&& run.entry.log_path == old_run.entry.log_path
            &&& run.entry.retry_attempt == old_run.entry.retry_attempt
            &&& run.entry.started_at == old_run.entry.started_at
            &&& live.last_codex_event == Some(update.event)
            &&& live.last_codex_timestamp == Some(update.at)
            &&& live.codex_app_server_pid == update.pid
            &&& live.thread_id == update.thread_id
            &&& live.turn_id == update.turn_id
            &&& live.session_id == update.session_id
            &&& live.last_codex_message == if update.message is Some {
                update.message
            } else {
                old_live.last_codex_message
            }
            &&& live.turn_count == if update.turn_count is Some {
                update.turn_count.unwrap()
            } else {
                old_live.turn_count
            }
            &&& next.rate_limits == if update.rate_limits is Some {
                update.rate_limits
            } else {
                state.rate_limits
            }
            &&& run.entry.last_error == if update.event == "turn_failed"@ || update.event
                == "turn_cancelled"@ || update.event == "turn_input_required"@ || update.event
                == "startup_failed"@ {
                Some(
                    if update.message is Some {
                        update.message.unwrap()
                    } else {
                        seq![]
                    },
                )
            } else {
                old_run.entry.last_error
            }
            &&& run.entry.recent_events.len() == if old_run.entry.recent_events.len() >= 20 {
                20
            } else {
                (old_run.entry.recent_events.len() + 1) as nat
            }
            &&& run.entry.recent_events.last() == (RecentEventView {
                at: update.at,
                event: update.event,
                message: if update.message is Some {
                    update.message.unwrap()
                } else {
                    seq![]
                },
            })
            &&& forall|k: int|
                1 <= k < run.entry.recent_events.len()
                    ==> #[trigger] run.entry.recent_events[run.entry.recent_events.len() - 1 - k]
                    == old_run.entry.recent_events[old_run.entry.recent_events.len() - k]
            &&& match update.absolute_tokens {
                None => {
                    &&& next.totals == state.totals
                    &&& live.codex_input_tokens == old_live.codex_input_tokens
                    &&& live.codex_output_tokens == old_live.codex_output_tokens
                    &&& live.codex_total_tokens == old_live.codex_total_tokens
                    &&& live.last_reported_input_tokens == old_live.last_reported_input_tokens
                    &&& live.last_reported_output_tokens == old_live.last_reported_output_tokens
                    &&& live.last_reported_total_tokens == old_live.last_reported_total_tokens
                },
                Some(tokens) => {
                    &&& live.codex_input_tokens == tokens.input_tokens
                    &&& live.codex_output_tokens == tokens.output_tokens
                    &&& live.codex_total_tokens == tokens.total_tokens
                    &&& live.last_reported_input_tokens == tokens.input_tokens
                    &&& live.last_reported_output_tokens == tokens.output_tokens
                    &&& live.last_reported_total_tokens == tokens.total_tokens
                    &&& next.totals.input_tokens - state.totals.input_tokens == if tokens.input_tokens
                        > old_live.last_reported_input_tokens {
                        tokens.input_tokens - old_live.last_reported_input_tokens
                    } else {
                        0
                    }
                    &&& next.totals.output_tokens - state.totals.output_tokens
                        == if tokens.output_tokens > old_live.last_reported_output_tokens {
                        tokens.output_tokens - old_live.last_reported_output_tokens
                    } else {
                        0
                    }
                    &&& next.totals.total_tokens - state.totals.total_tokens == if tokens.total_tokens
                        > old_live.last_reported_total_tokens {
                        tokens.total_tokens - old_live.last_reported_total_tokens
                    } else {
                        0
                    }
                },
            }
        }),
{
    let next = state.hearing(update);
    assert(next.running.dom() =~= state.running.dom());
}

/// News of an issue that does not run change nothing.
pub proof fn lemma_stray_news(state: OrchestratorView, update: SessionUpdateView)
    requires
        !state.running.dom().contains(update.issue_id),
    ensures
        state.hearing(update) == state,
{
}

// ---------------------------------------------------------------------------
// Bounds
// ---------------------------------------------------------------------------

/// News can be taken in unless a total would leave 64 bits with what the session has used beyond what it
/// told before.
pub proof fn lemma_news_that_can_be_heard(state: OrchestratorView, update: SessionUpdateView)
    ensures
        !state.running.dom().contains(update.issue_id) || update.absolute_tokens is None
            ==> state.can_hear(update),
        state.running.dom().contains(update.issue_id) && update.absolute_tokens is Some ==> ({
            let live = state.running[update.issue_id].entry.session;
            let tokens = update.absolute_tokens.unwrap();
            state.can_hear(update) <==> {
                &&& tokens.input_tokens <= live.last_reported_input_tokens
                    || state.totals.input_tokens + tokens.input_tokens
                    - live.last_reported_input_tokens <= u64::MAX
                &&& tokens.output_tokens <= live.last_reported_output_tokens
                    || state.totals.output_tokens + tokens.output_tokens
                    - live.last_reported_output_tokens <= u64::MAX
                &&& tokens.total_tokens <= live.last_reported_total_tokens
                    || state.totals.total_tokens + tokens.total_tokens
                    - live.last_reported_total_tokens <= u64::MAX
            }
        }),
{
}

/// A run can end if no run of the issue can be counted no further, and the time of the retry, where there
/// is one, can be told.
pub proof fn lemma_runs_that_can_end(
    state: OrchestratorView,
    outcome: WorkerOutcomeView,
    now: Timestamp,
)
    ensures
        !state.running.dom().contains(outcome.issue.id) ==> state.can_end(outcome, now),
        state.running.dom().contains(outcome.issue.id) ==> ({
            let run = state.running[outcome.issue.id];
            let attempt = match run.entry.retry_attempt {
                Some(n) => n + 1,
                None => 1,
            };
            let delay = if run.stop_reason is None && outcome.exit == WorkerExit::Succeeded {
                1_000
            } else {
                retry_delay(attempt as u32, state.config.agent.max_retry_backoff_ms)
            };
            state.can_end(outcome, now) <==> {
                &&& attempt <= u32::MAX
                &&& run.stop_reason == Some(StopReason::Terminal) || run.stop_reason == Some(
                    StopReason::NonActive,
                ) || now.can_add_millis(delay as i64)
            }
        }),
{
}

/// A retry that is due can be handled unless it leads to another, and that can be counted no further or its
/// time cannot be told.
pub proof fn lemma_retries_that_can_be_made(
    state: OrchestratorView,
    id: Seq<char>,
    fetched: Result<Seq<IssueView>, ErrorView>,
    now: Timestamp,
)
    ensures
        !state.retrying.dom().contains(id) ==> state.can_retry(id, fetched, now),
        state.retrying.dom().contains(id) ==> ({
            let attempt = state.retrying[id].attempt + 1;
            let rest = OrchestratorView { retrying: state.retrying.remove(id), ..state };
            let again = match fetched {
                Err(_) => true,
                Ok(issues) => first_with_id(issues, id) is Some && !rest.may_take_up(
                    first_with_id(issues, id).unwrap(),
                    Some(id),
                ),
            };
            state.can_retry(id, fetched, now) <==> !again || (attempt <= u32::MAX
                && now.can_add_millis(
                retry_delay(attempt as u32, state.config.agent.max_retry_backoff_ms) as i64,
            ))
        }),
{
}

/// A scheduler that knows of no issue has its configuration and nothing else.
pub proof fn lemma_idle(config: EffectiveConfigView)
    ensures
        idle(config).config == config,
        idle(config).running.dom() == Set::<Seq<char>>::empty(),
        idle(config).claimed == Set::<Seq<char>>::empty(),
        idle(config).retrying.dom() == Set::<Seq<char>>::empty(),
        idle(config).completed == Set::<Seq<char>>::empty(),
        idle(config).totals.input_tokens == 0,
        idle(config).totals.output_tokens == 0,
        idle(config).totals.total_tokens == 0,
        idle(config).totals.millis_running == 0,
        idle(config).rate_limits is None,
        !idle(config).refresh_queued,
{
    assert(idle(config).running.dom() =~= Set::<Seq<char>>::empty());
    assert(idle(config).retrying.dom() =~= Set::<Seq<char>>::empty());
}

} // verus!
