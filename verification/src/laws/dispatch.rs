//! Which issues are taken up, and in which order.
use vstd::prelude::*;

use crate::orchestrator::{EffectView, OrchestratorView};
use crate::path::path_join;
use crate::queue::{dispatch_order, goes_first, lemma_dispatch_order_sorts};
use crate::text::{precedes, trimmed, unicode_lowercase};
use crate::time::Timestamp;
use crate::types::IssueView;
use crate::workspace::{workspace_key, CurrentDirView};

verus! {

/// An issue may be taken up if and only if it has an id, an identifier, a title and a state, its state
/// is listed as active and not as terminal, it is not to be done while a blocker is not known to be in a
/// terminal state, it does not run, it is not claimed but for the one that is allowed, and there is room
/// for one more run: among all, and among those whose issues are in its state.
pub proof fn lemma_may_take_up(state: OrchestratorView, issue: IssueView, allowed: Option<Seq<char>>)
    ensures
        state.may_take_up(issue, allowed) <==> {
            &&& issue.id.len() > 0
            &&& issue.identifier.len() > 0
            &&& issue.title.len() > 0
            &&& issue.state.len() > 0
            &&& exists|i: int|
                0 <= i < state.config.tracker.active_states.len() && unicode_lowercase(
                    trimmed(#[trigger] state.config.tracker.active_states[i]),
                ) == unicode_lowercase(trimmed(issue.state))
            &&& forall|i: int|
                0 <= i < state.config.tracker.terminal_states.len() ==> unicode_lowercase(
                    trimmed(#[trigger] state.config.tracker.terminal_states[i]),
                ) != unicode_lowercase(trimmed(issue.state))
            &&& unicode_lowercase(trimmed(issue.state)) == "todo"@ ==> forall|k: int|
                0 <= k < issue.blocked_by.len() ==> {
                    &&& (#[trigger] issue.blocked_by[k]).state is Some
                    &&& exists|i: int|
                        0 <= i < state.config.tracker.terminal_states.len() && unicode_lowercase(
                            trimmed(#[trigger] state.config.tracker.terminal_states[i]),
                        ) == unicode_lowercase(trimmed(issue.blocked_by[k].state.unwrap()))
                }
            &&& !state.running.dom().contains(issue.id)
            &&& !state.claimed.contains(issue.id) || allowed == Some(issue.id)
            &&& state.running.dom().len() < state.config.agent.max_concurrent_agents
            &&& state.running.dom().filter(
                |id: Seq<char>|
                    unicode_lowercase(trimmed(state.running[id].entry.issue.state))
                        == unicode_lowercase(trimmed(issue.state)),
            ).len() < (if state.config.agent.max_concurrent_agents_by_state.dom().contains(
                unicode_lowercase(trimmed(issue.state)),
            ) {
                state.config.agent.max_concurrent_agents_by_state[unicode_lowercase(
                    trimmed(issue.state),
                )]
            } else {
                state.config.agent.max_concurrent_agents
            })
        },
{
    assert(state.running_in(issue.state) =~= state.running.dom().filter(
        |id: Seq<char>|
            unicode_lowercase(trimmed(state.running[id].entry.issue.state)) == unicode_lowercase(
                trimmed(issue.state),
            ),
    ));
    assert forall|k: int| 0 <= k < issue.blocked_by.len() implies state.still_blocks(
        #[trigger] issue.blocked_by[k],
    ) == !(issue.blocked_by[k].state is Some && exists|i: int|
        0 <= i < state.config.tracker.terminal_states.len() && unicode_lowercase(
            trimmed(#[trigger] state.config.tracker.terminal_states[i]),
        ) == unicode_lowercase(trimmed(issue.blocked_by[k].state.unwrap()))) by {}
}

/// An issue that is to be done and has a blocker whose state is not told, or is none of those that are
/// listed as terminal, is not taken up, and no worker is started on it: neither when issues are offered
/// nor when its retry is due.
pub proof fn lemma_unfinished_blockers_hold_an_issue_back(
    state: OrchestratorView,
    issue: IssueView,
    k: int,
    issues: Seq<IssueView>,
    now: Timestamp,
    current_dir: CurrentDirView,
)
    requires
        unicode_lowercase(trimmed(issue.state)) == "todo"@,
        0 <= k < issue.blocked_by.len(),
        match issue.blocked_by[k].state {
            Some(blocking) => forall|i: int|
                0 <= i < state.config.tracker.terminal_states.len() ==> unicode_lowercase(
                    trimmed(#[trigger] state.config.tracker.terminal_states[i]),
                ) != unicode_lowercase(trimmed(blocking)),
            None => true,
        },
    ensures
        forall|allowed: Option<Seq<char>>| !#[trigger] state.may_take_up(issue, allowed),
        forall|j: int, attempt: Option<u32>|
            0 <= j < state.taking_up_all(issues, now, current_dir).1.len()
                ==> #[trigger] state.taking_up_all(issues, now, current_dir).1[j] != (
            #[trigger] started_on(issue, attempt)),
        forall|j: int, attempt: Option<u32>, id: Seq<char>|
            0 <= j < state.retrying_now(id, Ok(issues), now, current_dir).1.len()
                ==> #[trigger] state.retrying_now(id, Ok(issues), now, current_dir).1[j] != (
            #[trigger] started_on(issue, attempt)),
{
    assert forall|allowed: Option<Seq<char>>| !#[trigger] state.may_take_up(issue, allowed) by {
        lemma_may_take_up(state, issue, allowed);
    }
    lemma_blocked_is_not_started(state, issue, k, issues, now, current_dir);
    assert forall|j: int, attempt: Option<u32>, id: Seq<char>|
        0 <= j < state.retrying_now(id, Ok(issues), now, current_dir).1.len()
            implies #[trigger] state.retrying_now(id, Ok(issues), now, current_dir).1[j] != (
    #[trigger] started_on(issue, attempt)) by {
        let rest = OrchestratorView { retrying: state.retrying.remove(id), ..state };
        lemma_may_take_up(rest, issue, Some(id));
    }
}

/// A worker is started on an issue.
pub open spec fn started_on(issue: IssueView, attempt: Option<u32>) -> EffectView {
    EffectView::StartWorker { issue, attempt }
}

proof fn lemma_blocked_is_not_started(
    state: OrchestratorView,
    issue: IssueView,
    k: int,
    issues: Seq<IssueView>,
    now: Timestamp,
    current_dir: CurrentDirView,
)
    requires
        unicode_lowercase(trimmed(issue.state)) == "todo"@,
        0 <= k < issue.blocked_by.len(),
        match issue.blocked_by[k].state {
            Some(blocking) => forall|i: int|
                0 <= i < state.config.tracker.terminal_states.len() ==> unicode_lowercase(
                    trimmed(#[trigger] state.config.tracker.terminal_states[i]),
                ) != unicode_lowercase(trimmed(blocking)),
            None => true,
        },
    ensures
        forall|j: int, attempt: Option<u32>|
            0 <= j < state.taking_up_all(issues, now, current_dir).1.len()
                ==> #[trigger] state.taking_up_all(issues, now, current_dir).1[j] != (
            #[trigger] started_on(issue, attempt)),
    decreases issues.len(),
{
    if issues.len() > 0 && state.free_slots() > 0 {
        let (mid, effects) = if state.may_take_up(issues[0], None) {
            state.taking_up(issues[0], None, now, current_dir)
        } else {
            (state, seq![])
        };
        lemma_may_take_up(state, issue, None);
        lemma_blocked_is_not_started(mid, issue, k, issues.drop_first(), now, current_dir);
        let more = mid.taking_up_all(issues.drop_first(), now, current_dir).1;
        assert forall|j: int, attempt: Option<u32>|
            0 <= j < (effects + more).len() implies #[trigger] (effects + more)[j] != (
        #[trigger] started_on(issue, attempt)) by {
            if j >= effects.len() {
                assert((effects + more)[j] == more[j - effects.len()]);
            }
        }
    }
}

/// Taking up an issue begins a run on it, from now and with nothing told of yet, in the directory of the
/// workspace root that its identifier names; claims it; ends its retry; and starts a worker on it.
/// Nothing else changes.
pub proof fn lemma_taking_up(
    state: OrchestratorView,
    issue: IssueView,
    attempt: Option<u32>,
    now: Timestamp,
    current_dir: CurrentDirView,
)
    ensures
        ({
            let (next, effects) = state.taking_up(issue, attempt, now, current_dir);
            let run = next.running[issue.id];
            &&& next.running.dom() == state.running.dom().insert(issue.id)
            &&& forall|id: Seq<char>|
                id != issue.id ==> #[trigger] next.running[id] == state.running[id]
            &&& run.stop_reason is None
            &&& run.entry.issue == issue
            &&& run.entry.issue_id == issue.id
            &&& run.entry.issue_identifier == issue.identifier
            &&& run.entry.retry_attempt == attempt
            &&& run.entry.started_at == now
            &&& run.entry.workspace_path == path_join(
                state.config.workspace.root,
                workspace_key(issue.identifier),
            )
            &&& match current_dir.absolute(state.config.workspace.root) {
                Ok(root) => run.entry.log_path == Some(
                    path_join(
                        path_join(
                            path_join(root, ".symphony_logs"@),
                            workspace_key(issue.identifier),
                        ),
                        "latest.log"@,
                    ),
                ),
                Err(_) => run.entry.log_path is None,
            }
            &&& run.entry.last_error is None
            &&& run.entry.recent_events.len() == 0
            &&& run.entry.session.session_id is None
            &&& run.entry.session.thread_id is None
            &&& run.entry.session.turn_id is None
            &&& run.entry.session.codex_app_server_pid is None
            &&& run.entry.session.last_codex_event is None
            &&& run.entry.session.last_codex_timestamp is None
            &&& run.entry.session.last_codex_message is None
            &&& run.entry.session.codex_input_tokens == 0
            &&& run.entry.session.codex_output_tokens == 0
            &&& run.entry.session.codex_total_tokens == 0
            &&& run.entry.session.last_reported_input_tokens == 0
            &&& run.entry.session.last_reported_output_tokens == 0
            &&& run.entry.session.last_reported_total_tokens == 0
            &&& run.entry.session.turn_count == 0
            &&& next.claimed == state.claimed.insert(issue.id)
            &&& next.retrying == state.retrying.remove(issue.id)
            &&& next.config == state.config
            &&& next.completed == state.completed
            &&& next.totals == state.totals
            &&& next.rate_limits == state.rate_limits
            &&& next.refresh_queued == state.refresh_queued
            &&& effects == if state.retrying.dom().contains(issue.id) {
                seq![
                    EffectView::AbortRetry { issue_id: issue.id },
                    EffectView::StartWorker { issue, attempt },
                ]
            } else {
                seq![EffectView::StartWorker { issue, attempt }]
            }
        }),
{
    let (next, effects) = state.taking_up(issue, attempt, now, current_dir);
    assert(next.running.dom() =~= state.running.dom().insert(issue.id));
    assert(effects =~= if state.retrying.dom().contains(issue.id) {
        seq![
            EffectView::AbortRetry { issue_id: issue.id },
            EffectView::StartWorker { issue, attempt },
        ]
    } else {
        seq![EffectView::StartWorker { issue, attempt }]
    });
}

/// One issue that is offered is taken up as a first attempt, where it may be, and passed over
/// otherwise; and offering issues one list after another is offering the lists in a row.
pub proof fn lemma_issues_are_offered_one_by_one(
    state: OrchestratorView,
    issue: IssueView,
    first: Seq<IssueView>,
    second: Seq<IssueView>,
    now: Timestamp,
    current_dir: CurrentDirView,
)
    ensures
        state.taking_up_all(seq![issue], now, current_dir) == if state.may_take_up(issue, None) {
            state.taking_up(issue, None, now, current_dir)
        } else {
            (state, Seq::<EffectView>::empty())
        },
        state.taking_up_all(first + second, now, current_dir) == ({
            let (mid, effects) = state.taking_up_all(first, now, current_dir);
            let (last, more) = mid.taking_up_all(second, now, current_dir);
            (last, effects + more)
        }),
{
    lemma_may_take_up(state, issue, None);
    let one = seq![issue];
    assert(one.drop_first() =~= seq![]);
    let (mid, effects) = state.taking_up(issue, None, now, current_dir);
    assert(mid.taking_up_all(one.drop_first(), now, current_dir).1 =~= seq![]);
    assert(effects + Seq::<EffectView>::empty() =~= effects);
    assert(Seq::<EffectView>::empty() + Seq::<EffectView>::empty() =~= Seq::<EffectView>::empty());
    assert(one[0] == issue);
    assert(state.taking_up_all(one.drop_first(), now, current_dir) == (
        state,
        Seq::<EffectView>::empty(),
    ));
    assert(mid.taking_up_all(one.drop_first(), now, current_dir) == (
        mid,
        Seq::<EffectView>::empty(),
    ));
    lemma_offered_in_a_row(state, first, second, now, current_dir);
}

proof fn lemma_offered_in_a_row(
    state: OrchestratorView,
    first: Seq<IssueView>,
    second: Seq<IssueView>,
    now: Timestamp,
    current_dir: CurrentDirView,
)
    ensures
        state.taking_up_all(first + second, now, current_dir) == ({
            let (mid, effects) = state.taking_up_all(first, now, current_dir);
            let (last, more) = mid.taking_up_all(second, now, current_dir);
            (last, effects + more)
        }),
    decreases first.len(),
{
    let all = first + second;
    if first.len() == 0 {
        assert(all =~= second);
        let more = state.taking_up_all(second, now, current_dir).1;
        assert(Seq::<EffectView>::empty() + more =~= more);
    } else if state.free_slots() == 0 {
        assert(Seq::<EffectView>::empty() + Seq::<EffectView>::empty() =~= Seq::<EffectView>::empty());
    } else {
        assert(all[0] == first[0]);
        assert(all.drop_first() =~= first.drop_first() + second);
        let (next, own) = if state.may_take_up(first[0], None) {
            state.taking_up(first[0], None, now, current_dir)
        } else {
            (state, seq![])
        };
        lemma_offered_in_a_row(next, first.drop_first(), second, now, current_dir);
        let (mid, effects) = next.taking_up_all(first.drop_first(), now, current_dir);
        let (last, more) = mid.taking_up_all(second, now, current_dir);
        assert(own + (effects + more) =~= (own + effects) + more);
    }
}

/// The milliseconds from 1970-01-01T00:00:00Z to the creation of an issue that tells of it.
pub open spec fn created_millis(issue: IssueView) -> int {
    issue.created_at.unwrap().secs() * 1000 + (issue.created_at.unwrap().subsec() as int) / 1_000_000
}

/// Of two issues the one is taken up first that has the smaller priority number, where having one comes
/// before having none; with the same priority the one that was created first, where having a time of
/// creation comes before having none; and then the one whose identifier comes first.
pub proof fn lemma_goes_first(a: IssueView, b: IssueView)
    ensures
        a.priority is Some && b.priority is Some && a.priority.unwrap() < b.priority.unwrap()
            ==> goes_first(a, b) && !goes_first(b, a),
        a.priority is Some && a.priority.unwrap() < i64::MAX && b.priority is None ==> goes_first(a, b)
            && !goes_first(b, a),
        a.priority == b.priority && a.created_at is Some && b.created_at is Some && created_millis(a)
            < created_millis(b) ==> goes_first(a, b) && !goes_first(b, a),
        a.priority == b.priority && a.created_at is Some && created_millis(a) < i64::MAX
            && b.created_at is None ==> goes_first(a, b) && !goes_first(b, a),
        a.priority == b.priority && a.created_at == b.created_at ==> goes_first(a, b) == precedes(
            a.identifier,
            b.identifier,
        ),
{
}

/// Issues are taken up by priority: in the order of dispatch none stands before one with a smaller
/// priority number, and none without a priority before one with a usual one; nor, with the same
/// priority, before one that was created earlier.
pub proof fn lemma_order_of_dispatch(issues: Seq<IssueView>, i: int, j: int)
    requires
        0 <= i < j < issues.len(),
    ensures
        dispatch_order(issues).len() == issues.len(),
        dispatch_order(issues).to_multiset() == issues.to_multiset(),
        ({
            let a = dispatch_order(issues)[i];
            let b = dispatch_order(issues)[j];
            &&& a.priority is Some && b.priority is Some ==> a.priority.unwrap() <= b.priority.unwrap()
            &&& a.priority is None && b.priority is Some ==> b.priority == Some(i64::MAX)
            &&& a.priority == b.priority && a.created_at is Some && b.created_at is Some
                ==> created_millis(a) <= created_millis(b)
            &&& a.priority == b.priority && a.created_at == b.created_at ==> !precedes(
                b.identifier,
                a.identifier,
            )
        }),
{
    lemma_dispatch_order_sorts(issues);
    let a = dispatch_order(issues)[i];
    let b = dispatch_order(issues)[j];
    assert(!goes_first(b, a));
}

} // verus!
