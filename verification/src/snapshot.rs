//! What the scheduler shows of its state.
use vstd::prelude::*;

use crate::duplicate::Duplicate;
use crate::json::JsonView;
use crate::orchestrator::{OrchestratorState, RunningRuntimeView};
use crate::path::{join_path, path_join};
use crate::string_map::{lemma_deep_insert, StringMap};
use crate::time::{chrono_millis_between, Timestamp};
use crate::types::{
    AttemptDebugInfo, CodexTotals, IssueDebugSnapshot, IssueDebugSnapshotView, IssueRunningDebugInfo,
    IssueRunningDebugInfoView, LiveSession, LiveSessionView, LogDebugInfo, LogDebugInfoView,
    LogReference, LogReferenceView, RetryEntry, RetryEntryView, RunningEntry, RunningEntryView,
    RuntimeRunningRow, RuntimeRunningRowView, RuntimeSnapshot, RuntimeSnapshotView, SnapshotCounts,
    TokenUsage, WorkspaceDebugInfo, WorkspaceDebugInfoView,
};
use crate::workspace::{sanitize_issue_identifier, workspace_key};

verus! {

// ---------------------------------------------------------------------------
// The state of the service
// ---------------------------------------------------------------------------

/// The tokens that a session has used.
pub open spec fn session_tokens(session: LiveSessionView) -> TokenUsage {
    TokenUsage {
        input_tokens: session.codex_input_tokens,
        output_tokens: session.codex_output_tokens,
        total_tokens: session.codex_total_tokens,
    }
}

/// The last message of a session, empty where there is none.
pub open spec fn session_message(session: LiveSessionView) -> Seq<char> {
    match session.last_codex_message {
        Some(message) => message,
        None => seq![],
    }
}

/// What is shown of a run.
pub open spec fn running_row(entry: RunningEntryView) -> RuntimeRunningRowView {
    RuntimeRunningRowView {
        issue_id: entry.issue_id,
        issue_identifier: entry.issue_identifier,
        state: entry.issue.state,
        session_id: entry.session.session_id,
        turn_count: entry.session.turn_count,
        last_event: entry.session.last_codex_event,
        last_message: session_message(entry.session),
        started_at: entry.started_at,
        last_event_at: entry.session.last_codex_timestamp,
        tokens: session_tokens(entry.session),
    }
}

/// The time that the runs have taken so far, all together, in milliseconds.
pub open spec fn active_millis(
    running: Seq<(Seq<char>, RunningRuntimeView)>,
    now: Timestamp,
) -> int
    decreases running.len(),
{
    if running.len() == 0 {
        0
    } else {
        active_millis(running.drop_last(), now) + chrono_millis_between(
            running.last().1.entry.started_at,
            now,
        )
    }
}

/// The time that the runs have taken, those that have ended and those that go on; as much of it as
/// fits in 64 bits. Time does not run backwards.
pub open spec fn total_millis(ended: u64, active: int) -> u64 {
    if active <= 0 {
        ended
    } else if ended + active > u64::MAX {
        u64::MAX
    } else {
        (ended + active) as u64
    }
}

/// The state of the service at one point in time, given its runs and retries in some order.
pub open spec fn runtime_snapshot(
    running: Seq<(Seq<char>, RunningRuntimeView)>,
    retrying: Seq<(Seq<char>, RetryEntryView)>,
    totals: CodexTotals,
    rate_limits: Option<JsonView>,
    now: Timestamp,
) -> RuntimeSnapshotView {
    RuntimeSnapshotView {
        generated_at: now,
        counts: SnapshotCounts {
            running: running.len() as usize,
            retrying: retrying.len() as usize,
        },
        running: running.map_values(
            |entry: (Seq<char>, RunningRuntimeView)| running_row(entry.1.entry),
        ),
        retrying: retrying.map_values(|entry: (Seq<char>, RetryEntryView)| entry.1),
        codex_totals: CodexTotals {
            millis_running: total_millis(totals.millis_running, active_millis(running, now)),
            ..totals
        },
        rate_limits,
    }
}

fn count_session_tokens(session: &LiveSession) -> (r: TokenUsage)
    ensures
        r == session_tokens(session@),
{
    TokenUsage {
        input_tokens: session.codex_input_tokens,
        output_tokens: session.codex_output_tokens,
        total_tokens: session.codex_total_tokens,
    }
}

fn copy_session_message(session: &LiveSession) -> (r: String)
    ensures
        r@ == session_message(session@),
{
    match &session.last_codex_message {
        Some(message) => message.clone(),
        None => {
            let r = String::new();
            proof {
                assert(r@ =~= seq![]);
            }
            r
        },
    }
}

fn show_run(entry: &RunningEntry) -> (r: RuntimeRunningRow)
    ensures
        r@ == running_row(entry@),
{
    RuntimeRunningRow {
        issue_id: entry.issue_id.clone(),
        issue_identifier: entry.issue_identifier.clone(),
        state: entry.issue.state.clone(),
        session_id: entry.session.session_id.duplicate(),
        turn_count: entry.session.turn_count,
        last_event: entry.session.last_codex_event.duplicate(),
        last_message: copy_session_message(&entry.session),
        started_at: entry.started_at,
        last_event_at: entry.session.last_codex_timestamp,
        tokens: count_session_tokens(&entry.session),
    }
}

fn sum_active_millis(state: &OrchestratorState, now: Timestamp) -> (r: i128)
    ensures
        r == active_millis(state.running.entry_views(), now),
{
    let n = state.running.size();
    let ghost entries = state.running.entry_views();
    let mut sum: i128 = 0;
    for i in 0..n
        invariant
            n == entries.len(),
            n == state.running.entries().len(),
            entries == state.running.entry_views(),
            sum == active_millis(entries.take(i as int), now),
            -0x8000_0000_0000_0000 * i <= sum <= 0x8000_0000_0000_0000 * i,
    {
        let run = state.running.value_at(i);
        proof {
            assert(entries.take(i + 1).drop_last() =~= entries.take(i as int));
            assert(entries.take(i + 1).last() == entries[i as int]);
            assert(entries[i as int].1 == run@);
        }
        let elapsed = now.millis_since(run.entry.started_at);
        sum = sum + elapsed as i128;
    }
    proof {
        assert(entries.take(n as int) =~= entries);
    }
    sum
}

/// The state of the service at one point in time.
pub fn build_runtime_snapshot(state: &OrchestratorState, now: Timestamp) -> (r: RuntimeSnapshot)
    ensures
        r@ == runtime_snapshot(
            state.running.entry_views(),
            state.retry_attempts.entry_views(),
            state@.totals,
            state@.rate_limits,
            now,
        ),
{
    let n = state.running.size();
    let mut running: Vec<RuntimeRunningRow> = Vec::new();
    for i in 0..n
        invariant
            n == state.running.entries().len(),
            running@.len() == i,
            forall|j: int|
                0 <= j < i ==> (#[trigger] running@[j])@ == running_row(
                    state.running.entries()[j].1@.entry,
                ),
    {
        running.push(show_run(&state.running.value_at(i).entry));
    }
    let m = state.retry_attempts.size();
    let mut retrying: Vec<RetryEntry> = Vec::new();
    for i in 0..m
        invariant
            m == state.retry_attempts.entries().len(),
            retrying@.len() == i,
            forall|j: int|
                0 <= j < i ==> (#[trigger] retrying@[j])@ == state.retry_attempts.entries()[j].1@,
    {
        retrying.push(state.retry_attempts.value_at(i).clone());
    }
    proof {
        assert(running.deep_view() =~= state.running.entry_views().map_values(
            |entry: (Seq<char>, RunningRuntimeView)| running_row(entry.1.entry),
        ));
        assert(retrying.deep_view() =~= state.retry_attempts.entry_views().map_values(
            |entry: (Seq<char>, RetryEntryView)| entry.1,
        ));
    }
    let active = sum_active_millis(state, now);
    let ended = state.codex_totals.millis_running;
    let millis_running = if active <= 0 {
        ended
    } else if active > (u64::MAX - ended) as i128 {
        u64::MAX
    } else {
        ended + active as u64
    };
    RuntimeSnapshot {
        generated_at: now,
        counts: SnapshotCounts { running: n, retrying: m },
        running,
        retrying,
        codex_totals: CodexTotals {
            input_tokens: state.codex_totals.input_tokens,
            output_tokens: state.codex_totals.output_tokens,
            total_tokens: state.codex_totals.total_tokens,
            millis_running,
        },
        rate_limits: state.rate_limits.duplicate(),
    }
}

// ---------------------------------------------------------------------------
// Single issues
// ---------------------------------------------------------------------------

/// All that is told of an issue that runs.
pub open spec fn running_details(entry: RunningEntryView, retry: Option<RetryEntryView>) ->
    IssueDebugSnapshotView {
    IssueDebugSnapshotView {
        issue_identifier: entry.issue_identifier,
        issue_id: entry.issue_id,
        status: "running"@,
        workspace: WorkspaceDebugInfoView { path: entry.workspace_path },
        attempts: AttemptDebugInfo {
            restart_count: match entry.retry_attempt {
                Some(attempt) => attempt,
                None => 0,
            },
            current_retry_attempt: match retry {
                Some(retry) => Some(retry.attempt),
                None => None,
            },
        },
        running: Some(
            IssueRunningDebugInfoView {
                session_id: entry.session.session_id,
                turn_count: entry.session.turn_count,
                state: entry.issue.state,
                started_at: entry.started_at,
                last_event: entry.session.last_codex_event,
                last_message: session_message(entry.session),
                last_event_at: entry.session.last_codex_timestamp,
                tokens: session_tokens(entry.session),
            },
        ),
        retry,
        logs: LogDebugInfoView {
            codex_session_logs: match entry.log_path {
                Some(path) => seq![LogReferenceView { label: "latest"@, path, url: None }],
                None => seq![],
            },
        },
        recent_events: entry.recent_events,
        last_error: entry.last_error,
        tracking: seq![],
    }
}

/// All that is told of an issue that waits for a retry.
pub open spec fn retrying_details(entry: RetryEntryView, root: Seq<char>) -> IssueDebugSnapshotView {
    IssueDebugSnapshotView {
        issue_identifier: entry.identifier,
        issue_id: entry.issue_id,
        status: "retrying"@,
        workspace: WorkspaceDebugInfoView { path: path_join(root, workspace_key(entry.identifier)) },
        attempts: AttemptDebugInfo {
            restart_count: if entry.attempt == 0 {
                0
            } else {
                (entry.attempt - 1) as u32
            },
            current_retry_attempt: Some(entry.attempt),
        },
        running: None,
        retry: Some(entry),
        logs: LogDebugInfoView { codex_session_logs: seq![] },
        recent_events: seq![],
        last_error: entry.error,
        tracking: seq![],
    }
}

/// The value of a key, where it has one.
pub open spec fn lookup<V>(map: Map<Seq<char>, V>, key: Seq<char>) -> Option<V> {
    if map.contains_key(key) {
        Some(map[key])
    } else {
        None
    }
}

/// What is told of issues that run, by their identifiers; of two with the same identifier the later
/// is told of.
pub open spec fn details_of_running(
    running: Seq<(Seq<char>, RunningRuntimeView)>,
    retrying: Map<Seq<char>, RetryEntryView>,
) -> Map<Seq<char>, IssueDebugSnapshotView>
    decreases running.len(),
{
    if running.len() == 0 {
        Map::empty()
    } else {
        let entry = running.last().1.entry;
        details_of_running(running.drop_last(), retrying).insert(
            entry.issue_identifier,
            running_details(entry, lookup(retrying, entry.issue_id)),
        )
    }
}

/// What is told of issues, with those that wait for a retry; what is told of an identifier already
/// stays.
pub open spec fn details_with_retrying(
    details: Map<Seq<char>, IssueDebugSnapshotView>,
    retrying: Seq<(Seq<char>, RetryEntryView)>,
    root: Seq<char>,
) -> Map<Seq<char>, IssueDebugSnapshotView>
    decreases retrying.len(),
{
    if retrying.len() == 0 {
        details
    } else {
        let before = details_with_retrying(details, retrying.drop_last(), root);
        let entry = retrying.last().1;
        if before.contains_key(entry.identifier) {
            before
        } else {
            before.insert(entry.identifier, retrying_details(entry, root))
        }
    }
}

fn tell_running(entry: &RunningEntry, retry: Option<RetryEntry>) -> (r: IssueDebugSnapshot)
    ensures
        r@ == running_details(entry@, retry.deep_view()),
{
    let mut logs: Vec<LogReference> = Vec::new();
    match &entry.log_path {
        Some(path) => {
            logs.push(LogReference { label: "latest".to_owned(), path: path.clone(), url: None });
        },
        None => {},
    }
    let current_retry_attempt = match &retry {
        Some(retry) => Some(retry.attempt),
        None => None,
    };
    let r = IssueDebugSnapshot {
        issue_identifier: entry.issue_identifier.clone(),
        issue_id: entry.issue_id.clone(),
        status: "running".to_owned(),
        workspace: WorkspaceDebugInfo { path: entry.workspace_path.clone() },
        attempts: AttemptDebugInfo {
            restart_count: entry.retry_attempt.unwrap_or(0),
            current_retry_attempt,
        },
        running: Some(
            IssueRunningDebugInfo {
                session_id: entry.session.session_id.duplicate(),
                turn_count: entry.session.turn_count,
                state: entry.issue.state.clone(),
                started_at: entry.started_at,
                last_event: entry.session.last_codex_event.duplicate(),
                last_message: copy_session_message(&entry.session),
                last_event_at: entry.session.last_codex_timestamp,
                tokens: count_session_tokens(&entry.session),
            },
        ),
        retry,
        logs: LogDebugInfo { codex_session_logs: logs },
        recent_events: entry.recent_events.duplicate(),
        last_error: entry.last_error.duplicate(),
        tracking: StringMap::new(),
    };
    proof {
        assert(r@.tracking =~= seq![]);
        assert(r@.logs.codex_session_logs =~= running_details(
            entry@,
            retry.deep_view(),
        ).logs.codex_session_logs);
    }
    r
}

fn tell_retrying(entry: &RetryEntry, root: &str) -> (r: IssueDebugSnapshot)
    ensures
        r@ == retrying_details(entry@, root@),
{
    let key = sanitize_issue_identifier(entry.identifier.as_str());
    let r = IssueDebugSnapshot {
        issue_identifier: entry.identifier.clone(),
        issue_id: entry.issue_id.clone(),
        status: "retrying".to_owned(),
        workspace: WorkspaceDebugInfo { path: join_path(root, key.as_str()) },
        attempts: AttemptDebugInfo {
            restart_count: entry.attempt.saturating_sub(1),
            current_retry_attempt: Some(entry.attempt),
        },
        running: None,
        retry: Some(entry.clone()),
        logs: LogDebugInfo { codex_session_logs: Vec::new() },
        recent_events: Vec::new(),
        last_error: entry.error.duplicate(),
        tracking: StringMap::new(),
    };
    proof {
        assert(r@.tracking =~= seq![]);
        assert(r@.recent_events =~= seq![]);
        assert(r@.logs.codex_session_logs =~= seq![]);
    }
    r
}

/// All that is told of issues, by their identifiers.
pub fn build_issue_debug_map(state: &OrchestratorState) -> (r: StringMap<IssueDebugSnapshot>)
    ensures
        r.deep_view() == details_with_retrying(
            details_of_running(state.running.entry_views(), state@.retrying),
            state.retry_attempts.entry_views(),
            state@.config.workspace.root,
        ),
{
    let mut r: StringMap<IssueDebugSnapshot> = StringMap::new();
    let n = state.running.size();
    let ghost running = state.running.entry_views();
    let ghost retrying = state.retry_attempts.entry_views();
    proof {
        assert(r.deep_view() =~= details_of_running(running.take(0), state@.retrying));
    }
    for i in 0..n
        invariant
            n == running.len(),
            n == state.running.entries().len(),
            running == state.running.entry_views(),
            r.deep_view() == details_of_running(running.take(i as int), state@.retrying),
    {
        let run = state.running.value_at(i);
        proof {
            assert(running.take(i + 1).drop_last() =~= running.take(i as int));
            assert(running.take(i + 1).last() == running[i as int]);
            assert(running[i as int].1 == run@);
        }
        let retry = match state.retry_attempts.get(run.entry.issue_id.as_str()) {
            Some(retry) => Some(retry.clone()),
            None => None,
        };
        let details = tell_running(&run.entry, retry);
        proof {
            lemma_deep_insert(r@, run.entry.issue_identifier@, details);
        }
        let _ = r.insert(run.entry.issue_identifier.clone(), details);
    }
    let ghost base = r.deep_view();
    proof {
        assert(running.take(n as int) =~= running);
    }
    let m = state.retry_attempts.size();
    let root = state.config.workspace.root.as_str();
    for i in 0..m
        invariant
            m == retrying.len(),
            m == state.retry_attempts.entries().len(),
            retrying == state.retry_attempts.entry_views(),
            root@ == state@.config.workspace.root,
            r.deep_view() == details_with_retrying(base, retrying.take(i as int), root@),
    {
        let entry = state.retry_attempts.value_at(i);
        proof {
            assert(retrying.take(i + 1).drop_last() =~= retrying.take(i as int));
            assert(retrying.take(i + 1).last() == retrying[i as int]);
            assert(retrying[i as int].1 == entry@);
        }
        if !r.contains_key(entry.identifier.as_str()) {
            let details = tell_retrying(entry, root);
            proof {
                lemma_deep_insert(r@, entry.identifier@, details);
            }
            let _ = r.insert(entry.identifier.clone(), details);
        }
    }
    proof {
        assert(retrying.take(m as int) =~= retrying);
    }
    r
}

// ---------------------------------------------------------------------------
// Laws
// ---------------------------------------------------------------------------

/// Every run and every retry is shown, each once: there are as many rows as are counted.
pub proof fn lemma_snapshot_counts_its_rows(
    running: Seq<(Seq<char>, RunningRuntimeView)>,
    retrying: Seq<(Seq<char>, RetryEntryView)>,
    totals: CodexTotals,
    rate_limits: Option<JsonView>,
    now: Timestamp,
)
    requires
        running.len() <= usize::MAX,
        retrying.len() <= usize::MAX,
    ensures
        ({
            let shown = runtime_snapshot(running, retrying, totals, rate_limits, now);
            &&& shown.counts.running == shown.running.len() == running.len()
            &&& shown.counts.retrying == shown.retrying.len() == retrying.len()
            &&& shown.codex_totals.millis_running >= totals.millis_running
        }),
{
}

/// Every issue that runs or waits for a retry is told of under its identifier, and nothing else is.
pub proof fn lemma_every_issue_is_told_of(
    running: Seq<(Seq<char>, RunningRuntimeView)>,
    waiting: Map<Seq<char>, RetryEntryView>,
    retrying: Seq<(Seq<char>, RetryEntryView)>,
    root: Seq<char>,
    identifier: Seq<char>,
)
    ensures
        details_with_retrying(
            details_of_running(running, waiting),
            retrying,
            root,
        ).contains_key(identifier) == (is_shown_running(running, identifier) || is_shown_retrying(
            retrying,
            identifier,
        )),
    decreases retrying.len(),
{
    if retrying.len() == 0 {
        lemma_running_is_told_of(running, waiting, identifier);
        assert(!is_shown_retrying(retrying, identifier));
    } else {
        let before = retrying.drop_last();
        lemma_every_issue_is_told_of(running, waiting, before, root, identifier);
        if is_shown_retrying(before, identifier) {
            let i = choose|i: int|
                0 <= i < before.len() && (#[trigger] before[i]).1.identifier == identifier;
            assert(retrying[i] == before[i]);
        }
        if is_shown_retrying(retrying, identifier) {
            let i = choose|i: int|
                0 <= i < retrying.len() && (#[trigger] retrying[i]).1.identifier == identifier;
            if i < before.len() {
                assert(before[i] == retrying[i]);
            }
        }
        if retrying.last().1.identifier == identifier {
            assert(retrying[retrying.len() - 1].1.identifier == identifier);
        }
    }
}

/// Some run is about an issue with this identifier.
pub open spec fn is_shown_running(
    running: Seq<(Seq<char>, RunningRuntimeView)>,
    identifier: Seq<char>,
) -> bool {
    exists|i: int|
        0 <= i < running.len() && (#[trigger] running[i]).1.entry.issue_identifier == identifier
}

/// Some retry is of an issue with this identifier.
pub open spec fn is_shown_retrying(
    retrying: Seq<(Seq<char>, RetryEntryView)>,
    identifier: Seq<char>,
) -> bool {
    exists|i: int|
        0 <= i < retrying.len() && (#[trigger] retrying[i]).1.identifier == identifier
}

proof fn lemma_running_is_told_of(
    running: Seq<(Seq<char>, RunningRuntimeView)>,
    waiting: Map<Seq<char>, RetryEntryView>,
    identifier: Seq<char>,
)
    ensures
        details_of_running(running, waiting).contains_key(identifier) == is_shown_running(
            running,
            identifier,
        ),
    decreases running.len(),
{
    if running.len() > 0 {
        let before = running.drop_last();
        lemma_running_is_told_of(before, waiting, identifier);
        if is_shown_running(before, identifier) {
            let i = choose|i: int|
                0 <= i < before.len() && (#[trigger] before[i]).1.entry.issue_identifier
                    == identifier;
            assert(running[i] == before[i]);
        }
        if is_shown_running(running, identifier) {
            let i = choose|i: int|
                0 <= i < running.len() && (#[trigger] running[i]).1.entry.issue_identifier
                    == identifier;
            if i < before.len() {
                assert(before[i] == running[i]);
            }
        }
        if running.last().1.entry.issue_identifier == identifier {
            assert(running[running.len() - 1].1.entry.issue_identifier == identifier);
        }
    }
}

} // verus!
