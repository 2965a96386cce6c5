//! What is told of the service and of its issues.
use vstd::prelude::*;

use crate::config::dispatch_problem;
use crate::error::{error_text, path_debug_text, ErrorView};
use crate::http::{
    error_view, event_json, issue_answer, issue_details_json, log_json, refresh_json, retries_html,
    retry_json, row_json, rows_html, run_details_json, snapshot_html, snapshot_json, state_answer,
    tokens_json, totals_json, SnapshotStoreView,
};
use crate::json::JsonView;
use crate::laws::values::holds;
use crate::orchestrator::RunningRuntimeView;
use crate::path::path_join;
use crate::service::{
    first_request, request_behind_refresh, service_reaction, NextTick, ServiceEvent,
    TickRequestView,
};
use crate::snapshot::{
    active_millis, details_of_running, details_with_retrying, retrying_details, running_details,
    running_row, runtime_snapshot,
};
use crate::text::decimal;
use crate::time::{chrono_display, chrono_millis_between, chrono_rfc3339_zulu, Timestamp};
use crate::types::{
    CodexTotals, EffectiveConfigView, IssueDebugSnapshotView, IssueRunningDebugInfoView,
    LogReferenceView, RecentEventView, RetryEntryView, RunningEntryView, RuntimeRunningRowView,
    RuntimeSnapshotView, TokenUsage,
};
use crate::workspace::workspace_key;

verus! {

// ---------------------------------------------------------------------------
// The state of the service
// ---------------------------------------------------------------------------

/// What is shown of a run is what it has: its issue, its session, its tokens, and its last message, which
/// is empty where there is none.
pub proof fn lemma_row_of_a_run(entry: RunningEntryView)
    ensures
        ({
            let row = running_row(entry);
            &&& row.issue_id == entry.issue_id
            &&& row.issue_identifier == entry.issue_identifier
            &&& row.state == entry.issue.state
            &&& row.session_id == entry.session.session_id
            &&& row.turn_count == entry.session.turn_count
            &&& row.last_event == entry.session.last_codex_event
            &&& entry.session.last_codex_message is Some ==> row.last_message
                == entry.session.last_codex_message.unwrap()
            &&& entry.session.last_codex_message is None ==> row.last_message.len() == 0
            &&& row.started_at == entry.started_at
            &&& row.last_event_at == entry.session.last_codex_timestamp
            &&& row.tokens.input_tokens == entry.session.codex_input_tokens
            &&& row.tokens.output_tokens == entry.session.codex_output_tokens
            &&& row.tokens.total_tokens == entry.session.codex_total_tokens
        }),
{
}

/// A snapshot shows each run and each retry once and in order, counts them, and has the totals of tokens
/// and the rate limits as they are. The time of the runs that go on is added to that of those that ended.
pub proof fn lemma_snapshot(
    running: Seq<(Seq<char>, RunningRuntimeView)>,
    retrying: Seq<(Seq<char>, RetryEntryView)>,
    totals: CodexTotals,
    rate_limits: Option<JsonView>,
    now: Timestamp,
)
    requires
        running.len() <= usize::MAX,
        retrying.len() <= usize::MAX,
    ensures
        ({
            let snapshot = runtime_snapshot(running, retrying, totals, rate_limits, now);
            &&& snapshot.generated_at == now
            &&& snapshot.counts.running == running.len()
            &&& snapshot.counts.retrying == retrying.len()
            &&& snapshot.running.len() == running.len()
            &&& forall|i: int|
                0 <= i < running.len() ==> #[trigger] snapshot.running[i] == running_row(
                    running[i].1.entry,
                )
            &&& snapshot.retrying.len() == retrying.len()
            &&& forall|i: int|
                0 <= i < retrying.len() ==> #[trigger] snapshot.retrying[i] == retrying[i].1
            &&& snapshot.codex_totals.input_tokens == totals.input_tokens
            &&& snapshot.codex_totals.output_tokens == totals.output_tokens
            &&& snapshot.codex_totals.total_tokens == totals.total_tokens
            &&& snapshot.rate_limits == rate_limits
            &&& active_millis(running, now) <= 0 ==> snapshot.codex_totals.millis_running
                == totals.millis_running
            &&& 0 <= active_millis(running, now) <= u64::MAX - totals.millis_running
                ==> snapshot.codex_totals.millis_running == totals.millis_running + active_millis(
                running,
                now,
            )
            &&& active_millis(running, now) > u64::MAX - totals.millis_running
                ==> snapshot.codex_totals.millis_running == u64::MAX
        }),
{
}

/// The time of runs is that of each of them, from its start until now, all together.
pub proof fn lemma_active_time(
    running: Seq<(Seq<char>, RunningRuntimeView)>,
    run: (Seq<char>, RunningRuntimeView),
    now: Timestamp,
)
    ensures
        active_millis(Seq::empty(), now) == 0,
        active_millis(running.push(run), now) == active_millis(running, now) + chrono_millis_between(
            run.1.entry.started_at,
            now,
        ),
{
    assert(running.push(run).drop_last() =~= running);
}

// ---------------------------------------------------------------------------
// Single issues
// ---------------------------------------------------------------------------

/// All that is told of an issue that runs is what its run has, beside the retry that it waits for.
pub proof fn lemma_details_of_a_run(entry: RunningEntryView, retry: Option<RetryEntryView>)
    ensures
        ({
            let details = running_details(entry, retry);
            let run = details.running.unwrap();
            &&& details.issue_identifier == entry.issue_identifier
            &&& details.issue_id == entry.issue_id
            &&& details.status == "running"@
            &&& details.workspace.path == entry.workspace_path
            &&& entry.retry_attempt is Some ==> details.attempts.restart_count
                == entry.retry_attempt.unwrap()
            &&& entry.retry_attempt is None ==> details.attempts.restart_count == 0
            &&& retry is Some ==> details.attempts.current_retry_attempt == Some(
                retry.unwrap().attempt,
            )
            &&& retry is None ==> details.attempts.current_retry_attempt is None
            &&& details.retry == retry
            &&& details.running is Some
            &&& run.session_id == entry.session.session_id
            &&& run.turn_count == entry.session.turn_count
            &&& run.state == entry.issue.state
            &&& run.started_at == entry.started_at
            &&& run.last_event == entry.session.last_codex_event
            &&& entry.session.last_codex_message is Some ==> run.last_message
                == entry.session.last_codex_message.unwrap()
            &&& entry.session.last_codex_message is None ==> run.last_message.len() == 0
            &&& run.last_event_at == entry.session.last_codex_timestamp
            &&& run.tokens.input_tokens == entry.session.codex_input_tokens
            &&& run.tokens.output_tokens == entry.session.codex_output_tokens
            &&& run.tokens.total_tokens == entry.session.codex_total_tokens
            &&& entry.log_path is None ==> details.logs.codex_session_logs.len() == 0
            &&& entry.log_path is Some ==> {
                &&& details.logs.codex_session_logs.len() == 1
                &&& details.logs.codex_session_logs[0].label == "latest"@
                &&& details.logs.codex_session_logs[0].path == entry.log_path.unwrap()
                &&& details.logs.codex_session_logs[0].url is None
            }
            &&& details.recent_events == entry.recent_events
            &&& details.last_error == entry.last_error
            &&& details.tracking.len() == 0
        }),
{
}

/// All that is told of an issue that waits is its retry: which attempt it is, how many there were before,
/// where it would work, and what went wrong.
pub proof fn lemma_details_of_a_retry(entry: RetryEntryView, root: Seq<char>)
    ensures
        ({
            let details = retrying_details(entry, root);
            &&& details.issue_identifier == entry.identifier
            &&& details.issue_id == entry.issue_id
            &&& details.status == "retrying"@
            &&& details.workspace.path == path_join(root, workspace_key(entry.identifier))
            &&& entry.attempt > 0 ==> details.attempts.restart_count == entry.attempt - 1
            &&& entry.attempt == 0 ==> details.attempts.restart_count == 0
            &&& details.attempts.current_retry_attempt == Some(entry.attempt)
            &&& details.running is None
            &&& details.retry == Some(entry)
            &&& details.logs.codex_session_logs.len() == 0
            &&& details.recent_events.len() == 0
            &&& details.last_error == entry.error
            &&& details.tracking.len() == 0
        }),
{
}

/// Of an identifier the last run with it is told, beside the retry of its issue; without a run, the first
/// retry with it; and without either, nothing.
pub proof fn lemma_details_by_identifier(
    running: Seq<(Seq<char>, RunningRuntimeView)>,
    waiting: Map<Seq<char>, RetryEntryView>,
    retrying: Seq<(Seq<char>, RetryEntryView)>,
    root: Seq<char>,
    identifier: Seq<char>,
    i: int,
)
    ensures
        ({
            let told = details_with_retrying(details_of_running(running, waiting), retrying, root);
            let runs = exists|j: int|
                0 <= j < running.len() && (#[trigger] running[j]).1.entry.issue_identifier
                    == identifier;
            &&& 0 <= i < running.len() && running[i].1.entry.issue_identifier == identifier && (
            forall|j: int|
                i < j < running.len() ==> (#[trigger] running[j]).1.entry.issue_identifier
                    != identifier) ==> told.contains_key(identifier) && told[identifier]
                == running_details(
                running[i].1.entry,
                if waiting.contains_key(running[i].1.entry.issue_id) {
                    Some(waiting[running[i].1.entry.issue_id])
                } else {
                    None
                },
            )
            &&& !runs && 0 <= i < retrying.len() && retrying[i].1.identifier == identifier && (forall|
                j: int,
            |
                0 <= j < i ==> (#[trigger] retrying[j]).1.identifier != identifier)
                ==> told.contains_key(identifier) && told[identifier] == retrying_details(
                retrying[i].1,
                root,
            )
            &&& !runs && (forall|j: int|
                0 <= j < retrying.len() ==> (#[trigger] retrying[j]).1.identifier != identifier)
                ==> !told.contains_key(identifier)
        }),
{
    let details = details_of_running(running, waiting);
    let runs = exists|j: int|
        0 <= j < running.len() && (#[trigger] running[j]).1.entry.issue_identifier == identifier;
    if 0 <= i < running.len() && running[i].1.entry.issue_identifier == identifier && (forall|j: int|
        i < j < running.len() ==> (#[trigger] running[j]).1.entry.issue_identifier != identifier) {
        lemma_last_run_is_told(running, waiting, identifier, i);
        lemma_told_stays(details, retrying, root, identifier);
    }
    if !runs {
        lemma_no_run_is_told(running, waiting, identifier);
        if 0 <= i < retrying.len() && retrying[i].1.identifier == identifier && (forall|j: int|
            0 <= j < i ==> (#[trigger] retrying[j]).1.identifier != identifier) {
            lemma_first_retry_is_told(details, retrying, root, identifier, i);
        }
        if forall|j: int|
            0 <= j < retrying.len() ==> (#[trigger] retrying[j]).1.identifier != identifier {
            lemma_no_retry_is_told(details, retrying, root, identifier);
        }
    }
}

proof fn lemma_last_run_is_told(
    running: Seq<(Seq<char>, RunningRuntimeView)>,
    waiting: Map<Seq<char>, RetryEntryView>,
    identifier: Seq<char>,
    i: int,
)
    requires
        0 <= i < running.len(),
        running[i].1.entry.issue_identifier == identifier,
        forall|j: int|
            i < j < running.len() ==> (#[trigger] running[j]).1.entry.issue_identifier != identifier,
    ensures
        details_of_running(running, waiting).contains_key(identifier),
        details_of_running(running, waiting)[identifier] == running_details(
            running[i].1.entry,
            if waiting.contains_key(running[i].1.entry.issue_id) {
                Some(waiting[running[i].1.entry.issue_id])
            } else {
                None
            },
        ),
    decreases running.len(),
{
    let head = running.drop_last();
    if i < head.len() {
        assert(head[i] == running[i]);
        assert(running[running.len() - 1].1.entry.issue_identifier != identifier);
        assert forall|j: int| i < j < head.len() implies (#[trigger] head[j]).1.entry.issue_identifier
            != identifier by {
            assert(head[j] == running[j]);
        }
        lemma_last_run_is_told(head, waiting, identifier, i);
    }
}

proof fn lemma_no_run_is_told(
    running: Seq<(Seq<char>, RunningRuntimeView)>,
    waiting: Map<Seq<char>, RetryEntryView>,
    identifier: Seq<char>,
)
    requires
        forall|j: int|
            0 <= j < running.len() ==> (#[trigger] running[j]).1.entry.issue_identifier != identifier,
    ensures
        !details_of_running(running, waiting).contains_key(identifier),
    decreases running.len(),
{
    if running.len() > 0 {
        let head = running.drop_last();
        assert(running[running.len() - 1].1.entry.issue_identifier != identifier);
        assert forall|j: int| 0 <= j < head.len() implies (#[trigger] head[j]).1.entry.issue_identifier
            != identifier by {
            assert(head[j] == running[j]);
        }
        lemma_no_run_is_told(head, waiting, identifier);
    }
}

proof fn lemma_told_stays(
    details: Map<Seq<char>, IssueDebugSnapshotView>,
    retrying: Seq<(Seq<char>, RetryEntryView)>,
    root: Seq<char>,
    identifier: Seq<char>,
)
    requires
        details.contains_key(identifier),
    ensures
        details_with_retrying(details, retrying, root).contains_key(identifier),
        details_with_retrying(details, retrying, root)[identifier] == details[identifier],
    decreases retrying.len(),
{
    if retrying.len() > 0 {
        lemma_told_stays(details, retrying.drop_last(), root, identifier);
    }
}

proof fn lemma_no_retry_is_told(
    details: Map<Seq<char>, IssueDebugSnapshotView>,
    retrying: Seq<(Seq<char>, RetryEntryView)>,
    root: Seq<char>,
    identifier: Seq<char>,
)
    requires
        !details.contains_key(identifier),
        forall|j: int|
            0 <= j < retrying.len() ==> (#[trigger] retrying[j]).1.identifier != identifier,
    ensures
        !details_with_retrying(details, retrying, root).contains_key(identifier),
    decreases retrying.len(),
{
    if retrying.len() > 0 {
        let head = retrying.drop_last();
        assert(retrying[retrying.len() - 1].1.identifier != identifier);
        assert forall|j: int| 0 <= j < head.len() implies (#[trigger] head[j]).1.identifier
            != identifier by {
            assert(head[j] == retrying[j]);
        }
        lemma_no_retry_is_told(details, head, root, identifier);
    }
}

proof fn lemma_first_retry_is_told(
    details: Map<Seq<char>, IssueDebugSnapshotView>,
    retrying: Seq<(Seq<char>, RetryEntryView)>,
    root: Seq<char>,
    identifier: Seq<char>,
    i: int,
)
    requires
        !details.contains_key(identifier),
        0 <= i < retrying.len(),
        retrying[i].1.identifier == identifier,
        forall|j: int| 0 <= j < i ==> (#[trigger] retrying[j]).1.identifier != identifier,
    ensures
        details_with_retrying(details, retrying, root).contains_key(identifier),
        details_with_retrying(details, retrying, root)[identifier] == retrying_details(
            retrying[i].1,
            root,
        ),
    decreases retrying.len(),
{
    let head = retrying.drop_last();
    if i < head.len() {
        assert(head[i] == retrying[i]);
        assert forall|j: int| 0 <= j < i implies (#[trigger] head[j]).1.identifier
            != identifier by {
            assert(head[j] == retrying[j]);
        }
        lemma_first_retry_is_told(details, head, root, identifier, i);
    } else {
        assert forall|j: int| 0 <= j < head.len() implies (#[trigger] head[j]).1.identifier
            != identifier by {
            assert(head[j] == retrying[j]);
        }
        lemma_no_retry_is_told(details, head, root, identifier);
    }
}

// ---------------------------------------------------------------------------
// JSON
// ---------------------------------------------------------------------------

/// A text, or null.
pub open spec fn text_or_null(text: Option<Seq<char>>) -> JsonView {
    if text is Some {
        JsonView::String(text.unwrap())
    } else {
        JsonView::Null
    }
}

/// A point in time, or null.
pub open spec fn time_or_null(at: Option<Timestamp>) -> JsonView {
    if at is Some {
        JsonView::String(chrono_rfc3339_zulu(at.unwrap()))
    } else {
        JsonView::Null
    }
}

/// Tokens are shown by what they were used for.
pub proof fn lemma_tokens_as_json(tokens: TokenUsage)
    ensures
        ({
            let json = tokens_json(tokens);
            &&& json is Object
            &&& json->Object_0.len() == 3
            &&& holds(json, "input_tokens"@, JsonView::PosInt(tokens.input_tokens))
            &&& holds(json, "output_tokens"@, JsonView::PosInt(tokens.output_tokens))
            &&& holds(json, "total_tokens"@, JsonView::PosInt(tokens.total_tokens))
        }),
{
    reveal_strlit("input_tokens");
    reveal_strlit("output_tokens");
    reveal_strlit("total_tokens");
    assert("input_tokens"@.len() == 12);
    assert("output_tokens"@.len() == 13);
    assert("total_tokens"@.len() == 12);
    assert("input_tokens"@[0] == 'i' && "total_tokens"@[0] == 't');
    let json = tokens_json(tokens);
    let members = json->Object_0;
    assert(members[0] == ("input_tokens"@, JsonView::PosInt(tokens.input_tokens)));
    assert(members[1] == ("output_tokens"@, JsonView::PosInt(tokens.output_tokens)));
    assert(members[2] == ("total_tokens"@, JsonView::PosInt(tokens.total_tokens)));
    assert(holds(json, "input_tokens"@, JsonView::PosInt(tokens.input_tokens)));
    assert(holds(json, "output_tokens"@, JsonView::PosInt(tokens.output_tokens)));
    assert(holds(json, "total_tokens"@, JsonView::PosInt(tokens.total_tokens)));
}

/// A retry is shown with its issue, which attempt it is, when it is due and what went wrong.
pub proof fn lemma_retry_as_json(entry: RetryEntryView)
    ensures
        ({
            let json = retry_json(entry);
            &&& json is Object
            &&& json->Object_0.len() == 5
            &&& holds(json, "issue_id"@, JsonView::String(entry.issue_id))
            &&& holds(json, "identifier"@, JsonView::String(entry.identifier))
            &&& holds(json, "attempt"@, JsonView::PosInt(entry.attempt as u64))
            &&& holds(json, "due_at"@, JsonView::String(chrono_rfc3339_zulu(entry.due_at)))
            &&& holds(json, "error"@, text_or_null(entry.error))
        }),
{
    reveal_strlit("issue_id");
    reveal_strlit("identifier");
    reveal_strlit("attempt");
    reveal_strlit("due_at");
    reveal_strlit("error");
    assert("issue_id"@.len() == 8);
    assert("identifier"@.len() == 10);
    assert("attempt"@.len() == 7);
    assert("due_at"@.len() == 6);
    assert("error"@.len() == 5);
    let json = retry_json(entry);
    let members = json->Object_0;
    assert(members[0] == ("issue_id"@, JsonView::String(entry.issue_id)));
    assert(members[1] == ("identifier"@, JsonView::String(entry.identifier)));
    assert(members[2] == ("attempt"@, JsonView::PosInt(entry.attempt as u64)));
    assert(members[3] == ("due_at"@, JsonView::String(chrono_rfc3339_zulu(entry.due_at))));
    assert(members[4] == ("error"@, text_or_null(entry.error)));
    assert(holds(json, "issue_id"@, JsonView::String(entry.issue_id)));
    assert(holds(json, "identifier"@, JsonView::String(entry.identifier)));
    assert(holds(json, "attempt"@, JsonView::PosInt(entry.attempt as u64)));
    assert(holds(json, "due_at"@, JsonView::String(chrono_rfc3339_zulu(entry.due_at))));
    assert(holds(json, "error"@, text_or_null(entry.error)));
}

/// A run is shown with all that its row has.
pub proof fn lemma_row_as_json(row: RuntimeRunningRowView)
    ensures
        ({
            let json = row_json(row);
            &&& json is Object
            &&& json->Object_0.len() == 10
            &&& holds(json, "issue_id"@, JsonView::String(row.issue_id))
            &&& holds(json, "issue_identifier"@, JsonView::String(row.issue_identifier))
            &&& holds(json, "state"@, JsonView::String(row.state))
            &&& holds(json, "session_id"@, text_or_null(row.session_id))
            &&& holds(json, "turn_count"@, JsonView::PosInt(row.turn_count as u64))
            &&& holds(json, "last_event"@, text_or_null(row.last_event))
            &&& holds(json, "last_message"@, JsonView::String(row.last_message))
            &&& holds(json, "started_at"@, JsonView::String(chrono_rfc3339_zulu(row.started_at)))
            &&& holds(json, "last_event_at"@, time_or_null(row.last_event_at))
            &&& holds(json, "tokens"@, tokens_json(row.tokens))
        }),
{
    reveal_strlit("issue_id");
    reveal_strlit("issue_identifier");
    reveal_strlit("state");
    reveal_strlit("session_id");
    reveal_strlit("turn_count");
    reveal_strlit("last_event");
    reveal_strlit("last_message");
    reveal_strlit("started_at");
    reveal_strlit("last_event_at");
    reveal_strlit("tokens");
    assert("issue_id"@.len() == 8);
    assert("issue_identifier"@.len() == 16);
    assert("state"@.len() == 5);
    assert("session_id"@.len() == 10);
    assert("turn_count"@.len() == 10);
    assert("last_event"@.len() == 10);
    assert("last_message"@.len() == 12);
    assert("started_at"@.len() == 10);
    assert("last_event_at"@.len() == 13);
    assert("tokens"@.len() == 6);
    assert("session_id"@[0] == 's' && "turn_count"@[0] == 't');
    assert("session_id"@[0] == 's' && "last_event"@[0] == 'l');
    assert("session_id"@[1] == 'e' && "started_at"@[1] == 't');
    assert("turn_count"@[0] == 't' && "last_event"@[0] == 'l');
    assert("turn_count"@[0] == 't' && "started_at"@[0] == 's');
    assert("last_event"@[0] == 'l' && "started_at"@[0] == 's');
    let json = row_json(row);
    let members = json->Object_0;
    assert(members[0] == ("issue_id"@, JsonView::String(row.issue_id)));
    assert(members[1] == ("issue_identifier"@, JsonView::String(row.issue_identifier)));
    assert(members[2] == ("state"@, JsonView::String(row.state)));
    assert(members[3] == ("session_id"@, text_or_null(row.session_id)));
    assert(members[4] == ("turn_count"@, JsonView::PosInt(row.turn_count as u64)));
    assert(members[5] == ("last_event"@, text_or_null(row.last_event)));
    assert(members[6] == ("last_message"@, JsonView::String(row.last_message)));
    assert(members[7] == ("started_at"@, JsonView::String(chrono_rfc3339_zulu(row.started_at))));
    assert(members[8] == ("last_event_at"@, time_or_null(row.last_event_at)));
    assert(members[9] == ("tokens"@, tokens_json(row.tokens)));
    assert(holds(json, "issue_id"@, JsonView::String(row.issue_id)));
    assert(holds(json, "issue_identifier"@, JsonView::String(row.issue_identifier)));
    assert(holds(json, "state"@, JsonView::String(row.state)));
    assert(holds(json, "session_id"@, text_or_null(row.session_id)));
    assert(holds(json, "turn_count"@, JsonView::PosInt(row.turn_count as u64)));
    assert(holds(json, "last_event"@, text_or_null(row.last_event)));
    assert(holds(json, "last_message"@, JsonView::String(row.last_message)));
    assert(holds(json, "started_at"@, JsonView::String(chrono_rfc3339_zulu(row.started_at))));
    assert(holds(json, "last_event_at"@, time_or_null(row.last_event_at)));
    assert(holds(json, "tokens"@, tokens_json(row.tokens)));
}

/// Totals are shown with the tokens of all sessions and the time that is given.
pub proof fn lemma_totals_as_json(totals: CodexTotals, seconds_running: JsonView)
    ensures
        ({
            let json = totals_json(totals, seconds_running);
            &&& json is Object
            &&& json->Object_0.len() == 4
            &&& holds(json, "input_tokens"@, JsonView::PosInt(totals.input_tokens))
            &&& holds(json, "output_tokens"@, JsonView::PosInt(totals.output_tokens))
            &&& holds(json, "total_tokens"@, JsonView::PosInt(totals.total_tokens))
            &&& holds(json, "seconds_running"@, seconds_running)
        }),
{
    reveal_strlit("input_tokens");
    reveal_strlit("output_tokens");
    reveal_strlit("total_tokens");
    reveal_strlit("seconds_running");
    assert("input_tokens"@.len() == 12);
    assert("output_tokens"@.len() == 13);
    assert("total_tokens"@.len() == 12);
    assert("seconds_running"@.len() == 15);
    assert("input_tokens"@[0] == 'i' && "total_tokens"@[0] == 't');
    let json = totals_json(totals, seconds_running);
    let members = json->Object_0;
    assert(members[0] == ("input_tokens"@, JsonView::PosInt(totals.input_tokens)));
    assert(members[1] == ("output_tokens"@, JsonView::PosInt(totals.output_tokens)));
    assert(members[2] == ("total_tokens"@, JsonView::PosInt(totals.total_tokens)));
    assert(members[3] == ("seconds_running"@, seconds_running));
    assert(holds(json, "input_tokens"@, JsonView::PosInt(totals.input_tokens)));
    assert(holds(json, "output_tokens"@, JsonView::PosInt(totals.output_tokens)));
    assert(holds(json, "total_tokens"@, JsonView::PosInt(totals.total_tokens)));
    assert(holds(json, "seconds_running"@, seconds_running));
}

/// The run of an issue is shown with all that is told of it.
pub proof fn lemma_run_as_json(run: IssueRunningDebugInfoView)
    ensures
        ({
            let json = run_details_json(run);
            &&& json is Object
            &&& json->Object_0.len() == 8
            &&& holds(json, "session_id"@, text_or_null(run.session_id))
            &&& holds(json, "turn_count"@, JsonView::PosInt(run.turn_count as u64))
            &&& holds(json, "state"@, JsonView::String(run.state))
            &&& holds(json, "started_at"@, JsonView::String(chrono_rfc3339_zulu(run.started_at)))
            &&& holds(json, "last_event"@, text_or_null(run.last_event))
            &&& holds(json, "last_message"@, JsonView::String(run.last_message))
            &&& holds(json, "last_event_at"@, time_or_null(run.last_event_at))
            &&& holds(json, "tokens"@, tokens_json(run.tokens))
        }),
{
    reveal_strlit("session_id");
    reveal_strlit("turn_count");
    reveal_strlit("state");
    reveal_strlit("started_at");
    reveal_strlit("last_event");
    reveal_strlit("last_message");
    reveal_strlit("last_event_at");
    reveal_strlit("tokens");
    assert("session_id"@.len() == 10);
    assert("turn_count"@.len() == 10);
    assert("state"@.len() == 5);
    assert("started_at"@.len() == 10);
    assert("last_event"@.len() == 10);
    assert("last_message"@.len() == 12);
    assert("last_event_at"@.len() == 13);
    assert("tokens"@.len() == 6);
    assert("session_id"@[0] == 's' && "turn_count"@[0] == 't');
    assert("session_id"@[1] == 'e' && "started_at"@[1] == 't');
    assert("session_id"@[0] == 's' && "last_event"@[0] == 'l');
    assert("turn_count"@[0] == 't' && "started_at"@[0] == 's');
    assert("turn_count"@[0] == 't' && "last_event"@[0] == 'l');
    assert("started_at"@[0] == 's' && "last_event"@[0] == 'l');
    let json = run_details_json(run);
    let members = json->Object_0;
    assert(members[0] == ("session_id"@, text_or_null(run.session_id)));
    assert(members[1] == ("turn_count"@, JsonView::PosInt(run.turn_count as u64)));
    assert(members[2] == ("state"@, JsonView::String(run.state)));
    assert(members[3] == ("started_at"@, JsonView::String(chrono_rfc3339_zulu(run.started_at))));
    assert(members[4] == ("last_event"@, text_or_null(run.last_event)));
    assert(members[5] == ("last_message"@, JsonView::String(run.last_message)));
    assert(members[6] == ("last_event_at"@, time_or_null(run.last_event_at)));
    assert(members[7] == ("tokens"@, tokens_json(run.tokens)));
    assert(holds(json, "session_id"@, text_or_null(run.session_id)));
    assert(holds(json, "turn_count"@, JsonView::PosInt(run.turn_count as u64)));
    assert(holds(json, "state"@, JsonView::String(run.state)));
    assert(holds(json, "started_at"@, JsonView::String(chrono_rfc3339_zulu(run.started_at))));
    assert(holds(json, "last_event"@, text_or_null(run.last_event)));
    assert(holds(json, "last_message"@, JsonView::String(run.last_message)));
    assert(holds(json, "last_event_at"@, time_or_null(run.last_event_at)));
    assert(holds(json, "tokens"@, tokens_json(run.tokens)));
}

/// A log is shown by its label, and where it is found.
pub proof fn lemma_log_as_json(log: LogReferenceView)
    ensures
        ({
            let json = log_json(log);
            &&& json is Object
            &&& json->Object_0.len() == 3
            &&& holds(json, "label"@, JsonView::String(log.label))
            &&& holds(json, "path"@, JsonView::String(log.path))
            &&& holds(json, "url"@, text_or_null(log.url))
        }),
{
    reveal_strlit("label");
    reveal_strlit("path");
    reveal_strlit("url");
    assert("label"@.len() == 5);
    assert("path"@.len() == 4);
    assert("url"@.len() == 3);
    let json = log_json(log);
    let members = json->Object_0;
    assert(members[0] == ("label"@, JsonView::String(log.label)));
    assert(members[1] == ("path"@, JsonView::String(log.path)));
    assert(members[2] == ("url"@, text_or_null(log.url)));
    assert(holds(json, "label"@, JsonView::String(log.label)));
    assert(holds(json, "path"@, JsonView::String(log.path)));
    assert(holds(json, "url"@, text_or_null(log.url)));
}

/// An event is shown with when it was, its name and its message.
pub proof fn lemma_event_as_json(event: RecentEventView)
    ensures
        ({
            let json = event_json(event);
            &&& json is Object
            &&& json->Object_0.len() == 3
            &&& holds(json, "at"@, JsonView::String(chrono_rfc3339_zulu(event.at)))
            &&& holds(json, "event"@, JsonView::String(event.event))
            &&& holds(json, "message"@, JsonView::String(event.message))
        }),
{
    reveal_strlit("at");
    reveal_strlit("event");
    reveal_strlit("message");
    assert("at"@.len() == 2);
    assert("event"@.len() == 5);
    assert("message"@.len() == 7);
    let json = event_json(event);
    let members = json->Object_0;
    assert(members[0] == ("at"@, JsonView::String(chrono_rfc3339_zulu(event.at))));
    assert(members[1] == ("event"@, JsonView::String(event.event)));
    assert(members[2] == ("message"@, JsonView::String(event.message)));
    assert(holds(json, "at"@, JsonView::String(chrono_rfc3339_zulu(event.at))));
    assert(holds(json, "event"@, JsonView::String(event.event)));
    assert(holds(json, "message"@, JsonView::String(event.message)));
}

/// A refresh that was taken in says so, whether it was joined with another, when it was asked for, and
/// what it does.
pub proof fn lemma_refresh_as_json(coalesced: bool, requested_at: Timestamp)
    ensures
        ({
            let json = refresh_json(coalesced, requested_at);
            &&& json is Object
            &&& json->Object_0.len() == 4
            &&& holds(json, "queued"@, JsonView::Bool(true))
            &&& holds(json, "coalesced"@, JsonView::Bool(coalesced))
            &&& holds(json, "requested_at"@, JsonView::String(chrono_rfc3339_zulu(requested_at)))
            &&& holds(
                json,
                "operations"@,
                JsonView::Array(seq![JsonView::String("poll"@), JsonView::String("reconcile"@)]),
            )
        }),
{
    reveal_strlit("queued");
    reveal_strlit("coalesced");
    reveal_strlit("requested_at");
    reveal_strlit("operations");
    assert("queued"@.len() == 6);
    assert("coalesced"@.len() == 9);
    assert("requested_at"@.len() == 12);
    assert("operations"@.len() == 10);
    let operations = JsonView::Array(
        seq![JsonView::String("poll"@), JsonView::String("reconcile"@)],
    );
    let json = refresh_json(coalesced, requested_at);
    let members = json->Object_0;
    assert(members[0] == ("queued"@, JsonView::Bool(true)));
    assert(members[1] == ("coalesced"@, JsonView::Bool(coalesced)));
    assert(members[2] == ("requested_at"@, JsonView::String(chrono_rfc3339_zulu(requested_at))));
    assert(members[3] == ("operations"@, operations));
    assert(holds(json, "queued"@, JsonView::Bool(true)));
    assert(holds(json, "coalesced"@, JsonView::Bool(coalesced)));
    assert(holds(json, "requested_at"@, JsonView::String(chrono_rfc3339_zulu(requested_at))));
    assert(holds(json, "operations"@, operations));
}

/// The state of the service is shown with all that its snapshot has, each run and each retry in order.
pub proof fn lemma_snapshot_as_json(snapshot: RuntimeSnapshotView, seconds_running: JsonView)
    ensures
        ({
            let json = snapshot_json(snapshot, seconds_running);
            &&& json is Object
            &&& json->Object_0.len() == 6
            &&& holds(
                json,
                "generated_at"@,
                JsonView::String(chrono_rfc3339_zulu(snapshot.generated_at)),
            )
            &&& exists|counts: JsonView|
                {
                    &&& #[trigger] holds(json, "counts"@, counts)
                    &&& holds(
                        counts,
                        "running"@,
                        JsonView::PosInt(snapshot.counts.running as u64),
                    )
                    &&& holds(
                        counts,
                        "retrying"@,
                        JsonView::PosInt(snapshot.counts.retrying as u64),
                    )
                }
            &&& exists|items: Seq<JsonView>|
                {
                    &&& #[trigger] holds(json, "running"@, JsonView::Array(items))
                    &&& items.len() == snapshot.running.len()
                    &&& forall|i: int|
                        0 <= i < items.len() ==> #[trigger] items[i] == row_json(snapshot.running[i])
                }
            &&& exists|items: Seq<JsonView>|
                {
                    &&& #[trigger] holds(json, "retrying"@, JsonView::Array(items))
                    &&& items.len() == snapshot.retrying.len()
                    &&& forall|i: int|
                        0 <= i < items.len() ==> #[trigger] items[i] == retry_json(snapshot.retrying[i])
                }
            &&& holds(json, "codex_totals"@, totals_json(snapshot.codex_totals, seconds_running))
            &&& snapshot.rate_limits is Some ==> holds(
                json,
                "rate_limits"@,
                snapshot.rate_limits.unwrap(),
            )
            &&& snapshot.rate_limits is None ==> holds(json, "rate_limits"@, JsonView::Null)
        }),
{
    reveal_strlit("generated_at");
    reveal_strlit("counts");
    reveal_strlit("running");
    reveal_strlit("retrying");
    reveal_strlit("codex_totals");
    reveal_strlit("rate_limits");
    assert("generated_at"@.len() == 12);
    assert("counts"@.len() == 6);
    assert("running"@.len() == 7);
    assert("retrying"@.len() == 8);
    assert("codex_totals"@.len() == 12);
    assert("rate_limits"@.len() == 11);
    assert("generated_at"@[0] == 'g' && "codex_totals"@[0] == 'c');
    let json = snapshot_json(snapshot, seconds_running);
    let members = json->Object_0;
    let runs = snapshot.running.map_values(|row: RuntimeRunningRowView| row_json(row));
    let retries = snapshot.retrying.map_values(|entry: RetryEntryView| retry_json(entry));
    let counts = members[1].1;
    assert(members[0].0 == "generated_at"@);
    assert(members[1] == ("counts"@, counts));
    assert(members[2] == ("running"@, JsonView::Array(runs)));
    assert(members[3] == ("retrying"@, JsonView::Array(retries)));
    assert(members[4] == ("codex_totals"@, totals_json(snapshot.codex_totals, seconds_running)));
    assert(members[5].0 == "rate_limits"@);
    let parts = counts->Object_0;
    assert(parts[0] == ("running"@, JsonView::PosInt(snapshot.counts.running as u64)));
    assert(parts[1] == ("retrying"@, JsonView::PosInt(snapshot.counts.retrying as u64)));
    assert(holds(json, "counts"@, counts));
    assert(holds(json, "running"@, JsonView::Array(runs)));
    assert(holds(json, "retrying"@, JsonView::Array(retries)));
    assert(members[0] == (
        "generated_at"@,
        JsonView::String(chrono_rfc3339_zulu(snapshot.generated_at)),
    ));
}

/// An issue is shown with all that is told of it, each log and each event in order.
pub proof fn lemma_issue_as_json(issue: IssueDebugSnapshotView)
    ensures
        ({
            let json = issue_details_json(issue);
            &&& json is Object
            &&& json->Object_0.len() == 11
            &&& holds(json, "issue_identifier"@, JsonView::String(issue.issue_identifier))
            &&& holds(json, "issue_id"@, JsonView::String(issue.issue_id))
            &&& holds(json, "status"@, JsonView::String(issue.status))
            &&& holds(
                json,
                "workspace"@,
                JsonView::Object(seq![("path"@, JsonView::String(issue.workspace.path))]),
            )
            &&& exists|attempts: JsonView|
                {
                    &&& #[trigger] holds(json, "attempts"@, attempts)
                    &&& holds(
                        attempts,
                        "restart_count"@,
                        JsonView::PosInt(issue.attempts.restart_count as u64),
                    )
                    &&& issue.attempts.current_retry_attempt is Some ==> holds(
                        attempts,
                        "current_retry_attempt"@,
                        JsonView::PosInt(issue.attempts.current_retry_attempt.unwrap() as u64),
                    )
                    &&& issue.attempts.current_retry_attempt is None ==> holds(
                        attempts,
                        "current_retry_attempt"@,
                        JsonView::Null,
                    )
                }
            &&& issue.running is Some ==> holds(
                json,
                "running"@,
                run_details_json(issue.running.unwrap()),
            )
            &&& issue.running is None ==> holds(json, "running"@, JsonView::Null)
            &&& issue.retry is Some ==> holds(json, "retry"@, retry_json(issue.retry.unwrap()))
            &&& issue.retry is None ==> holds(json, "retry"@, JsonView::Null)
            &&& exists|logs: JsonView, items: Seq<JsonView>|
                {
                    &&& #[trigger] holds(json, "logs"@, logs)
                    &&& #[trigger] holds(logs, "codex_session_logs"@, JsonView::Array(items))
                    &&& items.len() == issue.logs.codex_session_logs.len()
                    &&& forall|i: int|
                        0 <= i < items.len() ==> #[trigger] items[i] == log_json(
                            issue.logs.codex_session_logs[i],
                        )
                }
            &&& exists|items: Seq<JsonView>|
                {
                    &&& #[trigger] holds(json, "recent_events"@, JsonView::Array(items))
                    &&& items.len() == issue.recent_events.len()
                    &&& forall|i: int|
                        0 <= i < items.len() ==> #[trigger] items[i] == event_json(issue.recent_events[i])
                }
            &&& holds(json, "last_error"@, text_or_null(issue.last_error))
            &&& holds(json, "tracked"@, JsonView::Object(issue.tracking))
        }),
{
    reveal_strlit("issue_identifier");
    reveal_strlit("issue_id");
    reveal_strlit("status");
    reveal_strlit("workspace");
    reveal_strlit("attempts");
    reveal_strlit("running");
    reveal_strlit("retry");
    reveal_strlit("logs");
    reveal_strlit("recent_events");
    reveal_strlit("last_error");
    reveal_strlit("tracked");
    assert("issue_identifier"@.len() == 16);
    assert("issue_id"@.len() == 8);
    assert("status"@.len() == 6);
    assert("workspace"@.len() == 9);
    assert("attempts"@.len() == 8);
    assert("running"@.len() == 7);
    assert("retry"@.len() == 5);
    assert("logs"@.len() == 4);
    assert("recent_events"@.len() == 13);
    assert("last_error"@.len() == 10);
    assert("tracked"@.len() == 7);
    assert("issue_id"@[0] == 'i' && "attempts"@[0] == 'a');
    assert("running"@[0] == 'r' && "tracked"@[0] == 't');
    reveal_strlit("restart_count");
    reveal_strlit("current_retry_attempt");
    assert("restart_count"@.len() == 13);
    assert("current_retry_attempt"@.len() == 21);
    let json = issue_details_json(issue);
    let members = json->Object_0;
    let events = issue.recent_events.map_values(|event: RecentEventView| event_json(event));
    let items = issue.logs.codex_session_logs.map_values(|log: LogReferenceView| log_json(log));
    let attempts = members[4].1;
    let logs = members[7].1;
    assert(members[0] == ("issue_identifier"@, JsonView::String(issue.issue_identifier)));
    assert(members[1] == ("issue_id"@, JsonView::String(issue.issue_id)));
    assert(members[2] == ("status"@, JsonView::String(issue.status)));
    assert(members[3] == (
        "workspace"@,
        JsonView::Object(seq![("path"@, JsonView::String(issue.workspace.path))]),
    ));
    assert(members[4] == ("attempts"@, attempts));
    assert(members[5].0 == "running"@);
    assert(members[6].0 == "retry"@);
    assert(members[7] == ("logs"@, logs));
    assert(members[8] == ("recent_events"@, JsonView::Array(events)));
    assert(members[9] == ("last_error"@, text_or_null(issue.last_error)));
    assert(members[10] == ("tracked"@, JsonView::Object(issue.tracking)));
    let counts = attempts->Object_0;
    assert(counts[0] == (
        "restart_count"@,
        JsonView::PosInt(issue.attempts.restart_count as u64),
    ));
    assert(counts[1].0 == "current_retry_attempt"@);
    assert(logs->Object_0[0] == ("codex_session_logs"@, JsonView::Array(items)));
    assert(holds(json, "attempts"@, attempts));
    assert(holds(json, "logs"@, logs));
    assert(holds(logs, "codex_session_logs"@, JsonView::Array(items)));
    assert(holds(json, "recent_events"@, JsonView::Array(events)));
    assert(holds(attempts, "restart_count"@, counts[0].1));
    assert(holds(attempts, "current_retry_attempt"@, counts[1].1));
    assert(holds(json, "running"@, members[5].1));
    assert(holds(json, "retry"@, members[6].1));
}

/// The state is answered once it was published, and cannot be had before. An issue is answered if it is
/// among those that were published, and is not found otherwise.
pub proof fn lemma_answers(
    store: SnapshotStoreView,
    seconds_running: JsonView,
    identifier: Seq<char>,
    code: Seq<char>,
    message: Seq<char>,
)
    ensures
        store.snapshot is Some ==> state_answer(store, seconds_running) == (
            200u16,
            snapshot_json(store.snapshot.unwrap(), seconds_running),
        ),
        store.snapshot is None ==> state_answer(store, seconds_running) == (
            503u16,
            error_view("unavailable"@, "runtime snapshot is not available yet"@),
        ),
        store.issues.contains_key(identifier) ==> issue_answer(store, identifier) == (
            200u16,
            issue_details_json(store.issues[identifier]),
        ),
        !store.issues.contains_key(identifier) ==> issue_answer(store, identifier) == (
            404u16,
            error_view(
                "issue_not_found"@,
                "issue "@ + identifier + " is not tracked in memory"@,
            ),
        ),
        exists|error: JsonView|
            {
                &&& #[trigger] holds(error_view(code, message), "error"@, error)
                &&& holds(error, "code"@, JsonView::String(code))
                &&& holds(error, "message"@, JsonView::String(message))
            },
{
    reveal_strlit("code");
    reveal_strlit("message");
    assert("code"@.len() == 4);
    assert("message"@.len() == 7);
    let view = error_view(code, message);
    let error = view->Object_0[0].1;
    assert(view->Object_0[0] == ("error"@, error));
    assert(error->Object_0[0] == ("code"@, JsonView::String(code)));
    assert(error->Object_0[1] == ("message"@, JsonView::String(message)));
    assert(holds(view, "error"@, error));
    assert(holds(error, "code"@, JsonView::String(code)));
    assert(holds(error, "message"@, JsonView::String(message)));
}

// ---------------------------------------------------------------------------
// The page
// ---------------------------------------------------------------------------

/// A text, empty where there is none.
pub open spec fn text_or_nothing(text: Option<Seq<char>>) -> Seq<char> {
    if text is Some {
        text.unwrap()
    } else {
        Seq::empty()
    }
}

/// Each run is a line of the first table, with its identifier, its state, its turns, its last event and
/// its last message; each retry is one of the second, with its identifier, its attempt, when it is due
/// and what went wrong.
pub proof fn lemma_lines_of_the_page(
    rows: Seq<RuntimeRunningRowView>,
    row: RuntimeRunningRowView,
    entries: Seq<RetryEntryView>,
    entry: RetryEntryView,
)
    ensures
        rows_html(Seq::empty()).len() == 0,
        rows_html(rows.push(row)) == rows_html(rows) + ("<tr><td>"@ + row.issue_identifier
            + "</td><td>"@ + row.state + "</td><td>"@ + decimal(row.turn_count as nat)
            + "</td><td>"@ + text_or_nothing(row.last_event) + "</td><td>"@ + row.last_message
            + "</td></tr>"@),
        retries_html(Seq::empty()).len() == 0,
        retries_html(entries.push(entry)) == retries_html(entries) + ("<tr><td>"@ + entry.identifier
            + "</td><td>"@ + decimal(entry.attempt as nat) + "</td><td>"@ + chrono_display(
            entry.due_at,
        ) + "</td><td>"@ + text_or_nothing(entry.error) + "</td></tr>"@),
{
    assert(rows.push(row).drop_last() =~= rows);
    assert(entries.push(entry).drop_last() =~= entries);
}

/// The page is the time it was made at, the two tables under their counts, and the totals.
pub proof fn lemma_page(snapshot: RuntimeSnapshotView, seconds: Seq<char>)
    ensures
        snapshot_html(snapshot, seconds)
            == "<html><body><h1>Symphony</h1><p>Generated at "@ + chrono_display(
            snapshot.generated_at,
        ) + "</p><h2>Running ("@ + decimal(snapshot.counts.running as nat)
            + ")</h2><table border=\"1\"><tr><th>Issue</th><th>State</th><th>Turns</th><th>Last Event</th><th>Message</th></tr>"@
            + rows_html(snapshot.running) + "</table><h2>Retrying ("@ + decimal(
            snapshot.counts.retrying as nat,
        )
            + ")</h2><table border=\"1\"><tr><th>Issue</th><th>Attempt</th><th>Due</th><th>Error</th></tr>"@
            + retries_html(snapshot.retrying) + "</table><h2>Totals</h2><p>Input: "@ + decimal(
            snapshot.codex_totals.input_tokens as nat,
        ) + " Output: "@ + decimal(snapshot.codex_totals.output_tokens as nat) + " Total: "@ + decimal(
            snapshot.codex_totals.total_tokens as nat,
        ) + " Runtime Seconds: "@ + seconds + "</p></body></html>"@,
{
}

// ---------------------------------------------------------------------------
// Time
// ---------------------------------------------------------------------------

/// A tick follows at once on the start, a refresh and a change of the workflow file, after the interval on
/// another tick, and never on the end; workers and retries do not move it. All but a tick and a refresh
/// publish the state.
pub proof fn lemma_rhythm(event: ServiceEvent, interval_ms: u64)
    ensures
        ({
            let step = service_reaction(event, interval_ms);
            &&& event == ServiceEvent::Started || event == ServiceEvent::TookRefresh || event
                == ServiceEvent::ReloadedWorkflow <==> step.next_tick == NextTick::After(0) && event
                != ServiceEvent::Ticked
            &&& event == ServiceEvent::Ticked ==> step.next_tick == NextTick::After(interval_ms)
            &&& event == ServiceEvent::ShutDown <==> step.next_tick == NextTick::Never
            &&& event == ServiceEvent::HeardWorker || event == ServiceEvent::HandledRetry
                <==> step.next_tick == NextTick::Unchanged
            &&& step.publishes <==> event != ServiceEvent::Ticked && event
                != ServiceEvent::TookRefresh
        }),
{
}

/// A tick first asks for the issues that are worked on, if there are any, and then for those that may be,
/// if nothing is wrong with the configuration.
pub proof fn lemma_requests_of_a_tick(config: EffectiveConfigView, running_ids: Seq<Seq<char>>)
    ensures
        running_ids.len() > 0 ==> first_request(config, running_ids)
            == (TickRequestView::RunningIssues { running_ids }),
        running_ids.len() == 0 ==> first_request(config, running_ids) == request_behind_refresh(config),
        dispatch_problem(config) is None ==> request_behind_refresh(config) is Candidates,
        dispatch_problem(config) is Some ==> request_behind_refresh(config)
            == (TickRequestView::Nothing { problem: dispatch_problem(config) }),
{
}

// ---------------------------------------------------------------------------
// Errors
// ---------------------------------------------------------------------------

/// An error is told by its name, behind which stands what it is about, where it is about something.
pub proof fn lemma_error_texts(s: Seq<char>, t: Seq<char>, status: u16)
    ensures
        error_text(ErrorView::WorkflowFrontMatterNotAMap) == "workflow_front_matter_not_a_map"@,
        error_text(ErrorView::MissingTrackerApiKey) == "missing_tracker_api_key"@,
        error_text(ErrorView::MissingTrackerProjectSlug) == "missing_tracker_project_slug"@,
        error_text(ErrorView::LinearMissingEndCursor) == "linear_missing_end_cursor"@,
        error_text(ErrorView::ResponseTimeout) == "response_timeout"@,
        error_text(ErrorView::TurnTimeout) == "turn_timeout"@,
        error_text(ErrorView::PortExit) == "port_exit"@,
        error_text(ErrorView::TurnCancelled) == "turn_cancelled"@,
        error_text(ErrorView::TurnInputRequired) == "turn_input_required"@,
        error_text(ErrorView::MissingWorkflowFile(s)) == "missing_workflow_file: "@ + s,
        error_text(ErrorView::WorkflowParseError(s)) == "workflow_parse_error: "@ + s,
        error_text(ErrorView::TemplateParseError(s)) == "template_parse_error: "@ + s,
        error_text(ErrorView::TemplateRenderError(s)) == "template_render_error: "@ + s,
        error_text(ErrorView::UnsupportedTrackerKind(s)) == "unsupported_tracker_kind: "@ + s,
        error_text(ErrorView::InvalidConfig(s)) == "invalid_config: "@ + s,
        error_text(ErrorView::LinearApiRequest(s)) == "linear_api_request: "@ + s,
        error_text(ErrorView::LinearGraphqlErrors(s)) == "linear_graphql_errors: "@ + s,
        error_text(ErrorView::LinearUnknownPayload(s)) == "linear_unknown_payload: "@ + s,
        error_text(ErrorView::InvalidWorkspaceCwd(s)) == "invalid_workspace_cwd: "@ + s,
        error_text(ErrorView::ResponseError(s)) == "response_error: "@ + s,
        error_text(ErrorView::TurnFailed(s)) == "turn_failed: "@ + s,
        error_text(ErrorView::Io(s)) == "io: "@ + s,
        error_text(ErrorView::Json(s)) == "json: "@ + s,
        error_text(ErrorView::Yaml(s)) == "yaml: "@ + s,
        error_text(ErrorView::Notify(s)) == "notify: "@ + s,
        error_text(ErrorView::Http(s)) == "http: "@ + s,
        error_text(ErrorView::LinearApiStatus { status, body: s }) == "linear_api_status: status="@
            + decimal(status as nat) + " body="@ + s,
        error_text(ErrorView::WorkspacePathEscape { root: s, path: t })
            == "workspace_path_escape: root="@ + path_debug_text(s) + " path="@ + path_debug_text(t),
        error_text(ErrorView::HookFailed { hook: s, message: t }) == "hook_failed: hook="@ + s
            + " message="@ + t,
{
}

} // verus!
