//! What the HTTP server answers: the state of the service as JSON and as a page.
use vstd::prelude::*;

use crate::json::{
    json_array, json_object, json_object_of_one, json_object_of_two, json_optional_string,
    json_string, optional_string_view, with_member, Json, JsonView,
};
use crate::string_map::StringMap;
use crate::text::{decimal, decimal_text};
use crate::time::{chrono_display, chrono_rfc3339_zulu, Timestamp};
use crate::types::{
    CodexTotals, IssueDebugSnapshot, IssueDebugSnapshotView, IssueRunningDebugInfo,
    IssueRunningDebugInfoView, LogReference, LogReferenceView, RecentEvent, RecentEventView,
    RetryEntry, RetryEntryView, RuntimeRunningRow, RuntimeRunningRowView, RuntimeSnapshot,
    RuntimeSnapshotView, TokenUsage,
};
use crate::workflow::{json_optional_time, optional_time_view};

verus! {

/// The request was served.
pub const STATUS_OK: u16 = 200;

/// The request was taken in, and is served later.
pub const STATUS_ACCEPTED: u16 = 202;

/// There is nothing of that name.
pub const STATUS_NOT_FOUND: u16 = 404;

/// The request cannot be served now.
pub const STATUS_SERVICE_UNAVAILABLE: u16 = 503;

// ---------------------------------------------------------------------------
// The last published state
// ---------------------------------------------------------------------------

/// The state of the service that was last published.
#[derive(Debug, PartialEq)]
pub struct SnapshotStore {
    snapshot: Option<RuntimeSnapshot>,
    issues: StringMap<IssueDebugSnapshot>,
}

/// The mathematical value of a [`SnapshotStore`].
pub ghost struct SnapshotStoreView {
    pub snapshot: Option<RuntimeSnapshotView>,
    pub issues: Map<Seq<char>, IssueDebugSnapshotView>,
}

impl View for SnapshotStore {
    type V = SnapshotStoreView;

    closed spec fn view(&self) -> SnapshotStoreView {
        SnapshotStoreView {
            snapshot: self.snapshot.deep_view(),
            issues: self.issues.deep_view(),
        }
    }
}

impl SnapshotStoreView {
    /// What is told of an issue.
    pub open spec fn issue(self, identifier: Seq<char>) -> Option<IssueDebugSnapshotView> {
        if self.issues.contains_key(identifier) {
            Some(self.issues[identifier])
        } else {
            None
        }
    }
}

impl SnapshotStore {
    /// A store in which nothing was published.
    pub fn new() -> (r: SnapshotStore)
        ensures
            r@.snapshot is None,
            r@.issues == Map::<Seq<char>, IssueDebugSnapshotView>::empty(),
    {
        let r = SnapshotStore { snapshot: None, issues: StringMap::new() };
        proof {
            assert(r@.issues =~= Map::empty());
        }
        r
    }

    /// Publish a state, in place of the one before.
    pub fn publish(&mut self, snapshot: RuntimeSnapshot, issues: StringMap<IssueDebugSnapshot>)
        ensures
            final(self)@ == (SnapshotStoreView {
                snapshot: Some(snapshot@),
                issues: issues.deep_view(),
            }),
    {
        self.snapshot = Some(snapshot);
        self.issues = issues;
    }

    /// The state that was last published.
    pub fn snapshot(&self) -> (r: Option<&RuntimeSnapshot>)
        ensures
            r.deep_view() == self@.snapshot,
    {
        self.snapshot.as_ref()
    }

    /// What was last published of an issue.
    pub fn issue(&self, issue_identifier: &str) -> (r: Option<&IssueDebugSnapshot>)
        ensures
            r.deep_view() == self@.issue(issue_identifier@),
    {
        self.issues.get(issue_identifier)
    }
}

// ---------------------------------------------------------------------------
// JSON
// ---------------------------------------------------------------------------

/// A point in time.
pub open spec fn time_view(at: Timestamp) -> JsonView {
    JsonView::String(chrono_rfc3339_zulu(at))
}

fn json_time(at: Timestamp) -> (r: Json)
    ensures
        r@ == time_view(at),
{
    Json::String(at.to_rfc3339_zulu())
}

/// Token counts.
pub open spec fn tokens_json(tokens: TokenUsage) -> JsonView {
    JsonView::Object(
        seq![
            ("input_tokens"@, JsonView::PosInt(tokens.input_tokens)),
            ("output_tokens"@, JsonView::PosInt(tokens.output_tokens)),
            ("total_tokens"@, JsonView::PosInt(tokens.total_tokens)),
        ],
    )
}

fn tokens_to_json(tokens: &TokenUsage) -> (r: Json)
    ensures
        r@ == tokens_json(*tokens),
{
    let mut members = with_member(Vec::new(), "input_tokens", Json::PosInt(tokens.input_tokens));
    members = with_member(members, "output_tokens", Json::PosInt(tokens.output_tokens));
    members = with_member(members, "total_tokens", Json::PosInt(tokens.total_tokens));
    proof {
        assert(members.deep_view() =~= tokens_json(*tokens)->Object_0);
    }
    json_object(members)
}

/// A retry.
pub open spec fn retry_json(entry: RetryEntryView) -> JsonView {
    JsonView::Object(
        seq![
            ("issue_id"@, JsonView::String(entry.issue_id)),
            ("identifier"@, JsonView::String(entry.identifier)),
            ("attempt"@, JsonView::PosInt(entry.attempt as u64)),
            ("due_at"@, time_view(entry.due_at)),
            ("error"@, optional_string_view(entry.error)),
        ],
    )
}

fn retry_to_json(entry: &RetryEntry) -> (r: Json)
    ensures
        r@ == retry_json(entry@),
{
    let mut members = with_member(Vec::new(), "issue_id", json_string(entry.issue_id.as_str()));
    members = with_member(members, "identifier", json_string(entry.identifier.as_str()));
    members = with_member(members, "attempt", Json::PosInt(entry.attempt as u64));
    members = with_member(members, "due_at", json_time(entry.due_at));
    members = with_member(members, "error", json_optional_string(&entry.error));
    proof {
        assert(members.deep_view() =~= retry_json(entry@)->Object_0);
    }
    json_object(members)
}

/// What is shown of a run.
pub open spec fn row_json(row: RuntimeRunningRowView) -> JsonView {
    JsonView::Object(
        seq![
            ("issue_id"@, JsonView::String(row.issue_id)),
            ("issue_identifier"@, JsonView::String(row.issue_identifier)),
            ("state"@, JsonView::String(row.state)),
            ("session_id"@, optional_string_view(row.session_id)),
            ("turn_count"@, JsonView::PosInt(row.turn_count as u64)),
            ("last_event"@, optional_string_view(row.last_event)),
            ("last_message"@, JsonView::String(row.last_message)),
            ("started_at"@, time_view(row.started_at)),
            ("last_event_at"@, optional_time_view(row.last_event_at)),
            ("tokens"@, tokens_json(row.tokens)),
        ],
    )
}

fn row_to_json(row: &RuntimeRunningRow) -> (r: Json)
    ensures
        r@ == row_json(row@),
{
    let mut members = with_member(Vec::new(), "issue_id", json_string(row.issue_id.as_str()));
    members = with_member(members, "issue_identifier", json_string(row.issue_identifier.as_str()));
    members = with_member(members, "state", json_string(row.state.as_str()));
    members = with_member(members, "session_id", json_optional_string(&row.session_id));
    members = with_member(members, "turn_count", Json::PosInt(row.turn_count as u64));
    members = with_member(members, "last_event", json_optional_string(&row.last_event));
    members = with_member(members, "last_message", json_string(row.last_message.as_str()));
    members = with_member(members, "started_at", json_time(row.started_at));
    members = with_member(members, "last_event_at", json_optional_time(row.last_event_at));
    members = with_member(members, "tokens", tokens_to_json(&row.tokens));
    proof {
        assert(members.deep_view() =~= row_json(row@)->Object_0);
    }
    json_object(members)
}

/// Totals over all sessions, with the time in seconds as it is given.
pub open spec fn totals_json(totals: CodexTotals, seconds_running: JsonView) -> JsonView {
    JsonView::Object(
        seq![
            ("input_tokens"@, JsonView::PosInt(totals.input_tokens)),
            ("output_tokens"@, JsonView::PosInt(totals.output_tokens)),
            ("total_tokens"@, JsonView::PosInt(totals.total_tokens)),
            ("seconds_running"@, seconds_running),
        ],
    )
}

fn totals_to_json(totals: &CodexTotals, seconds_running: Json) -> (r: Json)
    ensures
        r@ == totals_json(*totals, seconds_running@),
{
    let ghost seconds_view = seconds_running@;
    let mut members = with_member(Vec::new(), "input_tokens", Json::PosInt(totals.input_tokens));
    members = with_member(members, "output_tokens", Json::PosInt(totals.output_tokens));
    members = with_member(members, "total_tokens", Json::PosInt(totals.total_tokens));
    members = with_member(members, "seconds_running", seconds_running);
    proof {
        assert(members.deep_view() =~= totals_json(*totals, seconds_view)->Object_0);
    }
    json_object(members)
}

/// The state of the service, with the time in seconds as it is given.
pub open spec fn snapshot_json(snapshot: RuntimeSnapshotView, seconds_running: JsonView) -> JsonView {
    JsonView::Object(
        seq![
            ("generated_at"@, time_view(snapshot.generated_at)),
            (
                "counts"@,
                JsonView::Object(
                    seq![
                        ("running"@, JsonView::PosInt(snapshot.counts.running as u64)),
                        ("retrying"@, JsonView::PosInt(snapshot.counts.retrying as u64)),
                    ],
                ),
            ),
            (
                "running"@,
                JsonView::Array(
                    snapshot.running.map_values(|row: RuntimeRunningRowView| row_json(row)),
                ),
            ),
            (
                "retrying"@,
                JsonView::Array(
                    snapshot.retrying.map_values(|entry: RetryEntryView| retry_json(entry)),
                ),
            ),
            ("codex_totals"@, totals_json(snapshot.codex_totals, seconds_running)),
            (
                "rate_limits"@,
                match snapshot.rate_limits {
                    Some(limits) => limits,
                    None => JsonView::Null,
                },
            ),
        ],
    )
}

/// The state of the service as JSON, with the time in seconds as it is given.
pub fn snapshot_to_json(snapshot: &RuntimeSnapshot, seconds_running: Json) -> (r: Json)
    ensures
        r@ == snapshot_json(snapshot@, seconds_running@),
{
    let ghost seconds_view = seconds_running@;
    let mut rows: Vec<Json> = Vec::new();
    for i in 0..snapshot.running.len()
        invariant
            rows@.len() == i,
            forall|j: int|
                0 <= j < i ==> (#[trigger] rows@[j])@ == row_json(snapshot.running@[j]@),
    {
        rows.push(row_to_json(&snapshot.running[i]));
    }
    let mut retries: Vec<Json> = Vec::new();
    for i in 0..snapshot.retrying.len()
        invariant
            retries@.len() == i,
            forall|j: int|
                0 <= j < i ==> (#[trigger] retries@[j])@ == retry_json(snapshot.retrying@[j]@),
    {
        retries.push(retry_to_json(&snapshot.retrying[i]));
    }
    proof {
        assert(rows.deep_view() =~= snapshot@.running.map_values(
            |row: RuntimeRunningRowView| row_json(row),
        ));
        assert(retries.deep_view() =~= snapshot@.retrying.map_values(
            |entry: RetryEntryView| retry_json(entry),
        ));
    }
    let counts = json_object_of_two(
        "running",
        Json::PosInt(snapshot.counts.running as u64),
        "retrying",
        Json::PosInt(snapshot.counts.retrying as u64),
    );
    let limits = match &snapshot.rate_limits {
        Some(limits) => limits.clone(),
        None => Json::Null,
    };
    let mut members = with_member(Vec::new(), "generated_at", json_time(snapshot.generated_at));
    members = with_member(members, "counts", counts);
    members = with_member(members, "running", json_array(rows));
    members = with_member(members, "retrying", json_array(retries));
    members = with_member(
        members,
        "codex_totals",
        totals_to_json(&snapshot.codex_totals, seconds_running),
    );
    members = with_member(members, "rate_limits", limits);
    proof {
        assert(members.deep_view() =~= snapshot_json(snapshot@, seconds_view)->Object_0);
    }
    json_object(members)
}

/// A number of attempts, or null.
pub open spec fn optional_count_view(count: Option<u32>) -> JsonView {
    match count {
        Some(count) => JsonView::PosInt(count as u64),
        None => JsonView::Null,
    }
}

/// The run of an issue, for debugging.
pub open spec fn run_details_json(run: IssueRunningDebugInfoView) -> JsonView {
    JsonView::Object(
        seq![
            ("session_id"@, optional_string_view(run.session_id)),
            ("turn_count"@, JsonView::PosInt(run.turn_count as u64)),
            ("state"@, JsonView::String(run.state)),
            ("started_at"@, time_view(run.started_at)),
            ("last_event"@, optional_string_view(run.last_event)),
            ("last_message"@, JsonView::String(run.last_message)),
            ("last_event_at"@, optional_time_view(run.last_event_at)),
            ("tokens"@, tokens_json(run.tokens)),
        ],
    )
}

fn run_details_to_json(run: &IssueRunningDebugInfo) -> (r: Json)
    ensures
        r@ == run_details_json(run@),
{
    let mut members = with_member(Vec::new(), "session_id", json_optional_string(&run.session_id));
    members = with_member(members, "turn_count", Json::PosInt(run.turn_count as u64));
    members = with_member(members, "state", json_string(run.state.as_str()));
    members = with_member(members, "started_at", json_time(run.started_at));
    members = with_member(members, "last_event", json_optional_string(&run.last_event));
    members = with_member(members, "last_message", json_string(run.last_message.as_str()));
    members = with_member(members, "last_event_at", json_optional_time(run.last_event_at));
    members = with_member(members, "tokens", tokens_to_json(&run.tokens));
    proof {
        assert(members.deep_view() =~= run_details_json(run@)->Object_0);
    }
    json_object(members)
}

/// Where a log is found.
pub open spec fn log_json(log: LogReferenceView) -> JsonView {
    JsonView::Object(
        seq![
            ("label"@, JsonView::String(log.label)),
            ("path"@, JsonView::String(log.path)),
            ("url"@, optional_string_view(log.url)),
        ],
    )
}

fn log_to_json(log: &LogReference) -> (r: Json)
    ensures
        r@ == log_json(log@),
{
    let mut members = with_member(Vec::new(), "label", json_string(log.label.as_str()));
    members = with_member(members, "path", json_string(log.path.as_str()));
    members = with_member(members, "url", json_optional_string(&log.url));
    proof {
        assert(members.deep_view() =~= log_json(log@)->Object_0);
    }
    json_object(members)
}

/// An event of a run.
pub open spec fn event_json(event: RecentEventView) -> JsonView {
    JsonView::Object(
        seq![
            ("at"@, time_view(event.at)),
            ("event"@, JsonView::String(event.event)),
            ("message"@, JsonView::String(event.message)),
        ],
    )
}

fn event_to_json(event: &RecentEvent) -> (r: Json)
    ensures
        r@ == event_json(event@),
{
    let mut members = with_member(Vec::new(), "at", json_time(event.at));
    members = with_member(members, "event", json_string(event.event.as_str()));
    members = with_member(members, "message", json_string(event.message.as_str()));
    proof {
        assert(members.deep_view() =~= event_json(event@)->Object_0);
    }
    json_object(members)
}

/// All that is told of one issue.
pub open spec fn issue_details_json(issue: IssueDebugSnapshotView) -> JsonView {
    JsonView::Object(
        seq![
            ("issue_identifier"@, JsonView::String(issue.issue_identifier)),
            ("issue_id"@, JsonView::String(issue.issue_id)),
            ("status"@, JsonView::String(issue.status)),
            ("workspace"@, JsonView::Object(seq![("path"@, JsonView::String(issue.workspace.path))])),
            (
                "attempts"@,
                JsonView::Object(
                    seq![
                        ("restart_count"@, JsonView::PosInt(issue.attempts.restart_count as u64)),
                        (
                            "current_retry_attempt"@,
                            optional_count_view(issue.attempts.current_retry_attempt),
                        ),
                    ],
                ),
            ),
            (
                "running"@,
                match issue.running {
                    Some(run) => run_details_json(run),
                    None => JsonView::Null,
                },
            ),
            (
                "retry"@,
                match issue.retry {
                    Some(entry) => retry_json(entry),
                    None => JsonView::Null,
                },
            ),
            (
                "logs"@,
                JsonView::Object(
                    seq![
                        (
                            "codex_session_logs"@,
                            JsonView::Array(
                                issue.logs.codex_session_logs.map_values(
                                    |log: LogReferenceView| log_json(log),
                                ),
                            ),
                        ),
                    ],
                ),
            ),
            (
                "recent_events"@,
                JsonView::Array(
                    issue.recent_events.map_values(|event: RecentEventView| event_json(event)),
                ),
            ),
            ("last_error"@, optional_string_view(issue.last_error)),
            ("tracked"@, JsonView::Object(issue.tracking)),
        ],
    )
}

fn entries_to_json(entries: &StringMap<Json>) -> (r: Json)
    ensures
        r@ == JsonView::Object(entries.entry_views()),
{
    let n = entries.size();
    let mut members: Vec<(String, Json)> = Vec::new();
    for i in 0..n
        invariant
            n == entries.entries().len(),
            members@.len() == i,
            forall|j: int|
                0 <= j < i ==> (#[trigger] members@[j]).0@ == entries.entries()[j].0
                    && members@[j].1@ == entries.entries()[j].1@,
    {
        members.push((entries.key_at(i).to_owned(), entries.value_at(i).clone()));
    }
    proof {
        assert(members.deep_view() =~= entries.entry_views());
    }
    json_object(members)
}

/// All that is told of one issue, as JSON.
pub fn issue_details_to_json(issue: &IssueDebugSnapshot) -> (r: Json)
    ensures
        r@ == issue_details_json(issue@),
{
    let mut logs: Vec<Json> = Vec::new();
    for i in 0..issue.logs.codex_session_logs.len()
        invariant
            logs@.len() == i,
            forall|j: int|
                0 <= j < i ==> (#[trigger] logs@[j])@ == log_json(
                    issue.logs.codex_session_logs@[j]@,
                ),
    {
        logs.push(log_to_json(&issue.logs.codex_session_logs[i]));
    }
    let mut events: Vec<Json> = Vec::new();
    for i in 0..issue.recent_events.len()
        invariant
            events@.len() == i,
            forall|j: int|
                0 <= j < i ==> (#[trigger] events@[j])@ == event_json(issue.recent_events@[j]@),
    {
        events.push(event_to_json(&issue.recent_events[i]));
    }
    proof {
        assert(logs.deep_view() =~= issue@.logs.codex_session_logs.map_values(
            |log: LogReferenceView| log_json(log),
        ));
        assert(events.deep_view() =~= issue@.recent_events.map_values(
            |event: RecentEventView| event_json(event),
        ));
    }
    let current = match issue.attempts.current_retry_attempt {
        Some(count) => Json::PosInt(count as u64),
        None => Json::Null,
    };
    let attempts = json_object_of_two(
        "restart_count",
        Json::PosInt(issue.attempts.restart_count as u64),
        "current_retry_attempt",
        current,
    );
    let running = match &issue.running {
        Some(run) => run_details_to_json(run),
        None => Json::Null,
    };
    let retry = match &issue.retry {
        Some(entry) => retry_to_json(entry),
        None => Json::Null,
    };
    let mut members = with_member(
        Vec::new(),
        "issue_identifier",
        json_string(issue.issue_identifier.as_str()),
    );
    members = with_member(members, "issue_id", json_string(issue.issue_id.as_str()));
    members = with_member(members, "status", json_string(issue.status.as_str()));
    members = with_member(
        members,
        "workspace",
        json_object_of_one("path", json_string(issue.workspace.path.as_str())),
    );
    members = with_member(members, "attempts", attempts);
    members = with_member(members, "running", running);
    members = with_member(members, "retry", retry);
    members = with_member(
        members,
        "logs",
        json_object_of_one("codex_session_logs", json_array(logs)),
    );
    members = with_member(members, "recent_events", json_array(events));
    members = with_member(members, "last_error", json_optional_string(&issue.last_error));
    members = with_member(members, "tracked", entries_to_json(&issue.tracking));
    proof {
        assert(members.deep_view() =~= issue_details_json(issue@)->Object_0);
    }
    json_object(members)
}

// ---------------------------------------------------------------------------
// Answers
// ---------------------------------------------------------------------------

/// An answer: its status, and its body.
#[derive(Debug, PartialEq)]
pub struct HttpReply {
    pub status: u16,
    pub body: Json,
}

/// The body of an answer that tells of an error.
pub open spec fn error_view(code: Seq<char>, message: Seq<char>) -> JsonView {
    JsonView::Object(
        seq![
            (
                "error"@,
                JsonView::Object(
                    seq![("code"@, JsonView::String(code)), ("message"@, JsonView::String(message))],
                ),
            ),
        ],
    )
}

/// The body of an answer that tells of an error.
pub fn error_body(code: &str, message: &str) -> (r: Json)
    ensures
        r@ == error_view(code@, message@),
{
    json_object_of_one(
        "error",
        json_object_of_two("code", json_string(code), "message", json_string(message)),
    )
}

/// The status and the body of the answer to a request for the state of the service.
pub open spec fn state_answer(store: SnapshotStoreView, seconds_running: JsonView) -> (
    u16,
    JsonView,
) {
    match store.snapshot {
        Some(snapshot) => (STATUS_OK, snapshot_json(snapshot, seconds_running)),
        None => (
            STATUS_SERVICE_UNAVAILABLE,
            error_view("unavailable"@, "runtime snapshot is not available yet"@),
        ),
    }
}

/// The status and the body of the answer to a request for one issue.
pub open spec fn issue_answer(store: SnapshotStoreView, identifier: Seq<char>) -> (u16, JsonView) {
    match store.issue(identifier) {
        Some(issue) => (STATUS_OK, issue_details_json(issue)),
        None => (
            STATUS_NOT_FOUND,
            error_view(
                "issue_not_found"@,
                "issue "@ + identifier + " is not tracked in memory"@,
            ),
        ),
    }
}

/// The answer to a request for the state of the service, with the time in seconds as it is given.
pub fn state_reply(store: &SnapshotStore, seconds_running: Json) -> (r: HttpReply)
    ensures
        (r.status, r.body@) == state_answer(store@, seconds_running@),
{
    match store.snapshot() {
        Some(snapshot) => HttpReply {
            status: STATUS_OK,
            body: snapshot_to_json(snapshot, seconds_running),
        },
        None => HttpReply {
            status: STATUS_SERVICE_UNAVAILABLE,
            body: error_body("unavailable", "runtime snapshot is not available yet"),
        },
    }
}

/// The answer to a request for one issue.
pub fn issue_reply(store: &SnapshotStore, issue_identifier: &str) -> (r: HttpReply)
    ensures
        (r.status, r.body@) == issue_answer(store@, issue_identifier@),
{
    match store.issue(issue_identifier) {
        Some(issue) => HttpReply { status: STATUS_OK, body: issue_details_to_json(issue) },
        None => {
            let mut message = "issue ".to_owned();
            message.append(issue_identifier);
            message.append(" is not tracked in memory");
            HttpReply {
                status: STATUS_NOT_FOUND,
                body: error_body("issue_not_found", message.as_str()),
            }
        },
    }
}

/// What became of a request for a refresh.
#[derive(Clone, Copy, Debug, PartialEq, Eq)]
pub enum RefreshOutcome {
    /// The scheduler could not be told.
    Closed,
    /// The scheduler was told, and gave no answer.
    Unanswered,
    /// The scheduler was told, and answered whether a refresh was asked for already.
    Answered(bool),
}

/// The body of the answer to a request for a refresh that was taken in.
pub open spec fn refresh_json(coalesced: bool, requested_at: Timestamp) -> JsonView {
    JsonView::Object(
        seq![
            ("queued"@, JsonView::Bool(true)),
            ("coalesced"@, JsonView::Bool(coalesced)),
            ("requested_at"@, time_view(requested_at)),
            (
                "operations"@,
                JsonView::Array(
                    seq![JsonView::String("poll"@), JsonView::String("reconcile"@)],
                ),
            ),
        ],
    )
}

/// The answer to a request for a refresh. Without an answer of the scheduler the request counts as one
/// that was made already.
pub fn refresh_reply(outcome: RefreshOutcome, requested_at: Timestamp) -> (r: HttpReply)
    ensures
        match outcome {
            RefreshOutcome::Closed => r.status == STATUS_SERVICE_UNAVAILABLE && r.body@
                == error_view("unavailable"@, "refresh channel is closed"@),
            RefreshOutcome::Unanswered => r.status == STATUS_ACCEPTED && r.body@ == refresh_json(
                true,
                requested_at,
            ),
            RefreshOutcome::Answered(coalesced) => r.status == STATUS_ACCEPTED && r.body@
                == refresh_json(coalesced, requested_at),
        },
{
    let coalesced = match outcome {
        RefreshOutcome::Closed => {
            return HttpReply {
                status: STATUS_SERVICE_UNAVAILABLE,
                body: error_body("unavailable", "refresh channel is closed"),
            };
        },
        RefreshOutcome::Unanswered => true,
        RefreshOutcome::Answered(coalesced) => coalesced,
    };
    let mut operations: Vec<Json> = Vec::new();
    operations.push(json_string("poll"));
    operations.push(json_string("reconcile"));
    proof {
        assert(operations.deep_view() =~= seq![
            JsonView::String("poll"@),
            JsonView::String("reconcile"@),
        ]);
    }
    let mut members = with_member(Vec::new(), "queued", Json::Bool(true));
    members = with_member(members, "coalesced", Json::Bool(coalesced));
    members = with_member(members, "requested_at", json_time(requested_at));
    members = with_member(members, "operations", json_array(operations));
    proof {
        assert(members.deep_view() =~= refresh_json(coalesced, requested_at)->Object_0);
    }
    HttpReply { status: STATUS_ACCEPTED, body: json_object(members) }
}

// ---------------------------------------------------------------------------
// The page
// ---------------------------------------------------------------------------

/// A text, empty where there is none.
pub open spec fn shown(text: Option<Seq<char>>) -> Seq<char> {
    match text {
        Some(text) => text,
        None => seq![],
    }
}

/// A run on the page.
pub open spec fn row_html(row: RuntimeRunningRowView) -> Seq<char> {
    "<tr><td>"@ + row.issue_identifier + "</td><td>"@ + row.state + "</td><td>"@ + decimal(
        row.turn_count as nat,
    ) + "</td><td>"@ + shown(row.last_event) + "</td><td>"@ + row.last_message + "</td></tr>"@
}

/// Runs on the page.
pub open spec fn rows_html(rows: Seq<RuntimeRunningRowView>) -> Seq<char>
    decreases rows.len(),
{
    if rows.len() == 0 {
        seq![]
    } else {
        rows_html(rows.drop_last()) + row_html(rows.last())
    }
}

/// A retry on the page.
pub open spec fn retry_html(entry: RetryEntryView) -> Seq<char> {
    "<tr><td>"@ + entry.identifier + "</td><td>"@ + decimal(entry.attempt as nat) + "</td><td>"@
        + chrono_display(entry.due_at) + "</td><td>"@ + shown(entry.error) + "</td></tr>"@
}

/// Retries on the page.
pub open spec fn retries_html(entries: Seq<RetryEntryView>) -> Seq<char>
    decreases entries.len(),
{
    if entries.len() == 0 {
        seq![]
    } else {
        retries_html(entries.drop_last()) + retry_html(entries.last())
    }
}

/// The page, with the time in seconds as it is given.
pub open spec fn snapshot_html(snapshot: RuntimeSnapshotView, seconds: Seq<char>) -> Seq<char> {
    "<html><body><h1>Symphony</h1><p>Generated at "@ + chrono_display(snapshot.generated_at)
        + "</p><h2>Running ("@ + decimal(snapshot.counts.running as nat)
        + ")</h2><table border=\"1\"><tr><th>Issue</th><th>State</th><th>Turns</th><th>Last Event</th><th>Message</th></tr>"@
        + rows_html(snapshot.running) + "</table><h2>Retrying ("@ + decimal(
        snapshot.counts.retrying as nat,
    )
        + ")</h2><table border=\"1\"><tr><th>Issue</th><th>Attempt</th><th>Due</th><th>Error</th></tr>"@
        + retries_html(snapshot.retrying) + "</table><h2>Totals</h2><p>Input: "@ + decimal(
        snapshot.codex_totals.input_tokens as nat,
    ) + " Output: "@ + decimal(snapshot.codex_totals.output_tokens as nat) + " Total: "@ + decimal(
        snapshot.codex_totals.total_tokens as nat,
    ) + " Runtime Seconds: "@ + seconds + "</p></body></html>"@
}

fn append_shown(out: String, text: &Option<String>) -> (r: String)
    ensures
        r@ == out@ + shown(text.deep_view()),
{
    let mut r = out;
    match text {
        Some(text) => r.append(text.as_str()),
        None => {
            proof {
                assert(out@ + Seq::<char>::empty() =~= out@);
            }
        },
    }
    r
}

fn render_row(row: &RuntimeRunningRow) -> (r: String)
    ensures
        r@ == row_html(row@),
{
    let mut r = "<tr><td>".to_owned();
    r.append(row.issue_identifier.as_str());
    r.append("</td><td>");
    r.append(row.state.as_str());
    r.append("</td><td>");
    r.append(decimal_text(row.turn_count as u64).as_str());
    r.append("</td><td>");
    let mut r = append_shown(r, &row.last_event);
    r.append("</td><td>");
    r.append(row.last_message.as_str());
    r.append("</td></tr>");
    r
}

fn render_retry(entry: &RetryEntry) -> (r: String)
    ensures
        r@ == retry_html(entry@),
{
    let mut r = "<tr><td>".to_owned();
    r.append(entry.identifier.as_str());
    r.append("</td><td>");
    r.append(decimal_text(entry.attempt as u64).as_str());
    r.append("</td><td>");
    r.append(entry.due_at.to_display().as_str());
    r.append("</td><td>");
    let mut r = append_shown(r, &entry.error);
    r.append("</td></tr>");
    r
}

fn render_rows(rows: &Vec<RuntimeRunningRow>) -> (r: String)
    ensures
        r@ == rows_html(rows.deep_view()),
{
    let ghost views = rows.deep_view();
    let mut r = String::new();
    proof {
        assert(r@ =~= rows_html(views.take(0)));
    }
    for i in 0..rows.len()
        invariant
            views == rows.deep_view(),
            r@ == rows_html(views.take(i as int)),
    {
        proof {
            assert(views.take(i + 1).drop_last() =~= views.take(i as int));
            assert(views.take(i + 1).last() == rows@[i as int]@);
        }
        r.append(render_row(&rows[i]).as_str());
    }
    proof {
        assert(views.take(rows@.len() as int) =~= views);
    }
    r
}

fn render_retries(entries: &Vec<RetryEntry>) -> (r: String)
    ensures
        r@ == retries_html(entries.deep_view()),
{
    let ghost views = entries.deep_view();
    let mut r = String::new();
    proof {
        assert(r@ =~= retries_html(views.take(0)));
    }
    for i in 0..entries.len()
        invariant
            views == entries.deep_view(),
            r@ == retries_html(views.take(i as int)),
    {
        proof {
            assert(views.take(i + 1).drop_last() =~= views.take(i as int));
            assert(views.take(i + 1).last() == entries@[i as int]@);
        }
        r.append(render_retry(&entries[i]).as_str());
    }
    proof {
        assert(views.take(entries@.len() as int) =~= views);
    }
    r
}

/// The page, with the time in seconds as it is given.
pub fn render_snapshot_html(snapshot: &RuntimeSnapshot, seconds: &str) -> (r: String)
    ensures
        r@ == snapshot_html(snapshot@, seconds@),
{
    let mut r = "<html><body><h1>Symphony</h1><p>Generated at ".to_owned();
    r.append(snapshot.generated_at.to_display().as_str());
    r.append("</p><h2>Running (");
    r.append(decimal_text(snapshot.counts.running as u64).as_str());
    r.append(
        ")</h2><table border=\"1\"><tr><th>Issue</th><th>State</th><th>Turns</th><th>Last Event</th><th>Message</th></tr>",
    );
    r.append(render_rows(&snapshot.running).as_str());
    r.append("</table><h2>Retrying (");
    r.append(decimal_text(snapshot.counts.retrying as u64).as_str());
    r.append(
        ")</h2><table border=\"1\"><tr><th>Issue</th><th>Attempt</th><th>Due</th><th>Error</th></tr>",
    );
    r.append(render_retries(&snapshot.retrying).as_str());
    r.append("</table><h2>Totals</h2><p>Input: ");
    r.append(decimal_text(snapshot.codex_totals.input_tokens).as_str());
    r.append(" Output: ");
    r.append(decimal_text(snapshot.codex_totals.output_tokens).as_str());
    r.append(" Total: ");
    r.append(decimal_text(snapshot.codex_totals.total_tokens).as_str());
    r.append(" Runtime Seconds: ");
    r.append(seconds);
    r.append("</p></body></html>");
    r
}

/// The page that is shown, with the time in seconds as it is given.
pub fn dashboard(store: &SnapshotStore, seconds: &str) -> (r: String)
    ensures
        r@ == match store@.snapshot {
            Some(snapshot) => snapshot_html(snapshot, seconds@),
            None => "<html><body><h1>Symphony</h1><p>No state yet.</p></body></html>"@,
        },
{
    match store.snapshot() {
        Some(snapshot) => render_snapshot_html(snapshot, seconds),
        None => "<html><body><h1>Symphony</h1><p>No state yet.</p></body></html>".to_owned(),
    }
}

// ---------------------------------------------------------------------------
// Laws
// ---------------------------------------------------------------------------

/// What was published last is what is answered: the state as it was published, and of every issue
/// what was published of it, or that there is nothing.
pub proof fn lemma_published_state_is_answered(
    snapshot: RuntimeSnapshotView,
    issues: Map<Seq<char>, IssueDebugSnapshotView>,
    identifier: Seq<char>,
    seconds_running: JsonView,
)
    ensures
        ({
            let store = SnapshotStoreView { snapshot: Some(snapshot), issues };
            &&& state_answer(store, seconds_running) == (
                STATUS_OK,
                snapshot_json(snapshot, seconds_running),
            )
            &&& issues.contains_key(identifier) ==> issue_answer(store, identifier) == (
                STATUS_OK,
                issue_details_json(issues[identifier]),
            )
            &&& !issues.contains_key(identifier) ==> issue_answer(store, identifier).0
                == STATUS_NOT_FOUND
        }),
{
}

} // verus!
