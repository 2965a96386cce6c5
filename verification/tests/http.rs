use symphony::http::{
    dashboard, error_body, issue_reply, refresh_reply, render_snapshot_html, state_reply,
    RefreshOutcome, SnapshotStore,
};
use symphony::json::Json;
use symphony::string_map::StringMap;
use symphony::time::Timestamp;
use symphony::types::{
    AttemptDebugInfo, CodexTotals, IssueDebugSnapshot, IssueRunningDebugInfo, LogDebugInfo,
    LogReference, RecentEvent, RetryEntry, RuntimeRunningRow, RuntimeSnapshot, SnapshotCounts,
    TokenUsage, WorkspaceDebugInfo,
};

fn at(seconds: i64) -> Timestamp {
    Timestamp::new(seconds, 0).unwrap()
}

fn snapshot() -> RuntimeSnapshot {
    RuntimeSnapshot {
        generated_at: at(0),
        counts: SnapshotCounts { running: 1, retrying: 1 },
        running: vec![RuntimeRunningRow {
            issue_id: "issue-1".into(),
            issue_identifier: "ABC-1".into(),
            state: "In Progress".into(),
            session_id: Some("thread-1-turn-1".into()),
            turn_count: 1,
            last_event: Some("turn_completed".into()),
            last_message: "done".into(),
            started_at: at(1),
            last_event_at: None,
            tokens: TokenUsage { input_tokens: 1, output_tokens: 2, total_tokens: 3 },
        }],
        retrying: vec![RetryEntry {
            issue_id: "issue-2".into(),
            identifier: "ABC-2".into(),
            attempt: 2,
            due_at: at(2),
            error: Some("retry".into()),
        }],
        codex_totals: CodexTotals {
            input_tokens: 1,
            output_tokens: 2,
            total_tokens: 3,
            millis_running: 4_000,
        },
        rate_limits: None,
    }
}

fn details() -> IssueDebugSnapshot {
    IssueDebugSnapshot {
        issue_identifier: "ABC-1".into(),
        issue_id: "issue-1".into(),
        status: "running".into(),
        workspace: WorkspaceDebugInfo { path: "/tmp/work".into() },
        attempts: AttemptDebugInfo { restart_count: 0, current_retry_attempt: None },
        running: Some(IssueRunningDebugInfo {
            session_id: None,
            turn_count: 3,
            state: "Todo".into(),
            started_at: at(1),
            last_event: None,
            last_message: "m".into(),
            last_event_at: Some(at(2)),
            tokens: TokenUsage::default(),
        }),
        retry: None,
        logs: LogDebugInfo {
            codex_session_logs: vec![LogReference {
                label: "latest".into(),
                path: "/l".into(),
                url: None,
            }],
        },
        recent_events: vec![RecentEvent { at: at(3), event: "e".into(), message: "m".into() }],
        last_error: None,
        tracking: StringMap::new(),
    }
}

fn published() -> SnapshotStore {
    let mut store = SnapshotStore::new();
    let mut issues = StringMap::new();
    issues.insert("ABC-1".to_string(), details());
    store.publish(snapshot(), issues);
    store
}

#[test]
fn answers_that_there_is_no_state_yet() {
    let store = SnapshotStore::new();
    let reply = state_reply(&store, Json::Null);
    assert_eq!(reply.status, 503);
    assert_eq!(
        reply.body.to_text(),
        r#"{"error":{"code":"unavailable","message":"runtime snapshot is not available yet"}}"#
    );
    assert!(store.snapshot().is_none());
    assert_eq!(
        dashboard(&store, "0.0"),
        "<html><body><h1>Symphony</h1><p>No state yet.</p></body></html>"
    );
}

#[test]
fn answers_with_the_published_state() {
    let store = published();
    let reply = state_reply(&store, Json::parse("4.0").unwrap());
    assert_eq!(reply.status, 200);
    assert_eq!(
        reply.body.to_text(),
        r#"{"codex_totals":{"input_tokens":1,"output_tokens":2,"seconds_running":4.0,"total_tokens":3},"counts":{"retrying":1,"running":1},"generated_at":"1970-01-01T00:00:00Z","rate_limits":null,"retrying":[{"attempt":2,"due_at":"1970-01-01T00:00:02Z","error":"retry","identifier":"ABC-2","issue_id":"issue-2"}],"running":[{"issue_id":"issue-1","issue_identifier":"ABC-1","last_event":"turn_completed","last_event_at":null,"last_message":"done","session_id":"thread-1-turn-1","started_at":"1970-01-01T00:00:01Z","state":"In Progress","tokens":{"input_tokens":1,"output_tokens":2,"total_tokens":3},"turn_count":1}]}"#
    );
}

#[test]
fn answers_with_published_issues_only() {
    let store = published();
    let reply = issue_reply(&store, "ABC-1");
    assert_eq!(reply.status, 200);
    assert_eq!(
        reply.body.to_text(),
        r#"{"attempts":{"current_retry_attempt":null,"restart_count":0},"issue_id":"issue-1","issue_identifier":"ABC-1","last_error":null,"logs":{"codex_session_logs":[{"label":"latest","path":"/l","url":null}]},"recent_events":[{"at":"1970-01-01T00:00:03Z","event":"e","message":"m"}],"retry":null,"running":{"last_event":null,"last_event_at":"1970-01-01T00:00:02Z","last_message":"m","session_id":null,"started_at":"1970-01-01T00:00:01Z","state":"Todo","tokens":{"input_tokens":0,"output_tokens":0,"total_tokens":0},"turn_count":3},"status":"running","tracked":{},"workspace":{"path":"/tmp/work"}}"#
    );
    let missing = issue_reply(&store, "ABC-404");
    assert_eq!(missing.status, 404);
    assert_eq!(
        missing.body,
        error_body("issue_not_found", "issue ABC-404 is not tracked in memory")
    );
    assert_eq!(store.issue("ABC-1").unwrap().issue_id, "issue-1");
}

#[test]
fn answers_requests_for_a_refresh() {
    let closed = refresh_reply(RefreshOutcome::Closed, at(0));
    assert_eq!(closed.status, 503);
    assert_eq!(closed.body, error_body("unavailable", "refresh channel is closed"));
    let answered = refresh_reply(RefreshOutcome::Answered(false), at(0));
    assert_eq!(answered.status, 202);
    assert_eq!(
        answered.body.to_text(),
        r#"{"coalesced":false,"operations":["poll","reconcile"],"queued":true,"requested_at":"1970-01-01T00:00:00Z"}"#
    );
    let unanswered = refresh_reply(RefreshOutcome::Unanswered, at(0));
    assert_eq!(unanswered.body.get("coalesced"), Some(&Json::Bool(true)));
}

#[test]
fn renders_the_page() {
    let page = render_snapshot_html(&snapshot(), "4.0");
    assert_eq!(
        page,
        "<html><body><h1>Symphony</h1><p>Generated at 1970-01-01 00:00:00 UTC</p>\
         <h2>Running (1)</h2><table border=\"1\"><tr><th>Issue</th><th>State</th>\
         <th>Turns</th><th>Last Event</th><th>Message</th></tr>\
         <tr><td>ABC-1</td><td>In Progress</td><td>1</td><td>turn_completed</td><td>done</td></tr></table>\
         <h2>Retrying (1)</h2><table border=\"1\"><tr><th>Issue</th><th>Attempt</th>\
         <th>Due</th><th>Error</th></tr>\
         <tr><td>ABC-2</td><td>2</td><td>1970-01-01 00:00:02 UTC</td><td>retry</td></tr></table>\
         <h2>Totals</h2><p>Input: 1 Output: 2 Total: 3 Runtime Seconds: 4.0</p></body></html>"
    );
    assert_eq!(dashboard(&published(), "4.0"), page);
}
