use symphony::error::SymphonyError;
use symphony::json::Json;
use symphony::orchestrator::{
    add_runtime, apply_absolute_tokens, listening_port, retry_delay_ms, startup_cleanup_effects,
    Effect, OrchestratorState, RunningRuntime, StopReason,
};
use symphony::protocol::SessionUpdate;
use symphony::queue::sort_issues_for_dispatch;
use symphony::snapshot::{build_issue_debug_map, build_runtime_snapshot};
use symphony::string_map::{StringMap, StringSet};
use symphony::time::Timestamp;
use symphony::types::{
    AgentSettings, BlockerRef, CodexSettings, CodexTotals, EffectiveConfig, HookSettings, Issue,
    LiveSession, PollingSettings, RunningEntry, ServerSettings, TokenUsage, TrackerSettings,
    WorkspaceSettings,
};
use symphony::worker::{WorkerEvent, WorkerExit, WorkerOutcome};
use symphony::workspace::CurrentDir;

fn test_config() -> EffectiveConfig {
    EffectiveConfig {
        workflow_path: "WORKFLOW.md".into(),
        prompt_template: "Hello".into(),
        tracker: TrackerSettings {
            kind: "linear".into(),
            endpoint: "http://example.com".into(),
            api_key: "token".into(),
            project_slug: "proj".into(),
            active_states: vec!["Todo".into(), "In Progress".into()],
            terminal_states: vec!["Done".into()],
        },
        polling: PollingSettings { interval_ms: 30_000 },
        workspace: WorkspaceSettings { root: "/tmp/symphony".into() },
        hooks: HookSettings { timeout_ms: 60_000, ..HookSettings::default() },
        agent: AgentSettings {
            max_concurrent_agents: 2,
            max_turns: 20,
            max_retry_backoff_ms: 300_000,
            max_concurrent_agents_by_state: StringMap::new(),
        },
        codex: CodexSettings {
            command: "codex app-server".into(),
            approval_policy: Json::String("never".into()),
            thread_sandbox: Json::String("danger-full-access".into()),
            turn_sandbox_policy: Json::parse(r#"{"type": "dangerFullAccess"}"#).unwrap(),
            turn_timeout_ms: 1000,
            read_timeout_ms: 1000,
            stall_timeout_ms: 1000,
        },
        server: ServerSettings::default(),
    }
}

fn test_state() -> OrchestratorState {
    OrchestratorState::new(test_config())
}

fn now() -> Timestamp {
    Timestamp::new(1_000_000, 0).unwrap()
}

fn seconds_later(seconds: i64) -> Timestamp {
    Timestamp::new(1_000_000 + seconds, 0).unwrap()
}

fn root() -> CurrentDir {
    CurrentDir::Known("/".to_string())
}

fn issue(id: &str, state: &str) -> Issue {
    Issue {
        id: id.into(),
        identifier: format!("ABC-{}", id),
        title: "Example".into(),
        state: state.into(),
        ..Issue::default()
    }
}

fn outcome(id: &str, exit: WorkerExit) -> WorkerOutcome {
    WorkerOutcome {
        issue: issue(id, "Todo"),
        attempt: None,
        workspace_path: "/tmp/symphony/x".into(),
        workspace_key: "x".into(),
        log_path: "latest.log".into(),
        exit,
        error: Some("broken".into()),
        turn_count: 1,
    }
}

fn update(id: &str, event: &str, message: Option<&str>) -> SessionUpdate {
    SessionUpdate {
        issue_id: id.into(),
        issue_identifier: format!("ABC-{}", id),
        event: event.into(),
        message: message.map(String::from),
        at: seconds_later(5),
        session_id: Some("s".into()),
        thread_id: Some("th".into()),
        turn_id: Some("tu".into()),
        pid: Some("42".into()),
        absolute_tokens: None,
        rate_limits: None,
        turn_count: None,
    }
}

fn consistent(state: &OrchestratorState) {
    for i in 0..state.running.len() {
        let id = state.running.key_at(i);
        assert!(state.claimed.contains(id));
        assert!(!state.retry_attempts.contains_key(id));
    }
    for i in 0..state.retry_attempts.len() {
        assert!(state.claimed.contains(state.retry_attempts.key_at(i)));
    }
}

#[test]
fn sorts_by_priority_then_age_then_identifier() {
    let mut issues = vec![
        Issue {
            id: "2".into(),
            identifier: "ABC-2".into(),
            title: "b".into(),
            priority: Some(2),
            created_at: Some(now()),
            state: "Todo".into(),
            ..Issue::default()
        },
        Issue {
            id: "1".into(),
            identifier: "ABC-1".into(),
            title: "a".into(),
            priority: Some(1),
            created_at: Some(seconds_later(-86_400)),
            state: "Todo".into(),
            ..Issue::default()
        },
    ];
    sort_issues_for_dispatch(&mut issues);
    assert_eq!(issues[0].identifier, "ABC-1");
}

#[test]
fn sorts_stably_with_missing_keys_last() {
    let make = |id: &str, identifier: &str, priority: Option<i64>, created: Option<i64>| Issue {
        id: id.into(),
        identifier: identifier.into(),
        priority,
        created_at: created.map(|seconds| Timestamp::new(seconds, 0).unwrap()),
        ..Issue::default()
    };
    let mut issues = vec![
        make("a", "X", None, Some(1)),
        make("b", "X", Some(1), None),
        make("c", "X", Some(1), Some(9)),
        make("d", "Y", Some(1), Some(3)),
        make("e", "X", Some(1), Some(3)),
        make("f", "X", Some(1), Some(3)),
        make("g", "X", Some(-1), None),
    ];
    sort_issues_for_dispatch(&mut issues);
    let order: Vec<&str> = issues.iter().map(|issue| issue.id.as_str()).collect();
    assert_eq!(order, vec!["g", "e", "f", "d", "c", "b", "a"]);
}

#[test]
fn blocks_todo_items_with_non_terminal_blockers() {
    let state = test_state();
    let issue = Issue {
        id: "1".into(),
        identifier: "ABC-1".into(),
        title: "Blocked".into(),
        state: "Todo".into(),
        blocked_by: vec![BlockerRef {
            id: Some("2".into()),
            identifier: Some("ABC-2".into()),
            state: Some("In Progress".into()),
        }],
        ..Issue::default()
    };
    assert!(!state.should_dispatch(&issue, None));
}

#[test]
fn allows_todo_items_with_terminal_blockers() {
    let state = test_state();
    let issue = Issue {
        id: "1".into(),
        identifier: "ABC-1".into(),
        title: "Ready".into(),
        state: "Todo".into(),
        blocked_by: vec![BlockerRef {
            id: Some("2".into()),
            identifier: Some("ABC-2".into()),
            state: Some("Done".into()),
        }],
        ..Issue::default()
    };
    assert!(state.should_dispatch(&issue, None));
}

#[test]
fn takes_up_workable_issues_only() {
    let state = test_state();
    assert!(state.should_dispatch(&issue("1", " IN progress "), None));
    assert!(!state.should_dispatch(&issue("1", "Done"), None));
    assert!(!state.should_dispatch(&issue("1", "Backlog"), None));
    for field in 0..4 {
        let mut incomplete = issue("1", "Todo");
        match field {
            0 => incomplete.id.clear(),
            1 => incomplete.identifier.clear(),
            2 => incomplete.title.clear(),
            _ => incomplete.state.clear(),
        }
        assert!(!state.should_dispatch(&incomplete, None));
    }
    let mut unknown = issue("1", "Todo");
    unknown.blocked_by = vec![BlockerRef::default()];
    assert!(!state.should_dispatch(&unknown, None));
    unknown.state = "In Progress".into();
    assert!(state.should_dispatch(&unknown, None));
}

#[test]
fn retry_backoff_is_capped() {
    let state = test_state();
    assert_eq!(retry_delay_ms(10, state.config.agent.max_retry_backoff_ms), 300_000);
}

#[test]
fn retry_backoff_doubles() {
    let delays: Vec<u64> = (0..7).map(|attempt| retry_delay_ms(attempt, 300_000)).collect();
    assert_eq!(delays, vec![10_000, 10_000, 20_000, 40_000, 80_000, 160_000, 300_000]);
    assert_eq!(retry_delay_ms(u32::MAX, u64::MAX), u64::MAX);
    assert_eq!(retry_delay_ms(50, u64::MAX), 10_000 * (1u64 << 49));
    assert_eq!(retry_delay_ms(3, 0), 0);
}

#[test]
fn reconcile_marks_stalled_runs_for_cancellation() {
    let mut state = test_state();
    state.running.insert(
        "1".into(),
        RunningRuntime {
            entry: RunningEntry {
                issue_id: "1".into(),
                issue_identifier: "ABC-1".into(),
                issue: Issue {
                    id: "1".into(),
                    identifier: "ABC-1".into(),
                    title: "stalled".into(),
                    state: "In Progress".into(),
                    ..Issue::default()
                },
                workspace_path: "/tmp/symphony/ABC-1".into(),
                retry_attempt: None,
                started_at: seconds_later(-10),
                session: LiveSession {
                    last_codex_timestamp: Some(seconds_later(-10)),
                    ..LiveSession::default()
                },
                recent_events: Vec::new(),
                last_error: None,
                log_path: None,
            },
            stop_reason: None,
        },
    );

    let effects = state.reconcile_stalled_runs(now());

    let running = state.running.get("1").expect("running entry should exist");
    assert_eq!(running.stop_reason, Some(StopReason::Stall));
    assert_eq!(effects, vec![Effect::CancelWorker { issue_id: "1".into() }]);
}

#[test]
fn silence_counts_from_the_last_event() {
    let mut state = test_state();
    state.dispatch_issue(issue("1", "Todo"), None, now(), &root());
    assert!(state.reconcile_stalled_runs(seconds_later(1)).is_empty());
    state.apply_session_update(update("1", "notification", None));
    assert!(state.reconcile_stalled_runs(seconds_later(6)).is_empty());
    assert_eq!(state.reconcile_stalled_runs(seconds_later(7)).len(), 1);
    state.config.codex.stall_timeout_ms = 0;
    assert!(state.reconcile_stalled_runs(seconds_later(9)).is_empty());
}

#[test]
fn dispatches_in_order_while_there_is_room() {
    let mut state = test_state();
    let mut urgent = issue("3", "Todo");
    urgent.priority = Some(1);
    let offered = vec![issue("1", "Todo"), issue("2", "Done"), urgent, issue("4", "Todo")];
    let effects = state.dispatch_candidates(offered, now(), &root());
    let started: Vec<&str> = effects
        .iter()
        .map(|effect| match effect {
            Effect::StartWorker { issue, attempt: None } => issue.id.as_str(),
            other => panic!("{:?}", other),
        })
        .collect();
    assert_eq!(started, vec!["3", "1"]);
    assert_eq!(state.available_global_slots(), 0);
    consistent(&state);
    let entry = &state.running.get("3").unwrap().entry;
    assert_eq!(entry.workspace_path, "/tmp/symphony/ABC-3");
    assert_eq!(
        entry.log_path.as_deref(),
        Some("/tmp/symphony/.symphony_logs/ABC-3/latest.log")
    );
    assert_eq!(entry.started_at, now());
    assert!(state.dispatch_candidates(vec![issue("5", "Todo")], now(), &root()).is_empty());
}

#[test]
fn respects_limits_by_state() {
    let mut state = test_state();
    state.config.agent.max_concurrent_agents = 5;
    state.config.agent.max_concurrent_agents_by_state.insert("todo".into(), 1);
    let offered =
        vec![issue("1", "Todo"), issue("2", "TODO "), issue("3", "In Progress"), issue("4", "todo")];
    let effects = state.dispatch_candidates(offered, now(), &root());
    assert_eq!(effects.len(), 2);
    assert_eq!(state.state_running_count("todo"), 1);
    assert_eq!(state.state_running_count("In Progress"), 1);
    assert_eq!(state.state_running_count("Done"), 0);
}

#[test]
fn does_not_take_up_claimed_issues() {
    let mut state = test_state();
    state.schedule_retry("1", "ABC-1", 2, None, 1_000, now());
    assert!(!state.should_dispatch(&issue("1", "Todo"), None));
    assert!(!state.should_dispatch(&issue("1", "Todo"), Some("2")));
    assert!(state.should_dispatch(&issue("1", "Todo"), Some("1")));
    let effects = state.dispatch_issue(issue("1", "Todo"), Some(2), now(), &root());
    assert_eq!(
        effects,
        vec![
            Effect::AbortRetry { issue_id: "1".into() },
            Effect::StartWorker { issue: issue("1", "Todo"), attempt: Some(2) },
        ]
    );
    assert!(!state.should_dispatch(&issue("1", "Todo"), Some("1")));
    consistent(&state);
}

#[test]
fn takes_in_the_news_of_sessions() {
    let mut state = test_state();
    state.dispatch_issue(issue("1", "Todo"), None, now(), &root());
    let mut news = update("1", "turn_failed", Some("bad"));
    news.absolute_tokens = Some(TokenUsage { input_tokens: 10, output_tokens: 5, total_tokens: 15 });
    news.rate_limits = Some(Json::PosInt(3));
    news.turn_count = Some(4);
    assert!(state.has_room_for_update(&news));
    state.apply_session_update(news);
    let mut again = update("1", "notification", None);
    again.absolute_tokens = Some(TokenUsage { input_tokens: 12, output_tokens: 4, total_tokens: 16 });
    state.apply_session_update(again);
    let entry = &state.running.get("1").unwrap().entry;
    assert_eq!(entry.session.last_codex_event.as_deref(), Some("notification"));
    assert_eq!(entry.session.last_codex_message.as_deref(), Some("bad"));
    assert_eq!(entry.session.turn_count, 4);
    assert_eq!(entry.session.session_id.as_deref(), Some("s"));
    assert_eq!(entry.session.codex_output_tokens, 4);
    assert_eq!(entry.last_error.as_deref(), Some("bad"));
    assert_eq!(entry.recent_events.len(), 2);
    assert_eq!(entry.recent_events[1].message, "");
    assert_eq!(state.rate_limits, Some(Json::PosInt(3)));
    assert_eq!(
        state.codex_totals,
        CodexTotals { input_tokens: 12, output_tokens: 5, total_tokens: 16, millis_running: 0 }
    );
    state.apply_session_update(update("2", "notification", None));
    assert_eq!(state.running.len(), 1);
}

#[test]
fn keeps_the_last_twenty_events() {
    let mut state = test_state();
    state.dispatch_issue(issue("1", "Todo"), None, now(), &root());
    for i in 0..25 {
        state.apply_session_update(update("1", &format!("e{}", i), None));
    }
    let events = &state.running.get("1").unwrap().entry.recent_events;
    assert_eq!(events.len(), 20);
    assert_eq!(events[0].event, "e5");
    assert_eq!(events[19].event, "e24");
}

#[test]
fn counts_tokens_once() {
    let mut live = LiveSession::default();
    let mut totals = CodexTotals::default();
    let told = |n: u64| TokenUsage { input_tokens: n, output_tokens: n, total_tokens: 2 * n };
    apply_absolute_tokens(&mut live, &mut totals, &told(5));
    apply_absolute_tokens(&mut live, &mut totals, &told(8));
    assert_eq!((totals.input_tokens, totals.total_tokens), (8, 16));
    apply_absolute_tokens(&mut live, &mut totals, &told(2));
    assert_eq!(totals.input_tokens, 8);
    apply_absolute_tokens(&mut live, &mut totals, &told(3));
    assert_eq!(totals.input_tokens, 9);
}

#[test]
fn notices_totals_without_room() {
    let mut state = test_state();
    state.dispatch_issue(issue("1", "Todo"), None, now(), &root());
    state.codex_totals.input_tokens = u64::MAX;
    let mut news = update("1", "x", None);
    news.absolute_tokens = Some(TokenUsage { input_tokens: 1, output_tokens: 0, total_tokens: 0 });
    assert!(!state.has_room_for_update(&news));
    news.issue_id = "2".into();
    assert!(state.has_room_for_update(&news));
}

#[test]
fn counts_time_forward_only() {
    let mut totals = CodexTotals::default();
    add_runtime(&mut totals, now(), seconds_later(2));
    add_runtime(&mut totals, seconds_later(2), now());
    assert_eq!(totals.millis_running, 2_000);
}

#[test]
fn follows_up_successful_runs() {
    let mut state = test_state();
    state.dispatch_issue(issue("1", "Todo"), Some(7), now(), &root());
    let done = outcome("1", WorkerExit::Succeeded);
    assert!(state.has_room_for_end(&done, seconds_later(3)));
    let effects = state.handle_worker_finished(done, seconds_later(3));
    assert_eq!(
        effects,
        vec![Effect::StartRetryTimer { issue_id: "1".into(), delay_ms: 1_000 }]
    );
    assert!(state.completed.contains("1"));
    let retry = state.retry_attempts.get("1").unwrap();
    assert_eq!((retry.attempt, retry.error.as_deref()), (1, None));
    assert_eq!(retry.due_at, seconds_later(4));
    assert_eq!(state.codex_totals.millis_running, 3_000);
    consistent(&state);
}

#[test]
fn tries_failed_runs_again() {
    let cases = vec![
        (WorkerExit::Failed, "broken"),
        (WorkerExit::TimedOut, "worker turn timeout"),
        (WorkerExit::Canceled, "worker canceled"),
    ];
    for (exit, message) in cases {
        let mut state = test_state();
        state.dispatch_issue(issue("1", "Todo"), Some(2), now(), &root());
        let effects =
            state.handle_worker_event(WorkerEvent::Finished(outcome("1", exit)), now());
        assert_eq!(
            effects,
            vec![Effect::StartRetryTimer { issue_id: "1".into(), delay_ms: 40_000 }]
        );
        let retry = state.retry_attempts.get("1").unwrap();
        assert_eq!((retry.attempt, retry.error.as_deref()), (3, Some(message)));
        assert!(!state.completed.contains("1"));
    }
}

#[test]
fn heeds_why_a_run_was_told_to_stop() {
    let mut state = test_state();
    state.dispatch_issue(issue("1", "Todo"), None, now(), &root());
    state.cancel_running_issue("1", StopReason::Terminal);
    state.cancel_running_issue("1", StopReason::Stall);
    let effects = state.handle_worker_finished(outcome("1", WorkerExit::Canceled), now());
    assert_eq!(effects, vec![Effect::CleanupWorkspace { identifier: "ABC-1".into() }]);
    assert!(!state.claimed.contains("1"));

    state.dispatch_issue(issue("1", "Todo"), None, now(), &root());
    state.cancel_running_issue("1", StopReason::NonActive);
    assert!(state.handle_worker_finished(outcome("1", WorkerExit::Canceled), now()).is_empty());
    assert!(!state.claimed.contains("1"));

    state.dispatch_issue(issue("1", "Todo"), None, now(), &root());
    state.cancel_running_issue("1", StopReason::Stall);
    state.handle_worker_finished(outcome("1", WorkerExit::Canceled), now());
    let retry = state.retry_attempts.get("1").unwrap();
    assert_eq!((retry.attempt, retry.error.as_deref()), (1, Some("stalled session")));
    assert!(state.cancel_running_issue("1", StopReason::Stall).is_empty());
    assert!(state.handle_worker_finished(outcome("9", WorkerExit::Failed), now()).is_empty());
}

#[test]
fn notices_retries_that_cannot_be_told() {
    let mut state = test_state();
    state.dispatch_issue(issue("1", "Todo"), Some(u32::MAX), now(), &root());
    assert!(!state.has_room_for_end(&outcome("1", WorkerExit::Failed), now()));
    let mut state = test_state();
    state.dispatch_issue(issue("1", "Todo"), None, now(), &root());
    let last = Timestamp::new(symphony::time::MAX_SECONDS, 0).unwrap();
    assert!(!state.has_room_for_end(&outcome("1", WorkerExit::Failed), last));
    state.schedule_retry("2", "ABC-2", u32::MAX, None, 1_000, now());
    let failed = Err(SymphonyError::LinearMissingEndCursor);
    assert_eq!(state.try_handle_retry_due("2", failed, now(), &root()), None);
    assert!(state.awaits_retry("2"));
}

#[test]
fn makes_retries_that_are_due() {
    let mut state = test_state();
    state.schedule_retry("1", "ABC-1", 2, None, 1_000, now());
    let effects =
        state.handle_retry_due("1", Ok(vec![issue("2", "Todo"), issue("1", "Todo")]), now(), &root());
    assert_eq!(
        effects,
        vec![Effect::StartWorker { issue: issue("1", "Todo"), attempt: Some(2) }]
    );
    assert_eq!(state.running.get("1").unwrap().entry.retry_attempt, Some(2));
    consistent(&state);
    assert!(state.handle_retry_due("1", Ok(Vec::new()), now(), &root()).is_empty());
}

#[test]
fn lets_go_of_issues_that_are_not_offered_any_more() {
    let mut state = test_state();
    state.schedule_retry("1", "ABC-1", 2, None, 1_000, now());
    assert!(state.handle_retry_due("1", Ok(vec![issue("2", "Todo")]), now(), &root()).is_empty());
    assert!(!state.claimed.contains("1"));
    assert!(!state.awaits_retry("1"));
}

#[test]
fn postpones_retries_without_room_or_answer() {
    let mut state = test_state();
    state.schedule_retry("1", "ABC-1", 2, None, 1_000, now());
    let failed = Err(SymphonyError::LinearMissingEndCursor);
    state.try_handle_retry_due("1", failed, now(), &root()).unwrap();
    let retry = state.retry_attempts.get("1").unwrap();
    assert_eq!(retry.attempt, 3);
    assert_eq!(retry.error.as_deref(), Some("retry poll failed: linear_missing_end_cursor"));
    state.config.agent.max_concurrent_agents = 0;
    let effects = state
        .try_handle_retry_due("1", Ok(vec![issue("1", "Todo")]), now(), &root())
        .unwrap();
    assert_eq!(
        effects,
        vec![Effect::StartRetryTimer { issue_id: "1".into(), delay_ms: 80_000 }]
    );
    let retry = state.retry_attempts.get("1").unwrap();
    assert_eq!(retry.error.as_deref(), Some("no available orchestrator slots"));
    consistent(&state);
}

#[test]
fn takes_in_how_running_issues_stand() {
    let mut state = test_state();
    state.config.agent.max_concurrent_agents = 5;
    for id in ["1", "2", "3", "4"] {
        state.dispatch_issue(issue(id, "Todo"), None, now(), &root());
    }
    let ids = state.running_ids();
    assert_eq!(ids, vec!["1", "2", "3", "4"]);
    let refreshed = vec![
        issue("1", "Todo"),
        issue("1", "Done"),
        issue("2", "In Progress"),
        issue("3", "Backlog"),
        issue("9", "Done"),
    ];
    let effects = state.reconcile_running_issues(&ids, &refreshed);
    assert_eq!(
        effects,
        vec![
            Effect::CancelWorker { issue_id: "1".into() },
            Effect::CancelWorker { issue_id: "3".into() },
        ]
    );
    assert_eq!(state.running.get("1").unwrap().stop_reason, Some(StopReason::Terminal));
    assert_eq!(state.running.get("2").unwrap().entry.issue.state, "In Progress");
    assert_eq!(state.running.get("3").unwrap().stop_reason, Some(StopReason::NonActive));
    assert_eq!(state.running.get("4").unwrap().stop_reason, None);
}

#[test]
fn reloads_configurations_that_could_be_loaded() {
    let mut state = test_state();
    let mut next = test_config();
    next.agent.max_turns = 7;
    assert_eq!(state.reload_workflow(Ok(next)), Ok(()));
    assert_eq!(state.config.agent.max_turns, 7);
    let mut other = test_config();
    other.tracker.kind = "jira".into();
    assert_eq!(
        state.reload_workflow(Ok(other)),
        Err(SymphonyError::UnsupportedTrackerKind("jira".into()))
    );
    assert_eq!(
        state.reload_workflow(Err(SymphonyError::MissingTrackerApiKey)),
        Err(SymphonyError::MissingTrackerApiKey)
    );
    assert_eq!(state.config.agent.max_turns, 7);
}

#[test]
fn coalesces_refreshes() {
    let mut state = test_state();
    assert!(!state.request_refresh());
    assert!(state.request_refresh());
    state.finish_tick();
    assert!(!state.request_refresh());
}

#[test]
fn stops_everything_at_the_end() {
    let mut state = test_state();
    state.dispatch_issue(issue("1", "Todo"), None, now(), &root());
    state.schedule_retry("2", "ABC-2", 1, None, 1_000, now());
    assert_eq!(
        state.shutdown_effects(),
        vec![
            Effect::CancelWorker { issue_id: "1".into() },
            Effect::AbortRetry { issue_id: "2".into() },
        ]
    );
    assert_eq!(state.release_claim("2"), vec![Effect::AbortRetry { issue_id: "2".into() }]);
    assert_eq!(
        startup_cleanup_effects(&vec![issue("5", "Done")]),
        vec![Effect::CleanupWorkspace { identifier: "ABC-5".into() }]
    );
    assert_eq!(listening_port(Some(1), &state.config), Some(1));
    assert_eq!(listening_port(None, &state.config), None);
}

#[test]
fn shows_runs_and_retries() {
    let mut state = test_state();
    state.dispatch_issue(issue("1", "Todo"), Some(3), now(), &root());
    state.apply_session_update(update("1", "turn_completed", Some("done")));
    state.schedule_retry("2", "ABC 2", 4, Some("why".into()), 1_000, now());
    state.codex_totals.millis_running = 500;
    let snapshot = build_runtime_snapshot(&state, seconds_later(2));
    assert_eq!(snapshot.generated_at, seconds_later(2));
    assert_eq!((snapshot.counts.running, snapshot.counts.retrying), (1, 1));
    assert_eq!(snapshot.running[0].issue_identifier, "ABC-1");
    assert_eq!(snapshot.running[0].last_message, "done");
    assert_eq!(snapshot.retrying[0].attempt, 4);
    assert_eq!(snapshot.codex_totals.millis_running, 2_500);
    assert_eq!(build_runtime_snapshot(&state, seconds_later(-9)).codex_totals.millis_running, 500);

    let details = build_issue_debug_map(&state);
    assert_eq!(details.len(), 2);
    let run = details.get("ABC-1").unwrap();
    assert_eq!((run.status.as_str(), run.attempts.restart_count), ("running", 3));
    assert_eq!(run.attempts.current_retry_attempt, None);
    assert_eq!(run.running.as_ref().unwrap().turn_count, 0);
    assert_eq!(run.logs.codex_session_logs[0].label, "latest");
    assert_eq!(run.recent_events.len(), 1);
    let retry = details.get("ABC 2").unwrap();
    assert_eq!((retry.status.as_str(), retry.attempts.restart_count), ("retrying", 3));
    assert_eq!(retry.workspace.path, "/tmp/symphony/ABC_2");
    assert_eq!(retry.last_error.as_deref(), Some("why"));
    assert!(retry.running.is_none());
}

#[test]
fn tells_of_a_run_before_a_retry_with_the_same_identifier() {
    let mut state = test_state();
    state.schedule_retry("2", "ABC-1", 4, None, 1_000, now());
    state.dispatch_issue(issue("1", "Todo"), None, now(), &root());
    let details = build_issue_debug_map(&state);
    assert_eq!(details.len(), 1);
    assert_eq!(details.get("ABC-1").unwrap().status, "running");
}

#[test]
fn maps_and_sets_keep_their_entries() {
    let mut map: StringMap<u32> = StringMap::new();
    assert_eq!(map.insert("a".into(), 1), None);
    assert_eq!(map.insert("b".into(), 2), None);
    assert_eq!(map.insert("a".into(), 3), Some(1));
    assert_eq!((map.len(), map.get("a"), map.key_at(0)), (2, Some(&3), "a"));
    assert_eq!(map.remove("a"), Some(3));
    assert_eq!(map.remove("a"), None);
    assert!(!map.is_empty() && !map.contains_key("a"));
    let mut set = StringSet::new();
    set.insert("x".into());
    assert!(set.contains("x"));
    set.remove("x");
    assert!(!set.contains("x"));
}
