use symphony::error::SymphonyError;
use symphony::http::{dashboard, issue_reply, refresh_reply, state_reply, RefreshOutcome, SnapshotStore};
use symphony::json::Json;
use symphony::protocol::{
    notification, read_stdout_line, tool_call_reply, IncomingMessage, Reaction, SessionUpdate, Step,
    Verdict,
};
use symphony::session::{
    advance_startup, begin_startup, try_hear_in_request, try_hear_in_turn, Heard, Session,
    StartupAction, StartupEvent, StartupPhase,
};
use symphony::string_map::StringMap;
use symphony::time::Timestamp;
use symphony::tracker::{
    graphql_payload, issue_state_variables, prepare_raw_graphql, read_graphql_response, read_issues,
    IssuePages, ISSUE_COLLECTION_QUERY, ISSUE_STATE_QUERY,
};
use symphony::types::{
    AgentSettings, AttemptDebugInfo, CodexSettings, CodexTotals, EffectiveConfig, HookSettings, Issue,
    IssueDebugSnapshot, LogDebugInfo, PollingSettings, RetryEntry, RuntimeRunningRow,
    RuntimeSnapshot, ServerSettings, SnapshotCounts, TokenUsage, TrackerSettings, Workspace,
    WorkspaceDebugInfo, WorkspaceSettings,
};
use symphony::lifecycle::{
    PreparationStage, RemovalStage, WorkspaceAction, WorkspaceEvent, WorkspacePreparation,
    WorkspaceRemoval,
};
use symphony::service::{service_step, NextTick, ServiceEvent, TickEvent, TickRequest};
use symphony::worker::{WorkerAction, WorkerExit, WorkerInput, WorkerOutcome, WorkerRun};
use symphony::workspace::{CurrentDir, HookRun, PathKind, WorkspaceManager};

/// Directories, files and the hooks that were run.
#[derive(Default)]
struct Disk {
    directories: std::collections::BTreeSet<String>,
    files: std::collections::BTreeSet<String>,
    hooks: Vec<(String, String, String)>,
    failing: bool,
}

impl Disk {
    fn perform(&mut self, action: WorkspaceAction) -> WorkspaceEvent {
        match action {
            WorkspaceAction::CreateRoot { path } | WorkspaceAction::Create { path } => {
                self.directories.insert(path);
            }
            WorkspaceAction::Look { path } => {
                return WorkspaceEvent::Found(if self.directories.contains(&path) {
                    PathKind::Directory
                } else if self.files.contains(&path) {
                    PathKind::Other
                } else {
                    PathKind::Missing
                });
            }
            WorkspaceAction::Clear { paths } => assert_eq!(paths.len(), 2),
            WorkspaceAction::RunHook { hook, script, path } => {
                self.hooks.push((hook, script, path));
                if self.failing {
                    return WorkspaceEvent::Failed(SymphonyError::InvalidConfig("hook".into()));
                }
            }
            WorkspaceAction::Remove { path } => assert!(self.directories.remove(&path)),
            WorkspaceAction::Rest => unreachable!(),
        }
        WorkspaceEvent::Succeeded
    }

    fn ensure_workspace(
        &mut self,
        identifier: &str,
        config: &EffectiveConfig,
    ) -> Result<Workspace, SymphonyError> {
        let home = CurrentDir::Known("/home/me".into());
        let manager = WorkspaceManager;
        let mut preparation = WorkspacePreparation::begin(&manager, identifier, config, &home);
        loop {
            if let PreparationStage::Finished(result) = preparation.stage {
                return result;
            }
            let event = self.perform(preparation.action(&manager));
            preparation = preparation.advance(&manager, event);
        }
    }

    fn remove_workspace(
        &mut self,
        identifier: &str,
        config: &EffectiveConfig,
    ) -> Result<(), SymphonyError> {
        let home = CurrentDir::Known("/home/me".into());
        let mut removal = WorkspaceRemoval::begin(&WorkspaceManager, identifier, config, &home);
        loop {
            if let RemovalStage::Finished(result) = removal.stage {
                return result;
            }
            let event = self.perform(removal.action());
            removal = removal.advance(event);
        }
    }
}

fn json(text: &str) -> Json {
    Json::parse(text).expect("the text is JSON")
}

fn now() -> Timestamp {
    Timestamp::new(1_772_928_000, 0).unwrap()
}

fn test_config() -> EffectiveConfig {
    EffectiveConfig {
        workflow_path: "WORKFLOW.md".into(),
        prompt_template: "Hello".into(),
        tracker: TrackerSettings {
            kind: "linear".into(),
            endpoint: "http://example.com".into(),
            api_key: "token".into(),
            project_slug: "proj".into(),
            active_states: vec!["Todo".into(), "In Progress".into()],
            terminal_states: vec!["Done".into()],
        },
        polling: PollingSettings { interval_ms: 30_000 },
        workspace: WorkspaceSettings { root: "/tmp/symphony".into() },
        hooks: HookSettings { timeout_ms: 60_000, ..HookSettings::default() },
        agent: AgentSettings {
            max_concurrent_agents: 2,
            max_turns: 20,
            max_retry_backoff_ms: 300_000,
            max_concurrent_agents_by_state: StringMap::new(),
        },
        codex: CodexSettings {
            command: "codex app-server".into(),
            approval_policy: json("\"never\""),
            thread_sandbox: json("\"danger-full-access\""),
            turn_sandbox_policy: json(r#"{"type": "dangerFullAccess"}"#),
            turn_timeout_ms: 1000,
            read_timeout_ms: 1000,
            stall_timeout_ms: 1000,
        },
        server: ServerSettings::default(),
    }
}

fn sample_issue(state: &str) -> Issue {
    Issue {
        id: "issue-1".into(),
        identifier: "ABC-1".into(),
        title: "Example".into(),
        state: state.into(),
        ..Issue::default()
    }
}

fn candidate_handler(payload: &Json) -> (u16, String) {
    let response = if payload.text_at(&["variables", "after"]).is_none() {
        r#"{
            "data": {
                "issues": {
                    "nodes": [{
                        "id": "issue-1",
                        "identifier": "ABC-1",
                        "title": "First",
                        "description": "desc",
                        "priority": 1,
                        "branchName": "feature/one",
                        "url": "https://example.com/ABC-1",
                        "createdAt": "2026-03-08T00:00:00Z",
                        "updatedAt": "2026-03-08T00:00:00Z",
                        "state": { "name": "Todo" },
                        "labels": { "nodes": [{ "name": "Bug" }] },
                        "inverseRelations": {
                            "nodes": [{
                                "type": "blocks",
                                "issue": {
                                    "id": "issue-2",
                                    "identifier": "ABC-2",
                                    "state": { "name": "In Progress" }
                                }
                            }]
                        }
                    }],
                    "pageInfo": { "hasNextPage": true, "endCursor": "cursor-1" }
                }
            }
        }"#
    } else {
        r#"{
            "data": {
                "issues": {
                    "nodes": [{
                        "id": "issue-3",
                        "identifier": "ABC-3",
                        "title": "Second",
                        "description": null,
                        "priority": 2,
                        "branchName": null,
                        "url": null,
                        "createdAt": "2026-03-07T00:00:00Z",
                        "updatedAt": "2026-03-07T00:00:00Z",
                        "state": { "name": "In Progress" },
                        "labels": { "nodes": [] },
                        "inverseRelations": { "nodes": [] }
                    }],
                    "pageInfo": { "hasNextPage": false, "endCursor": null }
                }
            }
        }"#
    };
    (200, response.to_string())
}

fn fetch_pages(states: &Vec<String>) -> (usize, Vec<Issue>) {
    let mut pages = IssuePages::new(states);
    let mut calls = 0;
    while !pages.complete {
        calls += 1;
        let variables = pages.variables("proj", states);
        let (status, body) = candidate_handler(&graphql_payload(ISSUE_COLLECTION_QUERY, variables));
        pages.absorb(&read_graphql_response(status, body).unwrap()).unwrap();
    }
    (calls, pages.issues)
}

#[test]
fn candidate_fetch_paginates_and_normalizes() {
    let (calls, issues) = fetch_pages(&test_config().tracker.active_states);
    assert_eq!(calls, 2);
    assert_eq!(issues.len(), 2);
    assert_eq!(issues[0].labels, vec!["bug"]);
    assert_eq!(issues[0].blocked_by[0].identifier.as_deref(), Some("ABC-2"));
}

#[test]
fn empty_state_list_returns_without_http_call() {
    let (calls, issues) = fetch_pages(&Vec::new());
    assert!(issues.is_empty());
    assert_eq!(calls, 0);
}

#[test]
fn issue_state_fetch_maps_graphql_errors() {
    let payload = graphql_payload(ISSUE_STATE_QUERY, issue_state_variables(&vec!["issue-1".into()]));
    assert_eq!(payload.at(&["variables", "ids"]), Some(&json(r#"["issue-1"]"#)));
    let error = read_graphql_response(200, r#"{"errors": [{ "message": "boom" }]}"#.into())
        .and_then(|response| read_issues(&response))
        .expect_err("GraphQL errors should be surfaced");
    assert!(matches!(error, SymphonyError::LinearGraphqlErrors(_)));
}

#[test]
fn after_create_runs_only_on_new_workspace() {
    let mut config = test_config();
    config.hooks = HookSettings {
        after_create: Some("printf created > created.txt".into()),
        timeout_ms: 250,
        ..HookSettings::default()
    };
    let mut disk = Disk::default();
    let first = disk.ensure_workspace("ABC-1", &config).expect("first");
    let second = disk.ensure_workspace("ABC-1", &config).expect("second");
    assert!(first.created_now);
    assert!(!second.created_now);
    assert_eq!(second.path, first.path);
    assert_eq!(second.workspace_key, "ABC-1");
    assert_eq!(
        disk.hooks,
        vec![(
            "after_create".to_string(),
            "printf created > created.txt".to_string(),
            first.path.clone()
        )]
    );
}

#[test]
fn failed_creation_hooks_undo_the_workspace() {
    let mut config = test_config();
    config.hooks.after_create = Some("exit 1".into());
    let mut disk = Disk { failing: true, ..Disk::default() };
    let error = disk.ensure_workspace("ABC-1", &config).unwrap_err();
    assert_eq!(error, SymphonyError::InvalidConfig("hook".into()));
    assert!(!disk.directories.contains("/tmp/symphony/ABC-1"));
    assert!(disk.directories.contains("/tmp/symphony"));
}

#[test]
fn removal_ignores_a_failing_hook() {
    let mut config = test_config();
    config.hooks.before_remove = Some("exit 1".into());
    let mut disk = Disk { failing: true, ..Disk::default() };
    disk.remove_workspace("ABC-1", &config).unwrap();
    assert!(disk.hooks.is_empty());
    disk.directories.insert("/tmp/symphony/ABC-1".into());
    disk.remove_workspace("ABC-1", &config).unwrap();
    assert_eq!(disk.hooks.len(), 1);
    assert!(!disk.directories.contains("/tmp/symphony/ABC-1"));
}

#[test]
fn refuses_workspaces_where_a_file_stands() {
    let mut disk = Disk::default();
    disk.files.insert("/tmp/symphony/ABC-1".into());
    assert_eq!(
        disk.ensure_workspace("ABC-1", &test_config()).unwrap_err(),
        SymphonyError::InvalidConfig(
            "workspace path exists and is not a directory: /tmp/symphony/ABC-1".into()
        )
    );
    assert!(matches!(
        disk.ensure_workspace("..", &test_config()).unwrap_err(),
        SymphonyError::WorkspacePathEscape { .. }
    ));
}

#[test]
fn ticks_follow_the_service() {
    let config = test_config();
    let step = |event| service_step(event, &config);
    assert_eq!(step(ServiceEvent::Ticked).next_tick, NextTick::After(30_000));
    assert!(!step(ServiceEvent::Ticked).publishes);
    assert_eq!(step(ServiceEvent::TookRefresh).next_tick, NextTick::After(0));
    assert!(!step(ServiceEvent::TookRefresh).publishes);
    assert_eq!(step(ServiceEvent::ReloadedWorkflow).next_tick, NextTick::After(0));
    assert!(step(ServiceEvent::ReloadedWorkflow).publishes);
    assert_eq!(step(ServiceEvent::HeardWorker).next_tick, NextTick::Unchanged);
    assert!(step(ServiceEvent::HandledRetry).publishes);
    assert_eq!(step(ServiceEvent::ShutDown).next_tick, NextTick::Never);
    assert_eq!(step(ServiceEvent::Started).next_tick, NextTick::After(0));
}

#[test]
fn a_tick_looks_after_runs_before_it_takes_up_issues() {
    let mut state = symphony::orchestrator::OrchestratorState::new(test_config());
    let home = CurrentDir::Known("/home/me".into());
    let (effects, request) = state.advance_tick(TickEvent::Began, now(), &home);
    assert!(effects.is_empty());
    assert_eq!(request, TickRequest::Candidates);
    let offered = Issue { id: "7".into(), ..sample_issue("Todo") };
    let fetched = TickEvent::Fetched { issues: Ok(vec![offered.clone()]) };
    let (effects, request) = state.advance_tick(fetched, now(), &home);
    assert!(!effects.is_empty());
    assert_eq!(request, TickRequest::Nothing { problem: None });
    assert_eq!(state.running.len(), 1);

    let (_, request) = state.advance_tick(TickEvent::Began, now(), &home);
    assert_eq!(request, TickRequest::RunningIssues { running_ids: vec!["7".into()] });
    let failed = TickEvent::Refreshed {
        running_ids: vec!["7".into()],
        issues: Err(SymphonyError::LinearMissingEndCursor),
    };
    let (effects, request) = state.advance_tick(failed, now(), &home);
    assert!(effects.is_empty());
    assert_eq!(request, TickRequest::Candidates);
    let closed = Issue { state: "Done".into(), ..offered };
    let refreshed = TickEvent::Refreshed { running_ids: vec!["7".into()], issues: Ok(vec![closed]) };
    let (effects, _) = state.advance_tick(refreshed, now(), &home);
    assert!(!effects.is_empty());

    state.config.tracker.api_key = " ".into();
    let empty = TickEvent::Refreshed { running_ids: vec![], issues: Ok(vec![]) };
    let (_, request) = state.advance_tick(empty, now(), &home);
    assert_eq!(
        request,
        TickRequest::Nothing { problem: Some(SymphonyError::MissingTrackerApiKey) }
    );
}

#[test]
fn hook_timeout_is_surfaced() {
    let error = WorkspaceManager
        .try_finish_hook("before_run", &HookRun::TimedOut, 50)
        .unwrap()
        .expect_err("timeout should fail the hook");
    assert!(error.to_string().contains("hook timed out"));
}

#[test]
fn state_endpoint_returns_service_unavailable_without_snapshot() {
    assert_eq!(state_reply(&SnapshotStore::new(), Json::Null).status, 503);
}

#[test]
fn refresh_endpoint_queues_refresh() {
    assert_eq!(refresh_reply(RefreshOutcome::Answered(false), now()).status, 202);
}

#[test]
fn refresh_endpoint_reports_closed_channels() {
    assert_eq!(refresh_reply(RefreshOutcome::Closed, now()).status, 503);
}

fn details(issue_id: &str, path: &str) -> StringMap<IssueDebugSnapshot> {
    let mut map = StringMap::new();
    map.insert(
        String::from("ABC-1"),
        IssueDebugSnapshot {
            issue_identifier: String::from("ABC-1"),
            issue_id: String::from(issue_id),
            status: String::from("running"),
            workspace: WorkspaceDebugInfo { path: path.into() },
            attempts: AttemptDebugInfo { restart_count: 0, current_retry_attempt: None },
            running: None,
            retry: None,
            logs: LogDebugInfo::default(),
            recent_events: Vec::new(),
            last_error: None,
            tracking: StringMap::new(),
        },
    );
    map
}

#[test]
fn dashboard_and_issue_routes_render_published_state() {
    let mut store = SnapshotStore::new();
    store.publish(
        RuntimeSnapshot {
            generated_at: now(),
            counts: SnapshotCounts { running: 1, retrying: 0 },
            running: vec![],
            retrying: vec![],
            codex_totals: CodexTotals::default(),
            rate_limits: None,
        },
        details("1", "/tmp/symphony/ABC-1"),
    );
    assert!(dashboard(&store, "0.0").contains("<h2>Running (1)</h2>"));
    assert_eq!(issue_reply(&store, "ABC-404").status, 404);
}

#[test]
fn state_and_issue_endpoints_return_published_snapshots() {
    let mut store = SnapshotStore::new();
    store.publish(
        RuntimeSnapshot {
            generated_at: now(),
            counts: SnapshotCounts { running: 1, retrying: 0 },
            running: vec![RuntimeRunningRow {
                issue_id: "issue-1".into(),
                issue_identifier: "ABC-1".into(),
                state: "In Progress".into(),
                session_id: Some("thread-1-turn-1".into()),
                turn_count: 1,
                last_event: Some("turn_completed".into()),
                last_message: "done".into(),
                started_at: now(),
                last_event_at: Some(now()),
                tokens: TokenUsage { input_tokens: 1, output_tokens: 2, total_tokens: 3 },
            }],
            retrying: vec![RetryEntry {
                issue_id: "issue-2".into(),
                identifier: "ABC-2".into(),
                attempt: 2,
                due_at: now(),
                error: Some("retry".into()),
            }],
            codex_totals: CodexTotals {
                input_tokens: 1,
                output_tokens: 2,
                total_tokens: 3,
                millis_running: 4_000,
            },
            rate_limits: None,
        },
        details("issue-1", "/tmp/work"),
    );
    assert_eq!(state_reply(&store, json("4.0")).status, 200);
    assert_eq!(issue_reply(&store, "ABC-1").status, 200);
}

/// An app-server that follows a script: what it says, and how many answers it waits for before.
struct FakeServer {
    says: Vec<(usize, String)>,
    answers: Vec<Json>,
    position: usize,
}

impl FakeServer {
    fn new(scenario: &str) -> FakeServer {
        let mut says = vec![
            (1, r#"{"id": 1, "result": {"ok": true}}"#),
            (3, r#"{"id": 2, "result": {"thread": {"id": "thread-1"}}}"#),
            (4, r#"{"id": 3, "result": {"turn": {"id": "turn-1"}}}"#),
        ];
        match scenario {
            "success" => says.extend([
                (4, r#"{"id": 900, "method": "item/commandExecution/requestApproval", "params": {"command": ["echo", "hi"], "cwd": ".", "callId": "cmd-1", "parsedCmd": []}}"#),
                (5, r#"{"id": 901, "method": "item/tool/call", "params": {"tool": "linear_graphql", "callId": "tool-1", "threadId": "thread-1", "turnId": "turn-1", "arguments": {"query": "query One { viewer { id } }"}}}"#),
                (6, r#"{"method": "thread/tokenUsage/updated", "params": {"total_token_usage": {"input_tokens": 3, "output_tokens": 4, "total_tokens": 7}}}"#),
                (6, r#"{"method": "turn/completed", "params": {"message": "done"}}"#),
            ]),
            "user_input" => says.push((
                4,
                r#"{"id": 902, "method": "item/tool/requestUserInput", "params": {"questions": []}}"#,
            )),
            _ => {}
        }
        FakeServer {
            says: says.into_iter().map(|(after, text)| (after, text.to_string())).collect(),
            answers: Vec::new(),
            position: 0,
        }
    }

    fn hear(&mut self) -> Heard {
        match self.says.get(self.position) {
            Some((after, text)) if *after <= self.answers.len() => {
                self.position += 1;
                let mut line = text.clone().into_bytes();
                line.push(b'\n');
                Heard::Message { message: read_stdout_line(&line).message, exited: false }
            }
            _ => Heard::Deadline,
        }
    }
}

struct Conversation {
    server: FakeServer,
    session: Session,
    config: EffectiveConfig,
    updates: Vec<SessionUpdate>,
}

impl Conversation {
    fn perform(&mut self, reaction: Reaction) -> Verdict {
        for step in reaction.steps {
            match step {
                Step::Write(value) => self.server.answers.push(value),
                Step::Emit(emission) => {
                    self.updates.push(self.session.emit_update(emission, now()))
                }
                Step::Kill => panic!("nothing is to be killed"),
            }
        }
        match reaction.verdict {
            Verdict::CallTool { id, query, variables } => {
                let outcome = prepare_raw_graphql(&query, variables)
                    .map(|_| json(r#"{ "data": { "viewer": { "id": "viewer-1" } } }"#));
                self.server.answers.push(tool_call_reply(&id, &outcome));
                Verdict::Continue
            }
            verdict => verdict,
        }
    }

    fn request(&mut self, method: &str, params: Json) -> Result<Json, SymphonyError> {
        let (id, message) = self.session.next_request(method, params);
        self.server.answers.push(message);
        loop {
            let heard = self.server.hear();
            let reaction = try_hear_in_request(heard, id).unwrap();
            match self.perform(reaction) {
                Verdict::Answered(result) => return Ok(result),
                Verdict::Failed(error) => return Err(error),
                _ => {}
            }
        }
    }

    fn start(&mut self) {
        let mut phase = StartupPhase::Initializing;
        let mut action = begin_startup("0.1.0");
        loop {
            let event = match action {
                StartupAction::Request { method, params } => match self.request(&method, params) {
                    Ok(result) => StartupEvent::Replied(result),
                    Err(error) => StartupEvent::Failed(error),
                },
                StartupAction::Notify { method, params } => {
                    self.server.answers.push(notification(&method, params));
                    StartupEvent::Notified
                }
                StartupAction::Ready => return,
                other => panic!("{:?}", other),
            };
            let config = self.config.clone();
            let (next_phase, next_action) =
                advance_startup(&config, &mut self.session, phase, event);
            phase = next_phase;
            action = next_action;
        }
    }

    fn run_turn(&mut self, prompt: &str, title: &str, turn_count: u32) -> Option<SymphonyError> {
        let params = match self.session.request_turn(&self.config, prompt, title) {
            Ok(params) => params,
            Err(error) => return Some(error),
        };
        let result = match self.request("turn/start", params) {
            Ok(result) => result,
            Err(error) => return Some(error),
        };
        let emission = self.session.try_begin_turn(&result, turn_count).unwrap();
        self.updates.push(self.session.emit_update(emission, now()));
        loop {
            let heard = self.server.hear();
            let reaction = try_hear_in_turn(heard, turn_count).unwrap();
            match self.perform(reaction) {
                Verdict::Completed => return None,
                Verdict::Failed(error) => return Some(error),
                _ => {}
            }
        }
    }
}

fn run_worker(scenario: &str, refreshed: Issue) -> (Conversation, WorkerOutcome) {
    let home = CurrentDir::Known("/home/me".into());
    let config = test_config();
    let mut conversation = Conversation {
        server: FakeServer::new(scenario),
        session: Session::new("issue-1", "ABC-1", "/tmp/symphony/ABC-1", Some("42".into())),
        config: config.clone(),
        updates: Vec::new(),
    };
    let (mut run, first) = WorkerRun::begin(config, sample_issue("Todo"), None, &home);
    let mut actions = vec![first];
    loop {
        let input = match actions.remove(0) {
            WorkerAction::EnsureWorkspace { identifier } => WorkerInput::WorkspaceReady(Workspace {
                path: format!("/tmp/symphony/{}", identifier),
                workspace_key: identifier,
                created_now: true,
            }),
            WorkerAction::InitializeLog { .. } => continue,
            WorkerAction::RunBeforeRun { .. } => WorkerInput::HookSucceeded,
            WorkerAction::StartSession { .. } => {
                conversation.start();
                WorkerInput::SessionStarted
            }
            WorkerAction::RenderPrompt => WorkerInput::PromptReady("Hello".into()),
            WorkerAction::RunTurn { prompt, title, turn_count } => WorkerInput::TurnEnded {
                error: conversation.run_turn(&prompt, &title, turn_count),
                canceled: false,
            },
            WorkerAction::RefreshIssue { .. } => {
                WorkerInput::IssueRefreshed(vec![refreshed.clone()])
            }
            WorkerAction::StopSession => WorkerInput::SessionStopped,
            WorkerAction::RunAfterRun { .. } => WorkerInput::HookSucceeded,
            WorkerAction::Finish(outcome) => return (conversation, outcome),
        };
        actions.extend(run.advance(input, &home));
    }
}

#[test]
fn worker_auto_approves_and_handles_linear_graphql() {
    let (conversation, outcome) = run_worker("success", sample_issue("Done"));
    assert_eq!(outcome.exit, WorkerExit::Succeeded);
    assert_eq!(outcome.turn_count, 1);
    let updates = &conversation.updates;
    assert!(updates.iter().any(|update| update.event == "approval_auto_approved"));
    assert!(updates.iter().any(|update| update.event == "turn_completed"));

    let answers = &conversation.server.answers;
    assert_eq!(
        answers[4].text_at(&["result", "decision"]).as_deref(),
        Some("acceptForSession")
    );
    assert_eq!(answers[5].at(&["result", "success"]), Some(&Json::Bool(true)));
    assert!(answers[5].to_text().contains("viewer"));
    let tokens = TokenUsage { input_tokens: 3, output_tokens: 4, total_tokens: 7 };
    assert!(updates.iter().any(|update| update.absolute_tokens == Some(tokens.clone())));
    assert_eq!(updates[0].session_id.as_deref(), Some("thread-1-turn-1"));
}

#[test]
fn worker_fails_when_user_input_is_requested() {
    let (conversation, outcome) = run_worker("user_input", sample_issue("Todo"));
    assert_eq!(outcome.exit, WorkerExit::Failed);
    assert!(conversation.updates.iter().any(|update| update.event == "turn_input_required"));
    assert_eq!(
        conversation.server.answers[4].text_at(&["error", "message"]).as_deref(),
        Some("turn_input_required")
    );
}

#[test]
fn worker_times_out_when_turn_never_completes() {
    let (_, outcome) = run_worker("timeout", sample_issue("Todo"));
    assert_eq!(outcome.exit, WorkerExit::TimedOut);
    assert_eq!(outcome.error.as_deref(), Some("turn_timeout"));
}

#[test]
fn malformed_lines_do_not_end_a_turn() {
    let message = read_stdout_line(&b"not json\n".to_vec()).message;
    assert_eq!(message, IncomingMessage::StdoutMalformed("not json".into()));
    let reaction = try_hear_in_turn(Heard::Message { message, exited: false }, 1).unwrap();
    assert_eq!(reaction.verdict, Verdict::Continue);
}

#[test]
fn valid_arguments_are_taken_over() {
    for (query, key, value) in [("{ a }", "x", i64::MIN), ("q 1 (_)", "abc", 0), ("}", "z", i64::MAX)] {
        let payload = json(&format!(
            r#"{{"query": "{}", "variables": {{"{}": {}}}}}"#,
            query, key, value
        ));
        let (parsed, variables) =
            symphony::payload::parse_linear_graphql_arguments(Some(&payload)).unwrap();
        assert_eq!(parsed, query);
        assert_eq!(variables, Some(json(&format!(r#"{{"{}": {}}}"#, key, value))));
        let listed = json(&format!(r#"{{"query": "{}", "variables": [{}, 1]}}"#, query, value));
        assert!(matches!(
            symphony::payload::parse_linear_graphql_arguments(Some(&listed)),
            Err(SymphonyError::InvalidConfig(_))
        ));
    }
}

#[test]
fn queries_are_taken_over_unaltered() {
    let blank = " ".repeat(80);
    let long = "{ (aZ_9) }".repeat(8);
    for query in [" ", "   ", "_", blank.as_str(), long.as_str()] {
        let payload = json(&format!(r#"{{"query": "{}", "variables": {{"k": -1}}}}"#, query));
        let (parsed, variables) =
            symphony::payload::parse_linear_graphql_arguments(Some(&payload)).unwrap();
        assert_eq!(parsed, query);
        assert_eq!(variables, Some(json(r#"{"k": -1}"#)));
        let listed = json(&format!(r#"{{"query": "{}", "variables": [1, 2]}}"#, query));
        assert!(symphony::payload::parse_linear_graphql_arguments(Some(&listed)).is_err());
    }
}

#[test]
fn runs_never_exceed_their_limit() {
    let mut state = symphony::orchestrator::OrchestratorState::new(test_config());
    let home = CurrentDir::Known("/home/me".into());
    let offered: Vec<Issue> = (0..5)
        .map(|i| Issue { id: format!("{}", i), ..sample_issue("Todo") })
        .collect();
    state.dispatch_candidates(offered.clone(), now(), &home);
    assert_eq!(state.running.len(), 2);
    state.schedule_retry("4", "ABC-1", 1, None, 1_000, now());
    state.try_handle_retry_due("4", Ok(offered), now(), &home).unwrap();
    assert_eq!(state.running.len(), 2);
    assert!(state.awaits_retry("4"));
}
