use symphony::error::SymphonyError;
use symphony::json::Json;
use symphony::string_map::StringMap;
use symphony::types::{
    AgentSettings, CodexSettings, EffectiveConfig, HookSettings, Issue, PollingSettings,
    ServerSettings, TrackerSettings, Workspace, WorkspaceSettings,
};
use symphony::worker::{WorkerAction, WorkerExit, WorkerInput, WorkerOutcome, WorkerPhase, WorkerRun};
use symphony::workspace::CurrentDir;

fn config(max_turns: u32) -> EffectiveConfig {
    EffectiveConfig {
        workflow_path: "WORKFLOW.md".into(),
        prompt_template: "Hello".into(),
        tracker: TrackerSettings {
            kind: "linear".into(),
            endpoint: "http://example.com".into(),
            api_key: "token".into(),
            project_slug: "proj".into(),
            active_states: vec!["Todo".into()],
            terminal_states: vec!["Done".into()],
        },
        polling: PollingSettings { interval_ms: 30_000 },
        workspace: WorkspaceSettings { root: "work".into() },
        hooks: HookSettings { after_run: Some("bye".into()), ..HookSettings::default() },
        agent: AgentSettings {
            max_concurrent_agents: 2,
            max_turns,
            max_retry_backoff_ms: 300_000,
            max_concurrent_agents_by_state: StringMap::new(),
        },
        codex: CodexSettings {
            command: "codex app-server".into(),
            approval_policy: Json::Null,
            thread_sandbox: Json::Null,
            turn_sandbox_policy: Json::Null,
            turn_timeout_ms: 1000,
            read_timeout_ms: 1000,
            stall_timeout_ms: 1000,
        },
        server: ServerSettings::default(),
    }
}

fn issue(state: &str) -> Issue {
    Issue {
        id: "issue-1".into(),
        identifier: "ABC-1".into(),
        title: "Example".into(),
        state: state.into(),
        ..Issue::default()
    }
}

fn home() -> CurrentDir {
    CurrentDir::Known("/home/me".to_string())
}

fn workspace() -> Workspace {
    Workspace {
        path: "/home/me/work/ABC-1".into(),
        workspace_key: "ABC-1".into(),
        created_now: true,
    }
}

fn running(max_turns: u32) -> WorkerRun {
    let (mut run, _) = WorkerRun::begin(config(max_turns), issue("Todo"), Some(2), &home());
    run.advance(WorkerInput::WorkspaceReady(workspace()), &home());
    run.advance(WorkerInput::SessionStarted, &home());
    run.advance(WorkerInput::PromptReady("p".into()), &home());
    assert_eq!(run.phase, WorkerPhase::RunningTurn);
    run
}

fn ended(run: &mut WorkerRun) -> WorkerOutcome {
    assert_eq!(
        run.advance(WorkerInput::SessionStopped, &home()),
        vec![WorkerAction::RunAfterRun {
            hook: Some("bye".into()),
            workspace_path: "/home/me/work/ABC-1".into()
        }]
    );
    let mut actions = run.advance(WorkerInput::HookSucceeded, &home());
    assert_eq!(run.phase, WorkerPhase::Finished);
    match actions.pop() {
        Some(WorkerAction::Finish(outcome)) => outcome,
        other => panic!("{:?}", other),
    }
}

#[test]
fn runs_until_the_issue_is_no_longer_active() {
    let (mut run, first) = WorkerRun::begin(config(20), issue("Todo"), None, &home());
    assert_eq!(first, WorkerAction::EnsureWorkspace { identifier: "ABC-1".into() });
    let log = "/home/me/work/.symphony_logs/ABC-1/latest.log";
    assert_eq!(
        run.advance(WorkerInput::WorkspaceReady(workspace()), &home()),
        vec![
            WorkerAction::InitializeLog { path: log.into() },
            WorkerAction::StartSession {
                workspace_path: "/home/me/work/ABC-1".into(),
                log_path: log.into()
            },
        ]
    );
    assert_eq!(
        run.advance(WorkerInput::SessionStarted, &home()),
        vec![WorkerAction::RenderPrompt]
    );
    assert_eq!(
        run.advance(WorkerInput::PromptReady("p".into()), &home()),
        vec![WorkerAction::RunTurn {
            prompt: "p".into(),
            title: "ABC-1: Example".into(),
            turn_count: 1
        }]
    );
    assert_eq!(
        run.advance(WorkerInput::TurnEnded { error: None, canceled: false }, &home()),
        vec![WorkerAction::RefreshIssue { id: "issue-1".into() }]
    );
    let actions = run.advance(WorkerInput::IssueRefreshed(vec![issue(" todo")]), &home());
    match &actions[..] {
        [WorkerAction::RunTurn { prompt, turn_count: 2, .. }] => {
            assert!(prompt.contains("continuation turn 2 of 20. Retry attempt: initial."))
        }
        other => panic!("{:?}", other),
    }
    run.advance(WorkerInput::TurnEnded { error: None, canceled: false }, &home());
    assert_eq!(
        run.advance(WorkerInput::IssueRefreshed(vec![issue("Done")]), &home()),
        vec![WorkerAction::StopSession]
    );
    let outcome = ended(&mut run);
    assert_eq!(outcome.exit, WorkerExit::Succeeded);
    assert_eq!(outcome.error, None);
    assert_eq!(outcome.turn_count, 2);
    assert_eq!(outcome.issue.state, "Done");
    assert_eq!(outcome.log_path, log);
    assert!(run.advance(WorkerInput::SessionStopped, &home()).is_empty());
}

#[test]
fn stops_when_the_turns_are_used_up() {
    for max_turns in [0, 1] {
        let mut run = running(max_turns);
        run.advance(WorkerInput::TurnEnded { error: None, canceled: false }, &home());
        assert_eq!(
            run.advance(WorkerInput::IssueRefreshed(Vec::new()), &home()),
            vec![WorkerAction::StopSession]
        );
        let outcome = ended(&mut run);
        assert_eq!((outcome.exit, outcome.turn_count), (WorkerExit::Succeeded, 1));
        assert_eq!(outcome.attempt, Some(2));
    }
}

#[test]
fn tells_how_a_turn_ended_a_run() {
    let cases = vec![
        (Some(SymphonyError::TurnTimeout), false, WorkerExit::TimedOut, "turn_timeout"),
        (Some(SymphonyError::TurnInputRequired), false, WorkerExit::Failed, "turn_input_required"),
        (Some(SymphonyError::TurnTimeout), true, WorkerExit::Canceled, "turn_timeout"),
        (None, true, WorkerExit::Canceled, "worker canceled"),
    ];
    for (error, canceled, exit, message) in cases {
        let mut run = running(20);
        assert_eq!(
            run.advance(WorkerInput::TurnEnded { error, canceled }, &home()),
            vec![WorkerAction::StopSession]
        );
        let outcome = ended(&mut run);
        assert_eq!((outcome.exit, outcome.error.as_deref()), (exit, Some(message)));
    }
}

#[test]
fn ends_at_once_without_a_workspace() {
    let (mut run, _) = WorkerRun::begin(config(20), issue("Todo"), None, &home());
    let actions =
        run.advance(WorkerInput::WorkspaceFailed(SymphonyError::Io("full".into())), &home());
    match &actions[..] {
        [WorkerAction::Finish(outcome)] => {
            assert_eq!(outcome.exit, WorkerExit::Failed);
            assert_eq!(outcome.error.as_deref(), Some("io: full"));
            assert_eq!(outcome.workspace_path, "work");
            assert_eq!(outcome.workspace_key, "ABC-1");
            assert_eq!(outcome.turn_count, 0);
        }
        other => panic!("{:?}", other),
    }
}

#[test]
fn lets_a_hook_keep_a_run_from_starting() {
    let mut settings = config(20);
    settings.hooks.before_run = Some("check".into());
    let (mut run, _) = WorkerRun::begin(settings, issue("Todo"), None, &home());
    let actions = run.advance(WorkerInput::WorkspaceReady(workspace()), &home());
    assert_eq!(
        actions[1],
        WorkerAction::RunBeforeRun {
            script: "check".into(),
            workspace_path: "/home/me/work/ABC-1".into()
        }
    );
    let actions = run.advance(
        WorkerInput::HookFailed(SymphonyError::HookFailed {
            hook: "before_run".into(),
            message: "no".into(),
        }),
        &home(),
    );
    assert!(matches!(&actions[..], [WorkerAction::Finish(_)]));
    let mut settings = config(20);
    settings.hooks.before_run = Some("check".into());
    let (mut run, _) = WorkerRun::begin(settings, issue("Todo"), None, &home());
    run.advance(WorkerInput::WorkspaceReady(workspace()), &home());
    let actions = run.advance(WorkerInput::HookSucceeded, &home());
    assert!(matches!(&actions[..], [WorkerAction::StartSession { .. }]));
}

#[test]
fn wraps_up_when_a_session_does_not_start() {
    let (mut run, _) = WorkerRun::begin(config(20), issue("Todo"), None, &home());
    run.advance(WorkerInput::WorkspaceReady(workspace()), &home());
    let actions = run.advance(WorkerInput::SessionFailed(SymphonyError::PortExit), &home());
    assert!(matches!(&actions[..], [WorkerAction::RunAfterRun { .. }]));
    let actions = run.advance(WorkerInput::HookFailed(SymphonyError::PortExit), &home());
    match &actions[..] {
        [WorkerAction::Finish(outcome)] => {
            assert_eq!((outcome.exit, outcome.turn_count), (WorkerExit::Failed, 0));
            assert_eq!(outcome.error.as_deref(), Some("port_exit"));
        }
        other => panic!("{:?}", other),
    }
}

#[test]
fn fails_without_a_prompt_or_a_fresh_issue() {
    let (mut run, _) = WorkerRun::begin(config(20), issue("Todo"), None, &home());
    run.advance(WorkerInput::WorkspaceReady(workspace()), &home());
    run.advance(WorkerInput::SessionStarted, &home());
    let error = SymphonyError::TemplateRenderError("x".into());
    assert_eq!(
        run.advance(WorkerInput::PromptFailed(error), &home()),
        vec![WorkerAction::StopSession]
    );
    let outcome = ended(&mut run);
    assert_eq!((outcome.exit, outcome.turn_count), (WorkerExit::Failed, 1));

    let mut run = running(20);
    run.advance(WorkerInput::TurnEnded { error: None, canceled: false }, &home());
    assert_eq!(
        run.advance(WorkerInput::RefreshFailed(SymphonyError::LinearMissingEndCursor), &home()),
        vec![WorkerAction::StopSession]
    );
    assert_eq!(ended(&mut run).error.as_deref(), Some("linear_missing_end_cursor"));
}

#[test]
fn ignores_events_that_are_not_awaited() {
    let mut run = running(20);
    assert!(run.advance(WorkerInput::SessionStopped, &home()).is_empty());
    assert_eq!(run.phase, WorkerPhase::RunningTurn);
    let lost = CurrentDir::Unknown("gone".to_string());
    let (run, _) = WorkerRun::begin(config(20), issue("Todo"), None, &lost);
    assert_eq!(run.log_path, "latest.log");
    assert_eq!(run.outcome().log_path, "latest.log");
}
