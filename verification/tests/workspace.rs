use symphony::error::SymphonyError;
use symphony::string_map::StringMap;
use symphony::time::Timestamp;
use symphony::types::{
    AgentSettings, CodexSettings, EffectiveConfig, HookSettings, PollingSettings, ServerSettings,
    TrackerSettings, WorkspaceSettings,
};
use symphony::workspace::{
    extend_session_log, normalize_to_absolute, sanitize_issue_identifier, sent_log_line,
    session_log_header, truncate_hook_output, validate_workspace_containment, CurrentDir, HookRun,
    PathKind, WorkspaceManager,
};

fn config(root: &str) -> EffectiveConfig {
    let text = |value: &str| symphony::json::Json::String(value.to_string());
    EffectiveConfig {
        workflow_path: "WORKFLOW.md".into(),
        prompt_template: "Hello".into(),
        tracker: TrackerSettings {
            kind: "linear".into(),
            endpoint: "http://example.com".into(),
            api_key: "token".into(),
            project_slug: "proj".into(),
            active_states: vec!["Todo".into()],
            terminal_states: vec!["Done".into()],
        },
        polling: PollingSettings { interval_ms: 30_000 },
        workspace: WorkspaceSettings { root: root.into() },
        hooks: HookSettings {
            after_create: Some("printf created > created.txt".into()),
            timeout_ms: 250,
            ..HookSettings::default()
        },
        agent: AgentSettings {
            max_concurrent_agents: 2,
            max_turns: 20,
            max_retry_backoff_ms: 300_000,
            max_concurrent_agents_by_state: StringMap::new(),
        },
        codex: CodexSettings {
            command: "codex app-server".into(),
            approval_policy: text("never"),
            thread_sandbox: text("danger-full-access"),
            turn_sandbox_policy: text("x"),
            turn_timeout_ms: 1000,
            read_timeout_ms: 1000,
            stall_timeout_ms: 1000,
        },
        server: ServerSettings::default(),
    }
}

fn home() -> CurrentDir {
    CurrentDir::Known("/home/me".to_string())
}

#[test]
fn sanitizes_workspace_names() {
    assert_eq!(sanitize_issue_identifier("ABC-123 / test"), "ABC-123___test");
}

#[test]
fn rejects_paths_outside_root() {
    assert!(matches!(
        validate_workspace_containment("/tmp/root", "/tmp/other", &home()),
        Err(SymphonyError::WorkspacePathEscape { .. })
    ));
}

#[test]
fn tells_both_paths_of_an_escape() {
    assert_eq!(
        validate_workspace_containment("root", "root/../../x", &home()),
        Err(SymphonyError::WorkspacePathEscape {
            root: "/home/me/root".into(),
            path: "/home/x".into()
        })
    );
    assert_eq!(validate_workspace_containment("root", "root/a/../b", &home()), Ok(()));
}

#[test]
fn needs_the_current_directory_for_relative_paths_only() {
    let lost = CurrentDir::Unknown("gone".to_string());
    assert_eq!(normalize_to_absolute("/a/../b", &lost), Ok("/b".to_string()));
    assert_eq!(normalize_to_absolute("a", &lost), Err(SymphonyError::Io("gone".into())));
    assert_eq!(
        validate_workspace_containment("/a", "b", &lost),
        Err(SymphonyError::Io("gone".into()))
    );
    assert!(WorkspaceManager.session_log_path("root", "ABC-1", &lost).is_err());
}

#[test]
fn places_workspaces_below_the_root() {
    let manager = WorkspaceManager;
    let location = manager.locate_workspace("ABC-1", &config("./work"), &home()).ok().unwrap();
    assert_eq!(location.path, "/home/me/work/ABC-1");
    assert_eq!(location.workspace_key, "ABC-1");
    let slashed = manager.locate_workspace("../x/y", &config("/work"), &home()).ok().unwrap();
    assert_eq!(slashed.path, "/work/.._x_y");
    let dotted = manager.locate_workspace(".", &config("/work"), &home()).ok().unwrap();
    assert_eq!(dotted.path, "/work");
    assert_eq!(
        manager.locate_workspace("..", &config("/work/deep"), &home()).err(),
        Some(SymphonyError::WorkspacePathEscape {
            root: "/work/deep".into(),
            path: "/work".into()
        })
    );
}

#[test]
fn places_session_logs_below_the_root() {
    assert_eq!(
        WorkspaceManager.session_log_path("work", "ABC-1", &home()),
        Ok("/home/me/work/.symphony_logs/ABC-1/latest.log".to_string())
    );
}

#[test]
fn creates_missing_workspaces_only() {
    let manager = WorkspaceManager;
    assert_eq!(manager.must_create(PathKind::Missing, "/w"), Ok(true));
    assert_eq!(manager.must_create(PathKind::Directory, "/w"), Ok(false));
    assert_eq!(
        manager.must_create(PathKind::Other, "/w"),
        Err(SymphonyError::InvalidConfig(
            "workspace path exists and is not a directory: /w".into()
        ))
    );
    assert_eq!(manager.ephemeral_artifacts("/w/A"), vec!["/w/A/tmp", "/w/A/.elixir_ls"]);
}

#[test]
fn keeps_hooks_and_sessions_within_the_root() {
    let manager = WorkspaceManager;
    let settings = config("/work");
    assert_eq!(
        manager.hook_directory("/work/ABC-1/", &settings, &home()),
        Ok("/work/ABC-1".to_string())
    );
    assert!(manager.hook_directory("/work/../etc", &settings, &home()).is_err());
    assert_eq!(
        manager.session_directory("/work/./ABC-1", &settings, &home()),
        Ok("/work/ABC-1".to_string())
    );
    assert!(manager.session_directory("/elsewhere", &settings, &home()).is_err());
    assert_eq!(manager.workspace_root(&config("w"), &home()), Ok("/home/me/w".to_string()));
}

#[test]
fn tells_how_hooks_failed() {
    let manager = WorkspaceManager;
    let failed = |message: &str| {
        Err(SymphonyError::HookFailed { hook: "before_run".into(), message: message.into() })
    };
    assert_eq!(
        manager.finish_hook("before_run", &HookRun::TimedOut, 50),
        failed("hook timed out after 50ms")
    );
    assert_eq!(
        manager.finish_hook("before_run", &HookRun::NotRun("no bash".into()), 50),
        Err(SymphonyError::Io("no bash".into()))
    );
    let run = HookRun::Exited { success: true, stderr: b"noise".to_vec() };
    assert_eq!(manager.finish_hook("before_run", &run, 50), Ok(()));
    let run = HookRun::Exited { success: false, stderr: b" \xffbad \n".to_vec() };
    assert_eq!(manager.finish_hook("before_run", &run, 50), failed("\u{fffd}bad"));
    let run = HookRun::Exited { success: false, stderr: b"\n".to_vec() };
    assert_eq!(
        manager.try_finish_hook("before_run", &run, 50),
        Some(failed("hook exited with a non-zero status"))
    );
    let run = HookRun::Exited { success: false, stderr: format!("a{}", "é".repeat(200)).into_bytes() };
    assert_eq!(manager.try_finish_hook("before_run", &run, 50), None);
}

#[test]
fn shortens_the_output_of_hooks() {
    assert_eq!(truncate_hook_output("  oops \n"), "oops");
    assert_eq!(truncate_hook_output(" \t"), "hook exited with a non-zero status");
    assert_eq!(truncate_hook_output(&"y".repeat(300)), "y".repeat(300));
    assert_eq!(truncate_hook_output(&"y".repeat(301)), format!("{}...", "y".repeat(300)));
}

#[test]
fn writes_session_logs() {
    let at = Timestamp::new(0, 0).unwrap();
    let log = session_log_header(at);
    assert_eq!(log, "session log initialized at 1970-01-01T00:00:00+00:00\n");
    let log = extend_session_log(log, &sent_log_line("{}"));
    assert_eq!(log, "session log initialized at 1970-01-01T00:00:00+00:00\n>> {}\n");
}
