use symphony::error::SymphonyError;
use symphony::json::Json;
use symphony::protocol::{
    initialize_params, interpret_line, linear_graphql_tool_spec, notification, read_stderr_line,
    read_stdout_line, request, thread_params, tool_call_reply, turn_params, Emission,
    IncomingMessage, Reaction, Step, Verdict, MAX_PROTOCOL_LINE_BYTES,
};
use symphony::session::{
    advance_startup, begin_startup, handle_dynamic_tool_call, handle_incoming,
    handle_server_request, handle_value, hear_in_request, hear_in_turn, is_manageable,
    try_hear_in_request, try_hear_in_turn, Heard, Session, StartupAction, StartupEvent,
    StartupPhase,
};
use symphony::string_map::StringMap;
use symphony::time::Timestamp;
use symphony::types::{
    AgentSettings, CodexSettings, EffectiveConfig, HookSettings, PollingSettings, ServerSettings,
    TokenUsage, TrackerSettings, WorkspaceSettings,
};

fn json(text: &str) -> Json {
    Json::parse(text).expect("the text is JSON")
}

fn config(kind: &str) -> EffectiveConfig {
    EffectiveConfig {
        workflow_path: "WORKFLOW.md".into(),
        prompt_template: "Hello".into(),
        tracker: TrackerSettings {
            kind: kind.into(),
            endpoint: "http://example.com".into(),
            api_key: "token".into(),
            project_slug: "proj".into(),
            active_states: vec!["Todo".into()],
            terminal_states: vec!["Done".into()],
        },
        polling: PollingSettings { interval_ms: 30_000 },
        workspace: WorkspaceSettings { root: "/w".into() },
        hooks: HookSettings::default(),
        agent: AgentSettings {
            max_concurrent_agents: 2,
            max_turns: 20,
            max_retry_backoff_ms: 300_000,
            max_concurrent_agents_by_state: StringMap::new(),
        },
        codex: CodexSettings {
            command: "codex app-server".into(),
            approval_policy: json("\"never\""),
            thread_sandbox: json("\"full\""),
            turn_sandbox_policy: json(r#"{"type": "x"}"#),
            turn_timeout_ms: 1000,
            read_timeout_ms: 1000,
            stall_timeout_ms: 1000,
        },
        server: ServerSettings::default(),
    }
}

fn emitted(event: &str, message: Option<&str>, turn_count: Option<u32>) -> Emission {
    Emission {
        event: event.into(),
        message: message.map(String::from),
        absolute_tokens: None,
        rate_limits: None,
        turn_count,
    }
}

fn written(reaction: &Reaction) -> Vec<String> {
    reaction
        .steps
        .iter()
        .filter_map(|step| match step {
            Step::Write(value) => Some(value.to_text()),
            _ => None,
        })
        .collect()
}

#[test]
fn approves_every_request_for_approval() {
    for method in [
        "item/commandExecution/requestApproval",
        "execCommandApproval",
        "item/fileChange/requestApproval",
        "applyPatchApproval",
    ] {
        let value = json(&format!(
            r#"{{"id": "r1", "method": "{}", "params": {{"reason": "rm"}}}}"#,
            method
        ));
        let reaction = handle_value(&value, Some(2));
        assert_eq!(reaction.verdict, Verdict::Continue);
        assert_eq!(
            reaction.steps,
            vec![
                Step::Write(json(r#"{"id": "r1", "result": {"decision": "acceptForSession"}}"#)),
                Step::Emit(emitted("approval_auto_approved", Some("rm"), Some(2))),
            ]
        );
    }
}

#[test]
fn fails_turns_that_ask_for_input() {
    for method in ["item/tool/requestUserInput", "mcpServer/elicitation/request"] {
        let value = json(&format!(r#"{{"id": 5, "method": "{}"}}"#, method));
        let reaction = handle_value(&value, None);
        assert_eq!(reaction.verdict, Verdict::Failed(SymphonyError::TurnInputRequired));
        assert_eq!(
            written(&reaction),
            vec![r#"{"error":{"code":-32000,"message":"turn_input_required"},"id":5}"#]
        );
        assert_eq!(reaction.steps[1], Step::Emit(emitted("turn_input_required", None, None)));
    }
}

#[test]
fn refuses_unknown_requests() {
    let reaction = handle_server_request(&json(r#"{"id": 1, "method": "a/b"}"#), None);
    assert_eq!(reaction.verdict, Verdict::Continue);
    assert_eq!(
        written(&reaction),
        vec![r#"{"error":{"code":-32001,"message":"unsupported request: a/b"},"id":1}"#]
    );
    let reaction = handle_value(&json(r#"{"id": 1, "method": 3}"#), None);
    assert_eq!(
        reaction.verdict,
        Verdict::Failed(SymphonyError::ResponseError("request missing method".into()))
    );
    assert!(reaction.steps.is_empty());
    let reaction = handle_server_request(&json(r#"{"method": "a/b"}"#), None);
    assert_eq!(
        reaction.verdict,
        Verdict::Failed(SymphonyError::ResponseError("request missing id".into()))
    );
}

#[test]
fn calls_the_graphql_tool() {
    let params = json(
        r#"{"tool": "linear_graphql", "arguments": {"query": "query { a }", "variables": {"x": 1}}}"#,
    );
    let reaction = handle_dynamic_tool_call(&json("7"), &params);
    assert!(reaction.steps.is_empty());
    assert_eq!(
        reaction.verdict,
        Verdict::CallTool {
            id: json("7"),
            query: "query { a }".into(),
            variables: Some(json(r#"{"x": 1}"#))
        }
    );
    assert_eq!(
        tool_call_reply(&json("7"), &Ok(json(r#"{"data": 1}"#))).to_text(),
        r#"{"id":7,"result":{"contentItems":[{"text":"{\"data\":1}","type":"inputText"}],"success":true}}"#
    );
    assert_eq!(
        tool_call_reply(&json("7"), &Err(SymphonyError::PortExit)).to_text(),
        r#"{"id":7,"result":{"contentItems":[{"text":"{\"error\":\"port_exit\"}","type":"inputText"}],"success":false}}"#
    );
}

#[test]
fn answers_tool_calls_that_cannot_be_made() {
    let reaction = handle_value(
        &json(r#"{"id": 1, "method": "item/tool/call", "params": {"tool": "other"}}"#),
        Some(1),
    );
    assert_eq!(
        reaction.steps[0],
        Step::Emit(emitted("unsupported_tool_call", Some("unsupported tool other"), None))
    );
    assert_eq!(
        written(&reaction),
        vec![r#"{"id":1,"result":{"contentItems":[{"text":"unsupported_tool_call","type":"inputText"}],"success":false}}"#]
    );
    let reaction = handle_value(
        &json(r#"{"id": 1, "method": "item/tool/call", "params": {"tool": "linear_graphql"}}"#),
        Some(1),
    );
    assert_eq!(reaction.verdict, Verdict::Continue);
    assert_eq!(
        written(&reaction),
        vec![r#"{"id":1,"result":{"contentItems":[{"text":"{\"error\":\"invalid_config: arguments must be a query string or object\"}","type":"inputText"}],"success":false}}"#]
    );
}

#[test]
fn ends_turns_by_notification() {
    let usage = r#"{"message": "m", "usage": {"input_tokens": 1, "output_tokens": 2}}"#;
    let completed = handle_value(
        &json(&format!(r#"{{"method": "turn/completed", "params": {}}}"#, usage)),
        Some(1),
    );
    assert_eq!(completed.verdict, Verdict::Completed);
    let mut emission = emitted("turn_completed", Some("m"), Some(1));
    emission.absolute_tokens =
        Some(TokenUsage { input_tokens: 1, output_tokens: 2, total_tokens: 3 });
    assert_eq!(completed.steps, vec![Step::Emit(emission)]);
    let failed = handle_value(&json(r#"{"method": "turn/failed"}"#), Some(1));
    assert_eq!(failed.verdict, Verdict::Failed(SymphonyError::TurnFailed("turn failed".into())));
    let failed = handle_value(
        &json(&format!(r#"{{"method": "turn/failed", "params": {}}}"#, usage)),
        None,
    );
    assert_eq!(failed.verdict, Verdict::Failed(SymphonyError::TurnFailed("m".into())));
    let cancelled = handle_value(&json(r#"{"method": "turn/cancelled"}"#), Some(1));
    assert_eq!(cancelled.verdict, Verdict::Failed(SymphonyError::TurnCancelled));
    assert_eq!(cancelled.steps, vec![Step::Emit(emitted("turn_cancelled", None, Some(1)))]);
}

#[test]
fn reports_other_notifications() {
    let limits = handle_value(
        &json(r#"{"method": "account/rateLimits/updated", "params": {"rateLimits": 3}}"#),
        None,
    );
    let mut emission = emitted("notification", Some(r#"{"rateLimits":3}"#), None);
    emission.rate_limits = Some(json("3"));
    assert_eq!(limits.steps, vec![Step::Emit(emission)]);
    let bare = handle_value(
        &json(r#"{"method": "account/rateLimits/updated", "params": {"x": 3}}"#),
        None,
    );
    let mut emission = emitted("notification", Some(r#"{"x":3}"#), None);
    emission.rate_limits = Some(json(r#"{"x": 3}"#));
    assert_eq!(bare.steps, vec![Step::Emit(emission)]);
    let tokens = handle_value(
        &json(r#"{"method": "thread/tokenUsage/updated", "params": {"total_tokens": 9}}"#),
        None,
    );
    assert_eq!(tokens.verdict, Verdict::Continue);
    let other = handle_value(&json(r#"{"method": "x"}"#), Some(4));
    assert_eq!(
        other.steps,
        vec![Step::Emit(emitted("other_message", Some(r#"{"method":"x"}"#), Some(4)))]
    );
    let answer = handle_value(&json(r#"{"id": 4, "result": 1}"#), Some(4));
    assert_eq!(answer, Reaction { steps: Vec::new(), verdict: Verdict::Continue });
}

#[test]
fn notices_messages_that_cannot_be_summed_up() {
    let long = "é".repeat(200);
    let plain = json(&format!(r#"{{"method": "x", "params": ["{}"]}}"#, long));
    assert_eq!(is_manageable(&plain), true);
    let odd = json(&format!(r#"{{"method": "x", "params": ["a{}"]}}"#, long));
    assert_eq!(is_manageable(&odd), false);
    let heard = || Heard::Message {
        message: IncomingMessage::StdoutJson(json(&format!(
            r#"{{"method": "x", "params": ["a{}"]}}"#,
            "é".repeat(200)
        ))),
        exited: false,
    };
    assert!(try_hear_in_turn(heard(), 1).is_none());
    assert!(try_hear_in_request(heard(), 1).is_none());
    let overflowing = json(
        r#"{"method": "turn/completed", "params": {"message": "m", "input_tokens": 18446744073709551615, "output_tokens": 1}}"#,
    );
    assert!(!is_manageable(&overflowing));
    assert!(is_manageable(&Json::Null));
}

#[test]
fn listens_during_a_turn() {
    assert_eq!(
        hear_in_turn(Heard::Deadline, 1).verdict,
        Verdict::Failed(SymphonyError::TurnTimeout)
    );
    assert_eq!(
        hear_in_turn(Heard::Disconnected, 1).verdict,
        Verdict::Failed(SymphonyError::PortExit)
    );
    assert_eq!(
        hear_in_turn(Heard::Cancelled, 1),
        Reaction {
            steps: vec![Step::Kill],
            verdict: Verdict::Failed(SymphonyError::TurnCancelled)
        }
    );
    assert_eq!(
        hear_in_turn(Heard::WaitFailed("e".into()), 1).verdict,
        Verdict::Failed(SymphonyError::Io("e".into()))
    );
    let completed = Heard::Message {
        message: IncomingMessage::StdoutJson(json(r#"{"method": "turn/completed"}"#)),
        exited: false,
    };
    assert_eq!(try_hear_in_turn(completed, 1).unwrap().verdict, Verdict::Completed);
}

#[test]
fn listens_for_the_answer_to_a_request() {
    let hear = |text: &str, id: u64| {
        let message = IncomingMessage::StdoutJson(json(text));
        hear_in_request(Heard::Message { message, exited: false }, id)
    };
    assert_eq!(hear(r#"{"id": 3, "result": {"a": 1}}"#, 3).verdict, Verdict::Answered(json(r#"{"a": 1}"#)));
    assert_eq!(hear(r#"{"id": 3, "result": {"a": 1}}"#, 4).verdict, Verdict::Continue);
    assert_eq!(
        hear(r#"{"id": 3, "error": {"code": 1}}"#, 3).verdict,
        Verdict::Failed(SymphonyError::ResponseError(r#"{"code":1}"#.into()))
    );
    assert_eq!(
        hear(r#"{"id": 3}"#, 3).verdict,
        Verdict::Failed(SymphonyError::ResponseError("\"missing result\"".into()))
    );
    assert_eq!(hear(r#"{"method": "turn/completed"}"#, 3).verdict, Verdict::Continue);
    assert_eq!(
        hear_in_request(Heard::Deadline, 3).verdict,
        Verdict::Failed(SymphonyError::ResponseTimeout)
    );
    assert_eq!(hear_in_request(Heard::Cancelled, 3).verdict, Verdict::Continue);
    assert_eq!(
        hear_in_request(Heard::Disconnected, 3).verdict,
        Verdict::Failed(SymphonyError::PortExit)
    );
    assert_eq!(
        hear_in_request(Heard::WaitFailed("e".into()), 3).verdict,
        Verdict::Failed(SymphonyError::Io("e".into()))
    );
}

#[test]
fn reports_lines_and_closed_streams() {
    let reaction = handle_incoming(IncomingMessage::StdoutMalformed("?".into()), false, Some(1));
    assert_eq!(reaction.steps, vec![Step::Emit(emitted("malformed", Some("?"), Some(1)))]);
    let reaction = handle_incoming(IncomingMessage::Stderr("!".into()), false, None);
    assert_eq!(reaction.steps, vec![Step::Emit(emitted("notification", Some("!"), None))]);
    for closed in [|| IncomingMessage::StdoutClosed, || IncomingMessage::StderrClosed] {
        assert_eq!(handle_incoming(closed(), false, None).verdict, Verdict::Continue);
        assert_eq!(
            handle_incoming(closed(), true, None).verdict,
            Verdict::Failed(SymphonyError::PortExit)
        );
    }
}

#[test]
fn reads_lines() {
    let line = read_stdout_line(&b" {\"a\":1}\r\n".to_vec());
    assert_eq!(line.message, IncomingMessage::StdoutJson(json(r#"{"a":1}"#)));
    assert_eq!(line.log.as_deref(), Some("<< {\"a\":1}"));
    let line = read_stdout_line(&b"\xff oops \n".to_vec());
    assert_eq!(line.message, IncomingMessage::StdoutMalformed("\u{fffd} oops".into()));
    assert_eq!(line.log.as_deref(), Some("<< \u{fffd} oops"));
    let line = read_stdout_line(&vec![b' '; MAX_PROTOCOL_LINE_BYTES + 1]);
    assert_eq!(line.message, IncomingMessage::StdoutMalformed("stdout line exceeded 10MB".into()));
    assert!(line.log.is_none());
    let line = read_stderr_line("warn".into());
    assert_eq!(line.message, IncomingMessage::Stderr("warn".into()));
    assert_eq!(line.log.as_deref(), Some("!! warn"));
    assert_eq!(
        interpret_line("x".into(), Err("bad".into())),
        IncomingMessage::StdoutMalformed("x".into())
    );
}

#[test]
fn numbers_requests() {
    let mut session = Session::new("id", "ABC-1", "/w/ABC-1", Some("42".into()));
    let (first, message) = session.next_request("a", json("1"));
    assert_eq!((first, message.to_text().as_str()), (1, r#"{"id":1,"method":"a","params":1}"#));
    let (second, _) = session.next_request("b", json("2"));
    assert_eq!(second, 2);
    assert_eq!(request(9, "m", Json::Null).to_text(), r#"{"id":9,"method":"m","params":null}"#);
    assert_eq!(notification("n", Json::Null).to_text(), r#"{"method":"n","params":null}"#);
}

#[test]
fn begins_turns() {
    let mut session = Session::new("id", "ABC-1", "/w/ABC-1", None);
    assert_eq!(
        session.request_turn(&config("linear"), "p", "t"),
        Err(SymphonyError::ResponseError("missing thread id".into()))
    );
    session.open_thread(&json(r#"{"threadId": "th"}"#));
    assert_eq!(
        session.request_turn(&config("linear"), "p", "t").unwrap().to_text(),
        r#"{"approvalPolicy":"never","cwd":"/w/ABC-1","input":[{"text":"p","type":"text"}],"personality":"pragmatic","sandboxPolicy":{"type":"x"},"threadId":"th","title":"t"}"#
    );
    let emission = session.begin_turn(&json(r#"{"turn": {"id": "tu"}, "text": "go"}"#), 1);
    assert_eq!(emission, emitted("session_started", Some("go"), Some(1)));
    assert_eq!(session.session_id.as_deref(), Some("th-tu"));
    let at = Timestamp::new(5, 0).unwrap();
    let update = session.emit_update(emitted("e", None, None), at);
    assert_eq!(update.issue_id, "id");
    assert_eq!(update.issue_identifier, "ABC-1");
    assert_eq!(update.session_id.as_deref(), Some("th-tu"));
    assert_eq!(update.thread_id.as_deref(), Some("th"));
    assert_eq!(update.turn_id.as_deref(), Some("tu"));
    assert_eq!(update.at, at);
    let emission = session.try_begin_turn(&json("{}"), 2).unwrap();
    assert_eq!(emission, emitted("session_started", Some("{}"), Some(2)));
    assert_eq!(session.session_id, None);
    let odd = Json::String("é".repeat(200));
    assert!(session.try_begin_turn(&odd, 3).is_none());
}

#[test]
fn asks_for_threads_with_tools() {
    let tool = linear_graphql_tool_spec();
    assert_eq!(tool.member_text("name").as_deref(), Some("linear_graphql"));
    assert_eq!(
        tool.get("inputSchema").unwrap().to_text(),
        r#"{"properties":{"query":{"type":"string"},"variables":{"type":"object"}},"required":["query"],"type":"object"}"#
    );
    let params = thread_params(&config("linear"), "/w/A");
    assert_eq!(params.get("tools").unwrap().as_array().unwrap().len(), 1);
    assert_eq!(params.at(&["config", "tools"]), params.get("tools"));
    assert_eq!(
        thread_params(&config("other"), "/w/A").to_text(),
        r#"{"approvalPolicy":"never","cwd":"/w/A","personality":"pragmatic","sandbox":"full","serviceName":"symphony"}"#
    );
    assert_eq!(
        turn_params(&config("other"), "/w/A", "th", "p", "t").member_text("threadId").as_deref(),
        Some("th")
    );
    assert_eq!(
        initialize_params("1.2").to_text(),
        r#"{"capabilities":{"experimentalApi":true},"clientInfo":{"name":"symphony","version":"1.2"}}"#
    );
}

#[test]
fn starts_sessions_step_by_step() {
    let settings = config("other");
    let mut session = Session::new("id", "ABC-1", "/w/A", None);
    assert_eq!(
        begin_startup("1"),
        StartupAction::Request { method: "initialize".into(), params: initialize_params("1") }
    );
    let phase = StartupPhase::Initializing;
    let (phase, action) =
        advance_startup(&settings, &mut session, phase, StartupEvent::Replied(Json::Null));
    assert_eq!(
        action,
        StartupAction::Notify { method: "initialized".into(), params: json("{}") }
    );
    let (stuck, action) =
        advance_startup(&settings, &mut session, phase, StartupEvent::Replied(Json::Null));
    assert_eq!((stuck, action), (phase, StartupAction::Wait));
    let (phase, action) =
        advance_startup(&settings, &mut session, phase, StartupEvent::Notified);
    assert_eq!(
        action,
        StartupAction::Request {
            method: "thread/start".into(),
            params: thread_params(&settings, "/w/A")
        }
    );
    let answer = json(r#"{"thread": {"id": "th"}}"#);
    let (phase, action) =
        advance_startup(&settings, &mut session, phase, StartupEvent::Replied(answer));
    assert_eq!((phase, action), (StartupPhase::Open, StartupAction::Ready));
    assert_eq!(session.thread_id.as_deref(), Some("th"));
}

#[test]
fn reports_a_failed_confirmation() {
    let settings = config("other");
    let mut session = Session::new("id", "ABC-1", "/w/A", None);
    let failure = || StartupEvent::Failed(SymphonyError::Io("broken pipe".into()));
    let (phase, action) =
        advance_startup(&settings, &mut session, StartupPhase::Confirming, failure());
    assert_eq!(phase, StartupPhase::Failed);
    assert_eq!(
        action,
        StartupAction::Fail {
            emission: Some(emitted("startup_failed", Some("io: broken pipe"), None)),
            error: SymphonyError::Io("broken pipe".into())
        }
    );
    let (_, action) =
        advance_startup(&settings, &mut session, StartupPhase::Initializing, failure());
    assert_eq!(
        action,
        StartupAction::Fail { emission: None, error: SymphonyError::Io("broken pipe".into()) }
    );
}
