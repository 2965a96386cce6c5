use symphony::error::SymphonyError;
use symphony::json::Json;
use symphony::string_map::StringMap;
use symphony::time::Timestamp;
use symphony::tracker::{
    authorization, check_raw_graphql, graphql_payload, interpret_graphql_body, is_outlinable,
    issue_state_variables, normalize_blockers, normalize_issue, parse_timestamp,
    prepare_raw_graphql, read_graphql_response, read_issue_page, read_issues, select_tracker,
    DefinitionKind, IssuePages, TrackerKind,
};
use symphony::types::{
    AgentSettings, BlockerRef, CodexSettings, EffectiveConfig, HookSettings, PollingSettings,
    ServerSettings, TrackerSettings, WorkspaceSettings,
};

fn json(text: &str) -> Json {
    Json::parse(text).expect("the text is JSON")
}

fn config(kind: &str) -> EffectiveConfig {
    EffectiveConfig {
        workflow_path: "WORKFLOW.md".into(),
        prompt_template: "Hello".into(),
        tracker: TrackerSettings {
            kind: kind.into(),
            endpoint: "http://example.com".into(),
            api_key: "  token ".into(),
            project_slug: "proj".into(),
            active_states: vec!["Todo".into()],
            terminal_states: vec!["Done".into()],
        },
        polling: PollingSettings { interval_ms: 30_000 },
        workspace: WorkspaceSettings { root: "/w".into() },
        hooks: HookSettings::default(),
        agent: AgentSettings {
            max_concurrent_agents: 2,
            max_turns: 20,
            max_retry_backoff_ms: 300_000,
            max_concurrent_agents_by_state: StringMap::new(),
        },
        codex: CodexSettings {
            command: "codex app-server".into(),
            approval_policy: Json::Null,
            thread_sandbox: Json::Null,
            turn_sandbox_policy: Json::Null,
            turn_timeout_ms: 1000,
            read_timeout_ms: 1000,
            stall_timeout_ms: 1000,
        },
        server: ServerSettings::default(),
    }
}

#[test]
fn normalizes_labels_and_blockers() {
    let issue = normalize_issue(&json(
        r#"{
            "id": "1",
            "identifier": "ABC-1",
            "title": "Example",
            "priority": 2,
            "state": { "name": "Todo" },
            "labels": { "nodes": [{ "name": "Bug" }] },
            "inverseRelations": {
                "nodes": [{
                    "type": "blocks",
                    "issue": {
                        "id": "2",
                        "identifier": "ABC-2",
                        "state": { "name": "In Progress" }
                    }
                }]
            }
        }"#,
    ));
    assert_eq!(issue.labels, vec!["bug"]);
    assert_eq!(issue.blocked_by.len(), 1);
}

#[test]
fn normalizes_every_field() {
    let issue = normalize_issue(&json(
        r#"{
            "id": "1", "identifier": "ABC-1", "title": "T", "description": "d", "priority": -3,
            "branchName": "b", "url": "u", "createdAt": "1970-01-01T00:00:01Z",
            "updatedAt": "soon", "state": { "name": "Todo" },
            "labels": { "nodes": [{ "name": "ÄB" }, {}, { "name": 3 }, { "name": "C" }] }
        }"#,
    ));
    assert_eq!((issue.id.as_str(), issue.identifier.as_str()), ("1", "ABC-1"));
    assert_eq!((issue.title.as_str(), issue.state.as_str()), ("T", "Todo"));
    assert_eq!(issue.description.as_deref(), Some("d"));
    assert_eq!(issue.priority, Some(-3));
    assert_eq!(issue.branch_name.as_deref(), Some("b"));
    assert_eq!(issue.url.as_deref(), Some("u"));
    assert_eq!(issue.labels, vec!["äb", "c"]);
    assert_eq!(issue.created_at, Timestamp::new(1, 0));
    assert_eq!(issue.updated_at, None);
    assert!(issue.blocked_by.is_empty());
    let empty = normalize_issue(&Json::Null);
    assert_eq!(empty, symphony::types::Issue::default());
    assert_eq!(parse_timestamp(Some(&Json::PosInt(1))), None);
    assert_eq!(parse_timestamp(None), None);
}

#[test]
fn reads_blockers_from_either_end_of_a_relation() {
    let blockers = normalize_blockers(&json(
        r#"{"inverseRelations": {"nodes": [
            {"type": "related", "issue": {"id": "no"}},
            {"type": "BLOCKS", "issue": null, "sourceIssue": {"id": "a", "state": {"name": "X"}}},
            {"issue": {"identifier": "B"}, "sourceIssue": {"id": "unused"}},
            {"type": "blocks"}
        ]}}"#,
    ));
    assert_eq!(
        blockers,
        vec![
            BlockerRef { id: Some("a".into()), identifier: None, state: Some("X".into()) },
            BlockerRef { id: None, identifier: Some("B".into()), state: None },
            BlockerRef::default(),
        ]
    );
}

#[test]
fn gathers_pages_until_there_is_no_next() {
    let states = vec!["Todo".to_string(), "In Progress".to_string()];
    let mut pages = IssuePages::new(&states);
    assert!(!pages.complete);
    assert_eq!(
        pages.variables("proj", &states).to_text(),
        r#"{"after":null,"first":50,"projectSlug":"proj","states":["Todo","In Progress"]}"#
    );
    let first = json(
        r#"{"data": {"issues": {"nodes": [{"id": "issue-1"}, {"id": "issue-2"}],
            "pageInfo": {"hasNextPage": true, "endCursor": "cursor-1"}}}}"#,
    );
    pages.absorb(&first).unwrap();
    assert!(!pages.complete);
    assert_eq!(pages.after.as_deref(), Some("cursor-1"));
    let second = json(
        r#"{"data": {"issues": {"nodes": [{"id": "issue-3"}],
            "pageInfo": {"hasNextPage": false, "endCursor": null}}}}"#,
    );
    pages.absorb(&second).unwrap();
    assert!(pages.complete);
    let ids: Vec<&str> = pages.issues.iter().map(|issue| issue.id.as_str()).collect();
    assert_eq!(ids, vec!["issue-1", "issue-2", "issue-3"]);
}

#[test]
fn asks_for_nothing_without_states() {
    assert!(IssuePages::new(&Vec::new()).complete);
}

#[test]
fn refuses_pages_that_are_not_as_promised() {
    let mut pages = IssuePages::new(&vec!["Todo".to_string()]);
    let no_nodes = json(r#"{"data": {"issues": {"nodes": 3}}}"#);
    assert_eq!(
        pages.absorb(&no_nodes),
        Err(SymphonyError::LinearUnknownPayload("missing issues.nodes".into()))
    );
    let no_info = json(r#"{"data": {"issues": {"nodes": [{}]}}}"#);
    assert_eq!(
        read_issue_page(&no_info).err(),
        Some(SymphonyError::LinearUnknownPayload("missing pageInfo".into()))
    );
    let no_cursor = json(
        r#"{"data": {"issues": {"nodes": [{}], "pageInfo": {"hasNextPage": true}}}}"#,
    );
    assert_eq!(pages.absorb(&no_cursor), Err(SymphonyError::LinearMissingEndCursor));
    assert!(pages.issues.is_empty());
    assert_eq!(
        read_issues(&Json::Null).err(),
        Some(SymphonyError::LinearUnknownPayload("missing issues.nodes".into()))
    );
    assert_eq!(read_issues(&no_info).unwrap().len(), 1);
}

#[test]
fn reads_responses() {
    assert_eq!(
        read_graphql_response(500, "oops".into()),
        Err(SymphonyError::LinearApiStatus { status: 500, body: "oops".into() })
    );
    assert!(matches!(read_graphql_response(200, "{".into()), Err(SymphonyError::Json(_))));
    assert_eq!(
        read_graphql_response(200, r#"{"errors": [{ "message": "boom" }]}"#.into()),
        Err(SymphonyError::LinearGraphqlErrors(r#"[{"message":"boom"}]"#.into()))
    );
    assert_eq!(read_graphql_response(200, r#"{"data": 1}"#.into()), Ok(json(r#"{"data": 1}"#)));
    assert_eq!(
        interpret_graphql_body(Err("bad".into())),
        Err(SymphonyError::Json("bad".into()))
    );
    assert!(interpret_graphql_body(Ok(json(r#"{"errors": null}"#))).is_err());
}

#[test]
fn builds_requests() {
    assert_eq!(
        graphql_payload("query", Json::Null).to_text(),
        r#"{"query":"query","variables":null}"#
    );
    assert_eq!(
        issue_state_variables(&vec!["a".to_string()]).to_text(),
        r#"{"ids":["a"]}"#
    );
    assert_eq!(authorization(&config("linear")), "token");
    assert_eq!(select_tracker(&config("linear")), Ok(TrackerKind::Linear));
    assert_eq!(
        select_tracker(&config("jira")),
        Err(SymphonyError::UnsupportedTrackerKind("jira".into()))
    );
}

#[test]
fn sends_raw_queries_with_one_operation_only() {
    let query = "query One { viewer { id } }";
    assert_eq!(prepare_raw_graphql(query, None).unwrap().to_text(), "{}");
    let variables = json(r#"{"id": 1}"#);
    assert_eq!(prepare_raw_graphql(query, Some(json(r#"{"id": 1}"#))), Ok(variables));
    let invalid = |message: &str| Err(SymphonyError::InvalidConfig(message.into()));
    assert_eq!(
        prepare_raw_graphql("query A { a } query B { b }", None),
        invalid("query must contain exactly one GraphQL operation")
    );
    assert_eq!(
        prepare_raw_graphql("fragment F on T { a }", None),
        invalid("query must contain exactly one GraphQL operation")
    );
    assert!(prepare_raw_graphql("query A { ...F } fragment F on T { a }", None).is_ok());
    assert_eq!(
        prepare_raw_graphql(query, Some(json("[]"))),
        invalid("variables must be a JSON object")
    );
    match prepare_raw_graphql("query {", None) {
        Err(SymphonyError::InvalidConfig(message)) => {
            assert!(message.starts_with("invalid graphql query: "))
        }
        other => panic!("{:?}", other),
    }
}

#[test]
fn counts_operations_among_definitions() {
    let kinds = vec![DefinitionKind::Fragment, DefinitionKind::Operation, DefinitionKind::Fragment];
    assert!(check_raw_graphql(Ok(kinds), None).is_ok());
    assert!(check_raw_graphql(Ok(Vec::new()), None).is_err());
    assert_eq!(
        check_raw_graphql(Err("line 1".into()), None),
        Err(SymphonyError::InvalidConfig("invalid graphql query: line 1".into()))
    );
}

#[test]
fn notices_queries_that_cannot_be_cut() {
    assert!(is_outlinable("query { a }"));
    assert!(is_outlinable("{ a(b: \"\"\"\n  x\u{3000}y\n\"\"\") }"));
    assert!(!is_outlinable("{ a(b: \"\"\"\n  x\n\u{3000}y\n\"\"\") }"));
    assert!(is_outlinable("{ a(b: \"x\")\n\u{3000} }"));
}
