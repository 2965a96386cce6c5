use symphony::error::SymphonyError;

#[test]
fn errors_have_texts() {
    let s = |text: &str| text.to_string();
    let cases = vec![
        (SymphonyError::MissingWorkflowFile(s("W.md")), "missing_workflow_file: W.md"),
        (SymphonyError::WorkflowParseError(s("x")), "workflow_parse_error: x"),
        (SymphonyError::WorkflowFrontMatterNotAMap, "workflow_front_matter_not_a_map"),
        (SymphonyError::TemplateParseError(s("x")), "template_parse_error: x"),
        (SymphonyError::TemplateRenderError(s("x")), "template_render_error: x"),
        (SymphonyError::UnsupportedTrackerKind(s("jira")), "unsupported_tracker_kind: jira"),
        (SymphonyError::MissingTrackerApiKey, "missing_tracker_api_key"),
        (SymphonyError::MissingTrackerProjectSlug, "missing_tracker_project_slug"),
        (SymphonyError::InvalidConfig(s("x")), "invalid_config: x"),
        (SymphonyError::LinearApiRequest(s("x")), "linear_api_request: x"),
        (
            SymphonyError::LinearApiStatus { status: 503, body: s("down") },
            "linear_api_status: status=503 body=down",
        ),
        (SymphonyError::LinearGraphqlErrors(s("[]")), "linear_graphql_errors: []"),
        (SymphonyError::LinearUnknownPayload(s("x")), "linear_unknown_payload: x"),
        (SymphonyError::LinearMissingEndCursor, "linear_missing_end_cursor"),
        (
            SymphonyError::WorkspacePathEscape { root: s("/a \"b\""), path: s("/c") },
            "workspace_path_escape: root=\"/a \\\"b\\\"\" path=\"/c\"",
        ),
        (SymphonyError::InvalidWorkspaceCwd(s("x")), "invalid_workspace_cwd: x"),
        (
            SymphonyError::HookFailed { hook: s("before_run"), message: s("no") },
            "hook_failed: hook=before_run message=no",
        ),
        (SymphonyError::ResponseTimeout, "response_timeout"),
        (SymphonyError::TurnTimeout, "turn_timeout"),
        (SymphonyError::PortExit, "port_exit"),
        (SymphonyError::ResponseError(s("x")), "response_error: x"),
        (SymphonyError::TurnFailed(s("x")), "turn_failed: x"),
        (SymphonyError::TurnCancelled, "turn_cancelled"),
        (SymphonyError::TurnInputRequired, "turn_input_required"),
        (SymphonyError::Io(s("x")), "io: x"),
        (SymphonyError::Json(s("x")), "json: x"),
        (SymphonyError::Yaml(s("x")), "yaml: x"),
        (SymphonyError::Notify(s("x")), "notify: x"),
        (SymphonyError::Http(s("x")), "http: x"),
    ];
    for (error, text) in cases {
        assert_eq!(error.to_string(), text);
    }
}
