//! What can go wrong at startup, at dispatch, and in workers.
use vstd::prelude::*;

use crate::text::{decimal, decimal_text};

verus! {

/// An error of the service.
///
/// Paths are held as text. An error of the operating system or of another crate is held as the text
/// that it displays.
#[derive(Debug, PartialEq)]
pub enum SymphonyError {
    MissingWorkflowFile(String),
    WorkflowParseError(String),
    WorkflowFrontMatterNotAMap,
    TemplateParseError(String),
    TemplateRenderError(String),
    UnsupportedTrackerKind(String),
    MissingTrackerApiKey,
    MissingTrackerProjectSlug,
    InvalidConfig(String),
    LinearApiRequest(String),
    LinearApiStatus { status: u16, body: String },
    LinearGraphqlErrors(String),
    LinearUnknownPayload(String),
    LinearMissingEndCursor,
    WorkspacePathEscape { root: String, path: String },
    InvalidWorkspaceCwd(String),
    HookFailed { hook: String, message: String },
    ResponseTimeout,
    TurnTimeout,
    PortExit,
    ResponseError(String),
    TurnFailed(String),
    TurnCancelled,
    TurnInputRequired,
    Io(String),
    Json(String),
    Yaml(String),
    Notify(String),
    Http(String),
}

/// The mathematical value of a [`SymphonyError`].
pub ghost enum ErrorView {
    MissingWorkflowFile(Seq<char>),
    WorkflowParseError(Seq<char>),
    WorkflowFrontMatterNotAMap,
    TemplateParseError(Seq<char>),
    TemplateRenderError(Seq<char>),
    UnsupportedTrackerKind(Seq<char>),
    MissingTrackerApiKey,
    MissingTrackerProjectSlug,
    InvalidConfig(Seq<char>),
    LinearApiRequest(Seq<char>),
    LinearApiStatus { status: u16, body: Seq<char> },
    LinearGraphqlErrors(Seq<char>),
    LinearUnknownPayload(Seq<char>),
    LinearMissingEndCursor,
    WorkspacePathEscape { root: Seq<char>, path: Seq<char> },
    InvalidWorkspaceCwd(Seq<char>),
    HookFailed { hook: Seq<char>, message: Seq<char> },
    ResponseTimeout,
    TurnTimeout,
    PortExit,
    ResponseError(Seq<char>),
    TurnFailed(Seq<char>),
    TurnCancelled,
    TurnInputRequired,
    Io(Seq<char>),
    Json(Seq<char>),
    Yaml(Seq<char>),
    Notify(Seq<char>),
    Http(Seq<char>),
}

impl View for SymphonyError {
    type V = ErrorView;

    open spec fn view(&self) -> ErrorView {
        match *self {
            SymphonyError::MissingWorkflowFile(s) => ErrorView::MissingWorkflowFile(s@),
            SymphonyError::WorkflowParseError(s) => ErrorView::WorkflowParseError(s@),
            SymphonyError::WorkflowFrontMatterNotAMap => ErrorView::WorkflowFrontMatterNotAMap,
            SymphonyError::TemplateParseError(s) => ErrorView::TemplateParseError(s@),
            SymphonyError::TemplateRenderError(s) => ErrorView::TemplateRenderError(s@),
            SymphonyError::UnsupportedTrackerKind(s) => ErrorView::UnsupportedTrackerKind(s@),
            SymphonyError::MissingTrackerApiKey => ErrorView::MissingTrackerApiKey,
            SymphonyError::MissingTrackerProjectSlug => ErrorView::MissingTrackerProjectSlug,
            SymphonyError::InvalidConfig(s) => ErrorView::InvalidConfig(s@),
            SymphonyError::LinearApiRequest(s) => ErrorView::LinearApiRequest(s@),
            SymphonyError::LinearApiStatus { status, body } => ErrorView::LinearApiStatus {
                status,
                body: body@,
            },
            SymphonyError::LinearGraphqlErrors(s) => ErrorView::LinearGraphqlErrors(s@),
            SymphonyError::LinearUnknownPayload(s) => ErrorView::LinearUnknownPayload(s@),
            SymphonyError::LinearMissingEndCursor => ErrorView::LinearMissingEndCursor,
            SymphonyError::WorkspacePathEscape { root, path } => ErrorView::WorkspacePathEscape {
                root: root@,
                path: path@,
            },
            SymphonyError::InvalidWorkspaceCwd(s) => ErrorView::InvalidWorkspaceCwd(s@),
            SymphonyError::HookFailed { hook, message } => ErrorView::HookFailed {
                hook: hook@,
                message: message@,
            },
            SymphonyError::ResponseTimeout => ErrorView::ResponseTimeout,
            SymphonyError::TurnTimeout => ErrorView::TurnTimeout,
            SymphonyError::PortExit => ErrorView::PortExit,
            SymphonyError::ResponseError(s) => ErrorView::ResponseError(s@),
            SymphonyError::TurnFailed(s) => ErrorView::TurnFailed(s@),
            SymphonyError::TurnCancelled => ErrorView::TurnCancelled,
            SymphonyError::TurnInputRequired => ErrorView::TurnInputRequired,
            SymphonyError::Io(s) => ErrorView::Io(s@),
            SymphonyError::Json(s) => ErrorView::Json(s@),
            SymphonyError::Yaml(s) => ErrorView::Yaml(s@),
            SymphonyError::Notify(s) => ErrorView::Notify(s@),
            SymphonyError::Http(s) => ErrorView::Http(s@),
        }
    }
}

impl DeepView for SymphonyError {
    type V = ErrorView;

    open spec fn deep_view(&self) -> ErrorView {
        self@
    }
}

/// The text that the standard library shows for a path when it shows it for debugging.
pub uninterp spec fn path_debug_text(path: Seq<char>) -> Seq<char>;

/// `Debug` of `std::path::Path` is a function of the path.
#[verifier::external_body]
fn path_debug(path: &str) -> (r: String)
    ensures
        r@ == path_debug_text(path@),
{
    format!("{:?}", std::path::Path::new(path))
}

/// The text of an error.
pub open spec fn error_text(error: ErrorView) -> Seq<char> {
    match error {
        ErrorView::MissingWorkflowFile(s) => "missing_workflow_file: "@ + s,
        ErrorView::WorkflowParseError(s) => "workflow_parse_error: "@ + s,
        ErrorView::WorkflowFrontMatterNotAMap => "workflow_front_matter_not_a_map"@,
        ErrorView::TemplateParseError(s) => "template_parse_error: "@ + s,
        ErrorView::TemplateRenderError(s) => "template_render_error: "@ + s,
        ErrorView::UnsupportedTrackerKind(s) => "unsupported_tracker_kind: "@ + s,
        ErrorView::MissingTrackerApiKey => "missing_tracker_api_key"@,
        ErrorView::MissingTrackerProjectSlug => "missing_tracker_project_slug"@,
        ErrorView::InvalidConfig(s) => "invalid_config: "@ + s,
        ErrorView::LinearApiRequest(s) => "linear_api_request: "@ + s,
        ErrorView::LinearApiStatus { status, body } => "linear_api_status: status="@ + decimal(
            status as nat,
        ) + " body="@ + body,
        ErrorView::LinearGraphqlErrors(s) => "linear_graphql_errors: "@ + s,
        ErrorView::LinearUnknownPayload(s) => "linear_unknown_payload: "@ + s,
        ErrorView::LinearMissingEndCursor => "linear_missing_end_cursor"@,
        ErrorView::WorkspacePathEscape { root, path } => "workspace_path_escape: root="@
            + path_debug_text(root) + " path="@ + path_debug_text(path),
        ErrorView::InvalidWorkspaceCwd(s) => "invalid_workspace_cwd: "@ + s,
        ErrorView::HookFailed { hook, message } => "hook_failed: hook="@ + hook + " message="@
            + message,
        ErrorView::ResponseTimeout => "response_timeout"@,
        ErrorView::TurnTimeout => "turn_timeout"@,
        ErrorView::PortExit => "port_exit"@,
        ErrorView::ResponseError(s) => "response_error: "@ + s,
        ErrorView::TurnFailed(s) => "turn_failed: "@ + s,
        ErrorView::TurnCancelled => "turn_cancelled"@,
        ErrorView::TurnInputRequired => "turn_input_required"@,
        ErrorView::Io(s) => "io: "@ + s,
        ErrorView::Json(s) => "json: "@ + s,
        ErrorView::Yaml(s) => "yaml: "@ + s,
        ErrorView::Notify(s) => "notify: "@ + s,
        ErrorView::Http(s) => "http: "@ + s,
    }
}

/// A label, and what it labels.
fn labelled(label: &str, text: &str) -> (r: String)
    ensures
        r@ == label@ + text@,
{
    let mut r = label.to_owned();
    r.append(text);
    r
}

/// Two labels, each with what it labels.
fn labelled_pair(label: &str, text: &str, other_label: &str, other_text: &str) -> (r: String)
    ensures
        r@ == label@ + text@ + other_label@ + other_text@,
{
    let mut r = label.to_owned();
    r.append(text);
    r.append(other_label);
    r.append(other_text);
    r
}

impl SymphonyError {
    /// The text of the error.
    pub fn to_string(&self) -> (r: String)
        ensures
            r@ == error_text(self@),
    {
        match self {
            SymphonyError::MissingWorkflowFile(s) => labelled(
                "missing_workflow_file: ",
                s.as_str(),
            ),
            SymphonyError::WorkflowParseError(s) => labelled("workflow_parse_error: ", s.as_str()),
            SymphonyError::WorkflowFrontMatterNotAMap => "workflow_front_matter_not_a_map".to_owned(),
            SymphonyError::TemplateParseError(s) => labelled("template_parse_error: ", s.as_str()),
            SymphonyError::TemplateRenderError(s) => labelled(
                "template_render_error: ",
                s.as_str(),
            ),
            SymphonyError::UnsupportedTrackerKind(s) => labelled(
                "unsupported_tracker_kind: ",
                s.as_str(),
            ),
            SymphonyError::MissingTrackerApiKey => "missing_tracker_api_key".to_owned(),
            SymphonyError::MissingTrackerProjectSlug => "missing_tracker_project_slug".to_owned(),
            SymphonyError::InvalidConfig(s) => labelled("invalid_config: ", s.as_str()),
            SymphonyError::LinearApiRequest(s) => labelled("linear_api_request: ", s.as_str()),
            SymphonyError::LinearApiStatus { status, body } => labelled_pair(
                "linear_api_status: status=",
                decimal_text(*status as u64).as_str(),
                " body=",
                body.as_str(),
            ),
            SymphonyError::LinearGraphqlErrors(s) => labelled(
                "linear_graphql_errors: ",
                s.as_str(),
            ),
            SymphonyError::LinearUnknownPayload(s) => labelled(
                "linear_unknown_payload: ",
                s.as_str(),
            ),
            SymphonyError::LinearMissingEndCursor => "linear_missing_end_cursor".to_owned(),
            SymphonyError::WorkspacePathEscape { root, path } => labelled_pair(
                "workspace_path_escape: root=",
                path_debug(root.as_str()).as_str(),
                " path=",
                path_debug(path.as_str()).as_str(),
            ),
            SymphonyError::InvalidWorkspaceCwd(s) => labelled(
                "invalid_workspace_cwd: ",
                s.as_str(),
            ),
            SymphonyError::HookFailed { hook, message } => labelled_pair(
                "hook_failed: hook=",
                hook.as_str(),
                " message=",
                message.as_str(),
            ),
            SymphonyError::ResponseTimeout => "response_timeout".to_owned(),
            SymphonyError::TurnTimeout => "turn_timeout".to_owned(),
            SymphonyError::PortExit => "port_exit".to_owned(),
            SymphonyError::ResponseError(s) => labelled("response_error: ", s.as_str()),
            SymphonyError::TurnFailed(s) => labelled("turn_failed: ", s.as_str()),
            SymphonyError::TurnCancelled => "turn_cancelled".to_owned(),
            SymphonyError::TurnInputRequired => "turn_input_required".to_owned(),
            SymphonyError::Io(s) => labelled("io: ", s.as_str()),
            SymphonyError::Json(s) => labelled("json: ", s.as_str()),
            SymphonyError::Yaml(s) => labelled("yaml: ", s.as_str()),
            SymphonyError::Notify(s) => labelled("notify: ", s.as_str()),
            SymphonyError::Http(s) => labelled("http: ", s.as_str()),
        }
    }
}

} // verus!
