//! The messages of the Codex app-server protocol, and the vocabulary for what to do about them.
use vstd::prelude::*;

use crate::error::{error_text, ErrorView, SymphonyError};
use crate::json::{
    json_array_of_one, json_object, json_object_of_one, json_object_of_two, json_reading,
    json_rendering, json_string, with_member, Json, JsonView,
};
use crate::text::{from_utf8_lossy, str_eq, trim, trimmed, utf8_lossy};
use crate::time::Timestamp;
use crate::types::{EffectiveConfig, EffectiveConfigView, TokenUsage};

verus! {

/// The longest line that the app-server may write, in bytes.
pub const MAX_PROTOCOL_LINE_BYTES: usize = 10_485_760;

// ---------------------------------------------------------------------------
// Incoming lines
// ---------------------------------------------------------------------------

/// What came in from the app-server.
#[derive(Debug, PartialEq)]
pub enum IncomingMessage {
    StdoutJson(Json),
    StdoutMalformed(String),
    Stderr(String),
    StdoutClosed,
    StderrClosed,
}

/// The mathematical value of an [`IncomingMessage`].
pub ghost enum IncomingMessageView {
    StdoutJson(JsonView),
    StdoutMalformed(Seq<char>),
    Stderr(Seq<char>),
    StdoutClosed,
    StderrClosed,
}

impl View for IncomingMessage {
    type V = IncomingMessageView;

    open spec fn view(&self) -> IncomingMessageView {
        match *self {
            IncomingMessage::StdoutJson(value) => IncomingMessageView::StdoutJson(value@),
            IncomingMessage::StdoutMalformed(line) => IncomingMessageView::StdoutMalformed(line@),
            IncomingMessage::Stderr(line) => IncomingMessageView::Stderr(line@),
            IncomingMessage::StdoutClosed => IncomingMessageView::StdoutClosed,
            IncomingMessage::StderrClosed => IncomingMessageView::StderrClosed,
        }
    }
}

/// A line from the app-server: what goes to the session log, and what it means.
pub struct HeardLine {
    pub log: Option<String>,
    pub message: IncomingMessage,
}

/// The text of a line of standard output.
pub open spec fn line_text(bytes: Seq<u8>) -> Seq<char> {
    trimmed(utf8_lossy(bytes))
}

/// What a line of standard output means: a value where it reads as one, and otherwise a malformed
/// line. A line that is too long is not read.
pub open spec fn stdout_message(bytes: Seq<u8>) -> IncomingMessageView {
    if bytes.len() > MAX_PROTOCOL_LINE_BYTES {
        IncomingMessageView::StdoutMalformed("stdout line exceeded 10MB"@)
    } else {
        match json_reading(line_text(bytes)) {
            Ok(value) => IncomingMessageView::StdoutJson(value),
            Err(_) => IncomingMessageView::StdoutMalformed(line_text(bytes)),
        }
    }
}

/// What a line means, by what it reads as.
pub fn interpret_line(line: String, reading: Result<Json, String>) -> (r: IncomingMessage)
    ensures
        r@ == match reading {
            Ok(value) => IncomingMessageView::StdoutJson(value@),
            Err(_) => IncomingMessageView::StdoutMalformed(line@),
        },
{
    match reading {
        Ok(value) => IncomingMessage::StdoutJson(value),
        Err(_) => IncomingMessage::StdoutMalformed(line),
    }
}

/// Read a line of standard output.
pub fn read_stdout_line(bytes: &Vec<u8>) -> (r: HeardLine)
    ensures
        r.message@ == stdout_message(bytes@),
        r.log.deep_view() == if bytes@.len() > MAX_PROTOCOL_LINE_BYTES {
            None
        } else {
            Some("<< "@ + line_text(bytes@))
        },
{
    if bytes.len() > MAX_PROTOCOL_LINE_BYTES {
        return HeardLine {
            log: None,
            message: IncomingMessage::StdoutMalformed("stdout line exceeded 10MB".to_owned()),
        };
    }
    let decoded = from_utf8_lossy(bytes);
    let line = trim(decoded.as_str());
    let mut log = "<< ".to_owned();
    log.append(line);
    let message = interpret_line(line.to_owned(), Json::parse(line));
    HeardLine { log: Some(log), message }
}

/// Read a line of standard error.
pub fn read_stderr_line(line: String) -> (r: HeardLine)
    ensures
        r.message@ == IncomingMessageView::Stderr(line@),
        r.log.deep_view() == Some("!! "@ + line@),
{
    let mut log = "!! ".to_owned();
    log.append(line.as_str());
    HeardLine { log: Some(log), message: IncomingMessage::Stderr(line) }
}

// ---------------------------------------------------------------------------
// What a session reports
// ---------------------------------------------------------------------------

/// What is reported of a session, but for when and by which session.
#[derive(Debug, PartialEq)]
pub struct Emission {
    pub event: String,
    pub message: Option<String>,
    pub absolute_tokens: Option<TokenUsage>,
    pub rate_limits: Option<Json>,
    pub turn_count: Option<u32>,
}

/// The mathematical value of an [`Emission`].
pub ghost struct EmissionView {
    pub event: Seq<char>,
    pub message: Option<Seq<char>>,
    pub absolute_tokens: Option<TokenUsage>,
    pub rate_limits: Option<JsonView>,
    pub turn_count: Option<u32>,
}

impl View for Emission {
    type V = EmissionView;

    open spec fn view(&self) -> EmissionView {
        EmissionView {
            event: self.event@,
            message: self.message.deep_view(),
            absolute_tokens: self.absolute_tokens,
            rate_limits: self.rate_limits.deep_view(),
            turn_count: self.turn_count,
        }
    }
}

impl DeepView for Emission {
    type V = EmissionView;

    open spec fn deep_view(&self) -> EmissionView {
        self@
    }
}

/// A report without tokens and rate limits.
pub open spec fn plain_emission(
    event: Seq<char>,
    message: Option<Seq<char>>,
    turn_count: Option<u32>,
) -> EmissionView {
    EmissionView { event, message, absolute_tokens: None, rate_limits: None, turn_count }
}

pub(crate) fn emit_plain(event: &str, message: Option<String>, turn_count: Option<u32>) -> (r: Emission)
    ensures
        r@ == plain_emission(event@, message.deep_view(), turn_count),
{
    Emission {
        event: event.to_owned(),
        message,
        absolute_tokens: None,
        rate_limits: None,
        turn_count,
    }
}

/// A change of a live session.
#[derive(Debug, PartialEq)]
pub struct SessionUpdate {
    pub issue_id: String,
    pub issue_identifier: String,
    pub event: String,
    pub message: Option<String>,
    pub at: Timestamp,
    pub session_id: Option<String>,
    pub thread_id: Option<String>,
    pub turn_id: Option<String>,
    pub pid: Option<String>,
    pub absolute_tokens: Option<TokenUsage>,
    pub rate_limits: Option<Json>,
    pub turn_count: Option<u32>,
}

/// The mathematical value of a [`SessionUpdate`].
pub ghost struct SessionUpdateView {
    pub issue_id: Seq<char>,
    pub issue_identifier: Seq<char>,
    pub event: Seq<char>,
    pub message: Option<Seq<char>>,
    pub at: Timestamp,
    pub session_id: Option<Seq<char>>,
    pub thread_id: Option<Seq<char>>,
    pub turn_id: Option<Seq<char>>,
    pub pid: Option<Seq<char>>,
    pub absolute_tokens: Option<TokenUsage>,
    pub rate_limits: Option<JsonView>,
    pub turn_count: Option<u32>,
}

impl View for SessionUpdate {
    type V = SessionUpdateView;

    open spec fn view(&self) -> SessionUpdateView {
        SessionUpdateView {
            issue_id: self.issue_id@,
            issue_identifier: self.issue_identifier@,
            event: self.event@,
            message: self.message.deep_view(),
            at: self.at,
            session_id: self.session_id.deep_view(),
            thread_id: self.thread_id.deep_view(),
            turn_id: self.turn_id.deep_view(),
            pid: self.pid.deep_view(),
            absolute_tokens: self.absolute_tokens,
            rate_limits: self.rate_limits.deep_view(),
            turn_count: self.turn_count,
        }
    }
}

// ---------------------------------------------------------------------------
// Reactions
// ---------------------------------------------------------------------------

/// One thing to do for a session.
#[derive(Debug, PartialEq)]
pub enum Step {
    /// Write a value to the app-server, on a line of its own.
    Write(Json),
    /// Report to the scheduler.
    Emit(Emission),
    /// Kill the app-server.
    Kill,
}

/// The mathematical value of a [`Step`].
pub ghost enum StepView {
    Write(JsonView),
    Emit(EmissionView),
    Kill,
}

impl View for Step {
    type V = StepView;

    open spec fn view(&self) -> StepView {
        match *self {
            Step::Write(value) => StepView::Write(value@),
            Step::Emit(emission) => StepView::Emit(emission@),
            Step::Kill => StepView::Kill,
        }
    }
}

impl DeepView for Step {
    type V = StepView;

    open spec fn deep_view(&self) -> StepView {
        self@
    }
}

/// How the conversation stands after the steps of a [`Reaction`].
#[derive(Debug, PartialEq)]
pub enum Verdict {
    /// It goes on.
    Continue,
    /// The turn is over.
    Completed,
    /// The request is answered.
    Answered(Json),
    /// It failed.
    Failed(SymphonyError),
    /// The GraphQL tool is to be called, and its result written with [`tool_call_reply`]; then the
    /// conversation goes on.
    CallTool { id: Json, query: String, variables: Option<Json> },
}

/// The mathematical value of a [`Verdict`].
pub ghost enum VerdictView {
    Continue,
    Completed,
    Answered(JsonView),
    Failed(ErrorView),
    CallTool { id: JsonView, query: Seq<char>, variables: Option<JsonView> },
}

impl View for Verdict {
    type V = VerdictView;

    open spec fn view(&self) -> VerdictView {
        match *self {
            Verdict::Continue => VerdictView::Continue,
            Verdict::Completed => VerdictView::Completed,
            Verdict::Answered(value) => VerdictView::Answered(value@),
            Verdict::Failed(error) => VerdictView::Failed(error@),
            Verdict::CallTool { id, query, variables } => VerdictView::CallTool {
                id: id@,
                query: query@,
                variables: variables.deep_view(),
            },
        }
    }
}

/// What to do about a message.
#[derive(Debug, PartialEq)]
pub struct Reaction {
    pub steps: Vec<Step>,
    pub verdict: Verdict,
}

/// The mathematical value of a [`Reaction`].
pub ghost struct ReactionView {
    pub steps: Seq<StepView>,
    pub verdict: VerdictView,
}

impl View for Reaction {
    type V = ReactionView;

    open spec fn view(&self) -> ReactionView {
        ReactionView { steps: self.steps.deep_view(), verdict: self.verdict@ }
    }
}

pub(crate) fn react_without_steps(verdict: Verdict) -> (r: Reaction)
    ensures
        r@ == (ReactionView { steps: seq![], verdict: verdict@ }),
{
    let r = Reaction { steps: Vec::new(), verdict };
    proof {
        assert(r@.steps =~= seq![]);
    }
    r
}

pub(crate) fn react_with_one(step: Step, verdict: Verdict) -> (r: Reaction)
    ensures
        r@ == (ReactionView { steps: seq![step@], verdict: verdict@ }),
{
    let ghost view = step@;
    let mut steps: Vec<Step> = Vec::new();
    steps.push(step);
    let r = Reaction { steps, verdict };
    proof {
        assert(r@.steps =~= seq![view]);
    }
    r
}

pub(crate) fn react_with_two(first: Step, second: Step, verdict: Verdict) -> (r: Reaction)
    ensures
        r@ == (ReactionView { steps: seq![first@, second@], verdict: verdict@ }),
{
    let ghost views = (first@, second@);
    let mut steps: Vec<Step> = Vec::new();
    steps.push(first);
    steps.push(second);
    let r = Reaction { steps, verdict };
    proof {
        assert(r@.steps =~= seq![views.0, views.1]);
    }
    r
}

// ---------------------------------------------------------------------------
// Messages that are sent
// ---------------------------------------------------------------------------

/// The answer to a request.
pub open spec fn result_reply(id: JsonView, result: JsonView) -> JsonView {
    JsonView::Object(seq![("id"@, id), ("result"@, result)])
}

/// The refusal of a request.
pub open spec fn error_reply(id: JsonView, code: i64, message: Seq<char>) -> JsonView {
    JsonView::Object(
        seq![
            ("id"@, id),
            (
                "error"@,
                JsonView::Object(
                    seq![("code"@, JsonView::NegInt(code)), ("message"@, JsonView::String(message))],
                ),
            ),
        ],
    )
}

/// The approval of a request for approval, for the whole session.
pub open spec fn approval_reply(id: JsonView) -> JsonView {
    result_reply(id, JsonView::Object(seq![("decision"@, JsonView::String("acceptForSession"@))]))
}

/// The result of a call of a tool: whether it succeeded, and one text.
pub open spec fn tool_result(success: bool, text: Seq<char>) -> JsonView {
    JsonView::Object(
        seq![
            ("success"@, JsonView::Bool(success)),
            (
                "contentItems"@,
                JsonView::Array(
                    seq![
                        JsonView::Object(
                            seq![
                                ("type"@, JsonView::String("inputText"@)),
                                ("text"@, JsonView::String(text)),
                            ],
                        ),
                    ],
                ),
            ),
        ],
    )
}

/// The text that tells the model of an error.
pub open spec fn tool_error_text(error: ErrorView) -> Seq<char> {
    "{\"error\":\""@ + error_text(error) + "\"}"@
}

/// The answer to a call of the GraphQL tool.
pub open spec fn tool_reply(id: JsonView, outcome: Result<JsonView, ErrorView>) -> JsonView {
    match outcome {
        Ok(body) => result_reply(id, tool_result(true, json_rendering(body))),
        Err(error) => result_reply(id, tool_result(false, tool_error_text(error))),
    }
}

pub(crate) fn reply_with_result(id: &Json, result: Json) -> (r: Json)
    ensures
        r@ == result_reply(id@, result@),
{
    json_object_of_two("id", id.clone(), "result", result)
}

pub(crate) fn reply_with_error(id: &Json, code: i64, message: &str) -> (r: Json)
    ensures
        r@ == error_reply(id@, code, message@),
{
    json_object_of_two(
        "id",
        id.clone(),
        "error",
        json_object_of_two("code", Json::NegInt(code), "message", json_string(message)),
    )
}

pub(crate) fn reply_with_approval(id: &Json) -> (r: Json)
    ensures
        r@ == approval_reply(id@),
{
    reply_with_result(id, json_object_of_one("decision", json_string("acceptForSession")))
}

pub(crate) fn build_tool_result(success: bool, text: &str) -> (r: Json)
    ensures
        r@ == tool_result(success, text@),
{
    json_object_of_two(
        "success",
        Json::Bool(success),
        "contentItems",
        json_array_of_one(
            json_object_of_two("type", json_string("inputText"), "text", json_string(text)),
        ),
    )
}

pub(crate) fn describe_tool_error(error: &SymphonyError) -> (r: String)
    ensures
        r@ == tool_error_text(error@),
{
    let mut r = "{\"error\":\"".to_owned();
    r.append(error.to_string().as_str());
    r.append("\"}");
    r
}

/// The answer to a call of the GraphQL tool.
pub fn tool_call_reply(id: &Json, outcome: &Result<Json, SymphonyError>) -> (r: Json)
    ensures
        r@ == tool_reply(
            id@,
            match *outcome {
                Ok(body) => Ok(body@),
                Err(error) => Err(error@),
            },
        ),
{
    match outcome {
        Ok(body) => reply_with_result(id, build_tool_result(true, body.to_text().as_str())),
        Err(error) => reply_with_result(
            id,
            build_tool_result(false, describe_tool_error(error).as_str()),
        ),
    }
}

/// The description of the GraphQL tool.
pub open spec fn graphql_tool() -> JsonView {
    JsonView::Object(
        seq![
            ("name"@, JsonView::String("linear_graphql"@)),
            (
                "description"@,
                JsonView::String(
                    "Execute a raw GraphQL query or mutation against Linear using Symphony's configured tracker auth."@,
                ),
            ),
            (
                "inputSchema"@,
                JsonView::Object(
                    seq![
                        ("type"@, JsonView::String("object"@)),
                        ("required"@, JsonView::Array(seq![JsonView::String("query"@)])),
                        (
                            "properties"@,
                            JsonView::Object(
                                seq![
                                    (
                                        "query"@,
                                        JsonView::Object(
                                            seq![("type"@, JsonView::String("string"@))],
                                        ),
                                    ),
                                    (
                                        "variables"@,
                                        JsonView::Object(
                                            seq![("type"@, JsonView::String("object"@))],
                                        ),
                                    ),
                                ],
                            ),
                        ),
                    ],
                ),
            ),
        ],
    )
}

/// The description of the GraphQL tool.
pub fn linear_graphql_tool_spec() -> (r: Json)
    ensures
        r@ == graphql_tool(),
{
    let query = json_object_of_one("type", json_string("string"));
    let variables = json_object_of_one("type", json_string("object"));
    let properties = json_object_of_two("query", query, "variables", variables);
    let ghost properties_view = properties@;
    let schema_members = with_member(
        with_member(
            with_member(Vec::new(), "type", json_string("object")),
            "required",
            json_array_of_one(json_string("query")),
        ),
        "properties",
        properties,
    );
    let ghost schema_views = seq![
        ("type"@, JsonView::String("object"@)),
        ("required"@, JsonView::Array(seq![JsonView::String("query"@)])),
        ("properties"@, properties_view),
    ];
    proof {
        assert(schema_members.deep_view() =~= schema_views);
    }
    let members = with_member(
        with_member(
            with_member(Vec::new(), "name", json_string("linear_graphql")),
            "description",
            json_string(
                "Execute a raw GraphQL query or mutation against Linear using Symphony's configured tracker auth.",
            ),
        ),
        "inputSchema",
        json_object(schema_members),
    );
    proof {
        assert(members.deep_view() =~= graphql_tool()->Object_0);
    }
    json_object(members)
}

/// What the client says of itself to the app-server.
pub open spec fn initialize_request(version: Seq<char>) -> JsonView {
    JsonView::Object(
        seq![
            (
                "clientInfo"@,
                JsonView::Object(
                    seq![
                        ("name"@, JsonView::String("symphony"@)),
                        ("version"@, JsonView::String(version)),
                    ],
                ),
            ),
            ("capabilities"@, JsonView::Object(seq![("experimentalApi"@, JsonView::Bool(true))])),
        ],
    )
}

/// What the client says of itself to the app-server.
pub fn initialize_params(version: &str) -> (r: Json)
    ensures
        r@ == initialize_request(version@),
{
    json_object_of_two(
        "clientInfo",
        json_object_of_two("name", json_string("symphony"), "version", json_string(version)),
        "capabilities",
        json_object_of_one("experimentalApi", Json::Bool(true)),
    )
}

/// The thread that is asked for: the policies of the configuration in the workspace and, where the
/// tracker is Linear, the GraphQL tool.
pub open spec fn thread_request(config: EffectiveConfigView, workspace_path: Seq<char>) -> JsonView {
    let common = seq![
        ("approvalPolicy"@, config.codex.approval_policy),
        ("sandbox"@, config.codex.thread_sandbox),
        ("cwd"@, JsonView::String(workspace_path)),
        ("serviceName"@, JsonView::String("symphony"@)),
        ("personality"@, JsonView::String("pragmatic"@)),
    ];
    if config.tracker.kind == "linear"@ {
        let tools = JsonView::Array(seq![graphql_tool()]);
        JsonView::Object(
            common.push(("tools"@, tools)).push(
                ("config"@, JsonView::Object(seq![("tools"@, tools)])),
            ),
        )
    } else {
        JsonView::Object(common)
    }
}

/// The thread that is asked for.
pub fn thread_params(config: &EffectiveConfig, workspace_path: &str) -> (r: Json)
    ensures
        r@ == thread_request(config@, workspace_path@),
{
    let mut members = with_member(
        Vec::new(),
        "approvalPolicy",
        config.codex.approval_policy.clone(),
    );
    members = with_member(members, "sandbox", config.codex.thread_sandbox.clone());
    members = with_member(members, "cwd", json_string(workspace_path));
    members = with_member(members, "serviceName", json_string("symphony"));
    members = with_member(members, "personality", json_string("pragmatic"));
    let ghost common = seq![
        ("approvalPolicy"@, config@.codex.approval_policy),
        ("sandbox"@, config@.codex.thread_sandbox),
        ("cwd"@, JsonView::String(workspace_path@)),
        ("serviceName"@, JsonView::String("symphony"@)),
        ("personality"@, JsonView::String("pragmatic"@)),
    ];
    proof {
        assert(members.deep_view() =~= common);
    }
    if str_eq(config.tracker.kind.as_str(), "linear") {
        members = with_member(members, "tools", json_array_of_one(linear_graphql_tool_spec()));
        members = with_member(
            members,
            "config",
            json_object_of_one("tools", json_array_of_one(linear_graphql_tool_spec())),
        );
    }
    json_object(members)
}

/// The turn that is asked for.
pub open spec fn turn_request(
    config: EffectiveConfigView,
    workspace_path: Seq<char>,
    thread_id: Seq<char>,
    prompt: Seq<char>,
    title: Seq<char>,
) -> JsonView {
    JsonView::Object(
        seq![
            ("threadId"@, JsonView::String(thread_id)),
            (
                "input"@,
                JsonView::Array(
                    seq![
                        JsonView::Object(
                            seq![
                                ("type"@, JsonView::String("text"@)),
                                ("text"@, JsonView::String(prompt)),
                            ],
                        ),
                    ],
                ),
            ),
            ("cwd"@, JsonView::String(workspace_path)),
            ("title"@, JsonView::String(title)),
            ("approvalPolicy"@, config.codex.approval_policy),
            ("sandboxPolicy"@, config.codex.turn_sandbox_policy),
            ("personality"@, JsonView::String("pragmatic"@)),
        ],
    )
}

/// The turn that is asked for.
pub fn turn_params(
    config: &EffectiveConfig,
    workspace_path: &str,
    thread_id: &str,
    prompt: &str,
    title: &str,
) -> (r: Json)
    ensures
        r@ == turn_request(config@, workspace_path@, thread_id@, prompt@, title@),
{
    let mut members = with_member(Vec::new(), "threadId", json_string(thread_id));
    members = with_member(
        members,
        "input",
        json_array_of_one(
            json_object_of_two("type", json_string("text"), "text", json_string(prompt)),
        ),
    );
    members = with_member(members, "cwd", json_string(workspace_path));
    members = with_member(members, "title", json_string(title));
    members = with_member(members, "approvalPolicy", config.codex.approval_policy.clone());
    members = with_member(members, "sandboxPolicy", config.codex.turn_sandbox_policy.clone());
    members = with_member(members, "personality", json_string("pragmatic"));
    proof {
        assert(members.deep_view() =~= turn_request(
            config@,
            workspace_path@,
            thread_id@,
            prompt@,
            title@,
        )->Object_0);
    }
    json_object(members)
}

/// A request.
pub open spec fn request_message(id: u64, method: Seq<char>, params: JsonView) -> JsonView {
    JsonView::Object(
        seq![
            ("id"@, JsonView::PosInt(id)),
            ("method"@, JsonView::String(method)),
            ("params"@, params),
        ],
    )
}

/// A notification.
pub open spec fn notification_message(method: Seq<char>, params: JsonView) -> JsonView {
    JsonView::Object(seq![("method"@, JsonView::String(method)), ("params"@, params)])
}

/// A request.
pub fn request(id: u64, method: &str, params: Json) -> (r: Json)
    ensures
        r@ == request_message(id, method@, params@),
{
    let ghost view = params@;
    let members = with_member(
        with_member(
            with_member(Vec::new(), "id", Json::PosInt(id)),
            "method",
            json_string(method),
        ),
        "params",
        params,
    );
    proof {
        assert(members.deep_view() =~= request_message(id, method@, view)->Object_0);
    }
    json_object(members)
}

/// A notification.
pub fn notification(method: &str, params: Json) -> (r: Json)
    ensures
        r@ == notification_message(method@, params@),
{
    json_object_of_two("method", json_string(method), "params", params)
}

} // verus!
