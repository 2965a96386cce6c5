//! The conversation with a Codex app-server: what its messages mean, and what is said to it.
//!
//! The functions here decide. Whoever runs the child process carries out the [`Step`]s of a
//! [`Reaction`] in order, and stops with the error of the first write that fails.
use vstd::prelude::*;

use crate::duplicate::Duplicate;
use crate::error::{error_text, ErrorView, SymphonyError};
use crate::json::{find_member, json_object, json_rendering, Json, JsonView};
use crate::payload::{
    extract_string, extract_token_usage, first_text, graphql_arguments, has_summary, parse_linear_graphql_arguments,
    summarize_value, summary, token_usage, token_usage_fits, try_summarize_value, usage_fits,
};
use crate::protocol::{
    approval_reply, build_tool_result, describe_tool_error, emit_plain, error_reply,
    initialize_params, initialize_request, plain_emission, react_with_one, react_with_two,
    react_without_steps, reply_with_approval, reply_with_error, reply_with_result, request,
    request_message, result_reply, thread_params, thread_request, tool_error_text, tool_result,
    tool_reply, turn_params, turn_request, Emission, EmissionView, IncomingMessage,
    IncomingMessageView, Reaction, ReactionView, SessionUpdate,
    SessionUpdateView, Step, StepView, Verdict, VerdictView,
};
use crate::text::str_eq;
use crate::time::Timestamp;
use crate::types::{EffectiveConfig, EffectiveConfigView};

verus! {

/// The code of the error with which a request for input is refused.
pub const INPUT_REQUIRED_CODE: i64 = -32000;

/// The code of the error with which an unknown request is refused.
pub const UNSUPPORTED_CODE: i64 = -32001;

// ---------------------------------------------------------------------------
// What a message means
// ---------------------------------------------------------------------------

/// The message asks for an answer.
pub open spec fn is_server_request(value: JsonView) -> bool {
    value.member("method"@) is Some && value.member("id"@) is Some
}

/// The parameters of a message; null where there are none.
pub open spec fn message_params(value: JsonView) -> JsonView {
    match value.member("params"@) {
        Some(params) => params,
        None => JsonView::Null,
    }
}

/// A method by which the app-server asks for approval of a command or of a change of files.
pub open spec fn asks_approval(method: Seq<char>) -> bool {
    ||| method == "item/commandExecution/requestApproval"@
    ||| method == "execCommandApproval"@
    ||| method == "item/fileChange/requestApproval"@
    ||| method == "applyPatchApproval"@
}

/// A method by which the app-server asks for input of a user.
pub open spec fn asks_input(method: Seq<char>) -> bool {
    ||| method == "item/tool/requestUserInput"@
    ||| method == "mcpServer/elicitation/request"@
}

/// A notification that tells of tokens.
pub open spec fn tells_tokens(method: Seq<char>) -> bool {
    ||| method == "turn/completed"@
    ||| method == "turn/failed"@
    ||| method == "thread/tokenUsage/updated"@
}

/// The reaction repeats what the parameters of the message are about.
pub open spec fn repeats_params(value: JsonView) -> bool {
    match value.member_text("method"@) {
        Some(method) => is_server_request(value) ==> asks_approval(method) || asks_input(method),
        None => false,
    }
}

/// The reaction counts the tokens that the parameters of the message tell of.
pub open spec fn counts_params(value: JsonView) -> bool {
    match value.member_text("method"@) {
        Some(method) => !is_server_request(value) && tells_tokens(method),
        None => false,
    }
}

/// What the reaction takes out of the parameters can be taken out of them.
pub open spec fn can_react(value: JsonView) -> bool {
    &&& repeats_params(value) ==> has_summary(message_params(value))
    &&& counts_params(value) ==> usage_fits(message_params(value))
}

/// The tool that a call names.
pub open spec fn called_tool(params: JsonView) -> Seq<char> {
    match params.member_text("tool"@) {
        Some(tool) => tool,
        None => seq![],
    }
}

/// The reaction to a call of a tool.
pub open spec fn tool_call_reaction(id: JsonView, params: JsonView) -> ReactionView {
    if called_tool(params) != "linear_graphql"@ {
        ReactionView {
            steps: seq![
                StepView::Emit(
                    plain_emission(
                        "unsupported_tool_call"@,
                        Some("unsupported tool "@ + called_tool(params)),
                        None,
                    ),
                ),
                StepView::Write(result_reply(id, tool_result(false, "unsupported_tool_call"@))),
            ],
            verdict: VerdictView::Continue,
        }
    } else {
        match graphql_arguments(params.member("arguments"@)) {
            Ok((query, variables)) => ReactionView {
                steps: seq![],
                verdict: VerdictView::CallTool { id, query, variables },
            },
            Err(error) => ReactionView {
                steps: seq![
                    StepView::Write(result_reply(id, tool_result(false, tool_error_text(error)))),
                ],
                verdict: VerdictView::Continue,
            },
        }
    }
}

/// The reaction to a request of the app-server. Requests for approval are approved, requests for
/// input end the turn, and what is not known is refused.
pub open spec fn server_request_reaction(value: JsonView, turn_count: Option<u32>) -> ReactionView {
    let params = message_params(value);
    match (value.member_text("method"@), value.member("id"@)) {
        (None, _) => ReactionView {
            steps: seq![],
            verdict: VerdictView::Failed(ErrorView::ResponseError("request missing method"@)),
        },
        (Some(_), None) => ReactionView {
            steps: seq![],
            verdict: VerdictView::Failed(ErrorView::ResponseError("request missing id"@)),
        },
        (Some(method), Some(id)) => if asks_approval(method) {
            ReactionView {
                steps: seq![
                    StepView::Write(approval_reply(id)),
                    StepView::Emit(
                        plain_emission("approval_auto_approved"@, summary(params), turn_count),
                    ),
                ],
                verdict: VerdictView::Continue,
            }
        } else if method == "item/tool/call"@ {
            tool_call_reaction(id, params)
        } else if asks_input(method) {
            ReactionView {
                steps: seq![
                    StepView::Write(error_reply(id, INPUT_REQUIRED_CODE, "turn_input_required"@)),
                    StepView::Emit(
                        plain_emission("turn_input_required"@, summary(params), turn_count),
                    ),
                ],
                verdict: VerdictView::Failed(ErrorView::TurnInputRequired),
            }
        } else {
            ReactionView {
                steps: seq![
                    StepView::Write(error_reply(id, UNSUPPORTED_CODE, "unsupported request: "@ + method)),
                ],
                verdict: VerdictView::Continue,
            }
        },
    }
}

/// A reaction that only reports, and how the conversation stands then.
pub open spec fn report(emission: EmissionView, verdict: VerdictView) -> ReactionView {
    ReactionView { steps: seq![StepView::Emit(emission)], verdict }
}

/// The reaction to a message that asks for no answer.
pub open spec fn notification_reaction(value: JsonView, turn_count: Option<u32>) -> ReactionView {
    let params = message_params(value);
    match value.member_text("method"@) {
        None => ReactionView { steps: seq![], verdict: VerdictView::Continue },
        Some(method) => if method == "turn/completed"@ {
            report(
                EmissionView {
                    absolute_tokens: token_usage(params),
                    ..plain_emission("turn_completed"@, summary(params), turn_count)
                },
                VerdictView::Completed,
            )
        } else if method == "turn/failed"@ {
            report(
                EmissionView {
                    absolute_tokens: token_usage(params),
                    ..plain_emission("turn_failed"@, summary(params), turn_count)
                },
                VerdictView::Failed(
                    ErrorView::TurnFailed(
                        match summary(params) {
                            Some(text) => text,
                            None => "turn failed"@,
                        },
                    ),
                ),
            )
        } else if method == "turn/cancelled"@ {
            report(
                plain_emission("turn_cancelled"@, summary(params), turn_count),
                VerdictView::Failed(ErrorView::TurnCancelled),
            )
        } else if method == "thread/tokenUsage/updated"@ {
            report(
                EmissionView {
                    absolute_tokens: token_usage(params),
                    ..plain_emission("notification"@, summary(params), turn_count)
                },
                VerdictView::Continue,
            )
        } else if method == "account/rateLimits/updated"@ {
            report(
                EmissionView {
                    rate_limits: match params.member("rateLimits"@) {
                        Some(limits) => Some(limits),
                        None => Some(params),
                    },
                    ..plain_emission("notification"@, summary(params), turn_count)
                },
                VerdictView::Continue,
            )
        } else {
            report(
                plain_emission(
                    "other_message"@,
                    match summary(params) {
                        Some(text) => Some(text),
                        None => Some(json_rendering(value)),
                    },
                    turn_count,
                ),
                VerdictView::Continue,
            )
        },
    }
}

/// The reaction to a message of the app-server.
pub open spec fn reaction(value: JsonView, turn_count: Option<u32>) -> ReactionView {
    if is_server_request(value) {
        server_request_reaction(value, turn_count)
    } else {
        notification_reaction(value, turn_count)
    }
}

// ---------------------------------------------------------------------------
// Functions for messages
// ---------------------------------------------------------------------------

fn take_params(value: &Json) -> (r: Json)
    ensures
        r@ == message_params(value@),
{
    match value.get("params") {
        Some(params) => params.clone(),
        None => Json::Null,
    }
}

fn method_asks_approval(method: &str) -> (r: bool)
    ensures
        r == asks_approval(method@),
{
    str_eq(method, "item/commandExecution/requestApproval") || str_eq(method, "execCommandApproval")
        || str_eq(method, "item/fileChange/requestApproval") || str_eq(method, "applyPatchApproval")
}

fn method_asks_input(method: &str) -> (r: bool)
    ensures
        r == asks_input(method@),
{
    str_eq(method, "item/tool/requestUserInput") || str_eq(method, "mcpServer/elicitation/request")
}

fn method_tells_tokens(method: &str) -> (r: bool)
    ensures
        r == tells_tokens(method@),
{
    str_eq(method, "turn/completed") || str_eq(method, "turn/failed") || str_eq(
        method,
        "thread/tokenUsage/updated",
    )
}

/// Whether what the reaction to a message takes out of its parameters can be taken out of them.
pub fn is_manageable(value: &Json) -> (r: bool)
    ensures
        r == can_react(value@),
{
    let method = match value.member_text("method") {
        Some(method) => method,
        None => {
            return true;
        },
    };
    let params = take_params(value);
    if value.get("method").is_some() && value.get("id").is_some() {
        !(method_asks_approval(method.as_str()) || method_asks_input(method.as_str()))
            || try_summarize_value(&params).is_some()
    } else {
        try_summarize_value(&params).is_some() && (!method_tells_tokens(method.as_str())
            || token_usage_fits(&params))
    }
}

/// What to do about a call of a tool.
pub fn handle_dynamic_tool_call(id: &Json, params: &Json) -> (r: Reaction)
    ensures
        r@ == tool_call_reaction(id@, params@),
{
    let tool = match params.member_text("tool") {
        Some(tool) => tool,
        None => String::new(),
    };
    proof {
        assert(tool@ =~= called_tool(params@));
    }
    if !str_eq(tool.as_str(), "linear_graphql") {
        let mut message = "unsupported tool ".to_owned();
        message.append(tool.as_str());
        return react_with_two(
            Step::Emit(emit_plain("unsupported_tool_call", Some(message), None)),
            Step::Write(
                reply_with_result(id, build_tool_result(false, "unsupported_tool_call")),
            ),
            Verdict::Continue,
        );
    }
    match parse_linear_graphql_arguments(params.get("arguments")) {
        Ok((query, variables)) => react_without_steps(
            Verdict::CallTool { id: id.clone(), query, variables },
        ),
        Err(error) => react_with_one(
            Step::Write(
                reply_with_result(
                    id,
                    build_tool_result(false, describe_tool_error(&error).as_str()),
                ),
            ),
            Verdict::Continue,
        ),
    }
}

/// What to do about a request of the app-server.
pub fn handle_server_request(value: &Json, turn_count: Option<u32>) -> (r: Reaction)
    requires
        is_server_request(value@) ==> can_react(value@),
    ensures
        r@ == server_request_reaction(value@, turn_count),
{
    let method = match value.member_text("method") {
        Some(method) => method,
        None => {
            return react_without_steps(
                Verdict::Failed(SymphonyError::ResponseError("request missing method".to_owned())),
            );
        },
    };
    let id = match value.get("id") {
        Some(id) => id.clone(),
        None => {
            return react_without_steps(
                Verdict::Failed(SymphonyError::ResponseError("request missing id".to_owned())),
            );
        },
    };
    let params = take_params(value);
    if method_asks_approval(method.as_str()) {
        react_with_two(
            Step::Write(reply_with_approval(&id)),
            Step::Emit(
                emit_plain("approval_auto_approved", summarize_value(&params), turn_count),
            ),
            Verdict::Continue,
        )
    } else if str_eq(method.as_str(), "item/tool/call") {
        handle_dynamic_tool_call(&id, &params)
    } else if method_asks_input(method.as_str()) {
        react_with_two(
            Step::Write(reply_with_error(&id, INPUT_REQUIRED_CODE, "turn_input_required")),
            Step::Emit(emit_plain("turn_input_required", summarize_value(&params), turn_count)),
            Verdict::Failed(SymphonyError::TurnInputRequired),
        )
    } else {
        let mut message = "unsupported request: ".to_owned();
        message.append(method.as_str());
        react_with_one(
            Step::Write(reply_with_error(&id, UNSUPPORTED_CODE, message.as_str())),
            Verdict::Continue,
        )
    }
}

/// What to do about a message of the app-server.
pub fn handle_value(value: &Json, turn_count: Option<u32>) -> (r: Reaction)
    requires
        can_react(value@),
    ensures
        r@ == reaction(value@, turn_count),
{
    if value.get("method").is_some() && value.get("id").is_some() {
        return handle_server_request(value, turn_count);
    }
    let method = match value.member_text("method") {
        Some(method) => method,
        None => {
            return react_without_steps(Verdict::Continue);
        },
    };
    let params = take_params(value);
    let message = summarize_value(&params);
    if str_eq(method.as_str(), "turn/completed") {
        let mut emission = emit_plain("turn_completed", message, turn_count);
        emission.absolute_tokens = extract_token_usage(&params);
        react_with_one(Step::Emit(emission), Verdict::Completed)
    } else if str_eq(method.as_str(), "turn/failed") {
        let reason = match &message {
            Some(text) => text.clone(),
            None => "turn failed".to_owned(),
        };
        let mut emission = emit_plain("turn_failed", message, turn_count);
        emission.absolute_tokens = extract_token_usage(&params);
        react_with_one(Step::Emit(emission), Verdict::Failed(SymphonyError::TurnFailed(reason)))
    } else if str_eq(method.as_str(), "turn/cancelled") {
        react_with_one(
            Step::Emit(emit_plain("turn_cancelled", message, turn_count)),
            Verdict::Failed(SymphonyError::TurnCancelled),
        )
    } else if str_eq(method.as_str(), "thread/tokenUsage/updated") {
        let mut emission = emit_plain("notification", message, turn_count);
        emission.absolute_tokens = extract_token_usage(&params);
        react_with_one(Step::Emit(emission), Verdict::Continue)
    } else if str_eq(method.as_str(), "account/rateLimits/updated") {
        let mut emission = emit_plain("notification", message, turn_count);
        emission.rate_limits = match params.get("rateLimits") {
            Some(limits) => Some(limits.clone()),
            None => Some(params.clone()),
        };
        react_with_one(Step::Emit(emission), Verdict::Continue)
    } else {
        let told = match message {
            Some(text) => Some(text),
            None => Some(value.to_text()),
        };
        react_with_one(
            Step::Emit(emit_plain("other_message", told, turn_count)),
            Verdict::Continue,
        )
    }
}

// ---------------------------------------------------------------------------
// Listening
// ---------------------------------------------------------------------------

/// What whoever listens to the app-server hears next.
#[derive(Debug, PartialEq)]
pub enum Heard {
    /// A message, and whether the app-server has exited.
    Message { message: IncomingMessage, exited: bool },
    /// The stream was closed, and asking whether the app-server has exited failed.
    WaitFailed(String),
    /// Nothing in time.
    Deadline,
    /// Nothing any more.
    Disconnected,
    /// The worker is to stop.
    Cancelled,
}

/// The mathematical value of what is [`Heard`].
pub ghost enum HeardView {
    Message { message: IncomingMessageView, exited: bool },
    WaitFailed(Seq<char>),
    Deadline,
    Disconnected,
    Cancelled,
}

impl View for Heard {
    type V = HeardView;

    open spec fn view(&self) -> HeardView {
        match *self {
            Heard::Message { message, exited } => HeardView::Message { message: message@, exited },
            Heard::WaitFailed(error) => HeardView::WaitFailed(error@),
            Heard::Deadline => HeardView::Deadline,
            Heard::Disconnected => HeardView::Disconnected,
            Heard::Cancelled => HeardView::Cancelled,
        }
    }
}

/// A reaction without steps.
pub open spec fn only(verdict: VerdictView) -> ReactionView {
    ReactionView { steps: seq![], verdict }
}

/// The reaction to a message. The end of a stream matters only once the app-server has exited.
pub open spec fn message_reaction(
    message: IncomingMessageView,
    exited: bool,
    turn_count: Option<u32>,
) -> ReactionView {
    match message {
        IncomingMessageView::StdoutJson(value) => reaction(value, turn_count),
        IncomingMessageView::StdoutMalformed(line) => report(
            plain_emission("malformed"@, Some(line), turn_count),
            VerdictView::Continue,
        ),
        IncomingMessageView::Stderr(line) => report(
            plain_emission("notification"@, Some(line), turn_count),
            VerdictView::Continue,
        ),
        IncomingMessageView::StdoutClosed | IncomingMessageView::StderrClosed => if exited {
            only(VerdictView::Failed(ErrorView::PortExit))
        } else {
            only(VerdictView::Continue)
        },
    }
}

/// The reaction to what is heard during a turn.
pub open spec fn turn_reaction(heard: HeardView, turn_count: u32) -> ReactionView {
    match heard {
        HeardView::Message { message, exited } => message_reaction(
            message,
            exited,
            Some(turn_count),
        ),
        HeardView::WaitFailed(error) => only(VerdictView::Failed(ErrorView::Io(error))),
        HeardView::Deadline => only(VerdictView::Failed(ErrorView::TurnTimeout)),
        HeardView::Disconnected => only(VerdictView::Failed(ErrorView::PortExit)),
        HeardView::Cancelled => ReactionView {
            steps: seq![StepView::Kill],
            verdict: VerdictView::Failed(ErrorView::TurnCancelled),
        },
    }
}

/// The message answers the request with this id.
pub open spec fn is_answer(value: JsonView, id: u64) -> bool {
    match value.member("id"@) {
        Some(given) => given.unsigned() == Some(id),
        None => false,
    }
}

/// What an answer says: a result, or what went wrong.
pub open spec fn answer(value: JsonView) -> VerdictView {
    match value.member("result"@) {
        Some(result) => VerdictView::Answered(result),
        None => VerdictView::Failed(
            ErrorView::ResponseError(
                json_rendering(
                    match value.member("error"@) {
                        Some(error) => error,
                        None => JsonView::String("missing result"@),
                    },
                ),
            ),
        ),
    }
}

/// The reaction, where the end of a turn is nothing to stop at.
pub open spec fn past_completion(reaction: ReactionView) -> ReactionView {
    if reaction.verdict is Completed {
        ReactionView { verdict: VerdictView::Continue, ..reaction }
    } else {
        reaction
    }
}

/// The reaction to what is heard while the answer to a request is awaited.
pub open spec fn request_reaction(heard: HeardView, id: u64) -> ReactionView {
    match heard {
        HeardView::Message { message, exited } => match message {
            IncomingMessageView::StdoutJson(value) => if is_answer(value, id) {
                only(answer(value))
            } else {
                past_completion(reaction(value, None))
            },
            _ => message_reaction(message, exited, None),
        },
        HeardView::WaitFailed(error) => only(VerdictView::Failed(ErrorView::Io(error))),
        HeardView::Deadline => only(VerdictView::Failed(ErrorView::ResponseTimeout)),
        HeardView::Disconnected => only(VerdictView::Failed(ErrorView::PortExit)),
        HeardView::Cancelled => only(VerdictView::Continue),
    }
}

/// What the reaction to what is heard takes out of it can be taken out of it.
pub open spec fn can_hear(heard: HeardView) -> bool {
    match heard {
        HeardView::Message { message: IncomingMessageView::StdoutJson(value), .. } => can_react(
            value,
        ),
        _ => true,
    }
}

/// What is heard is the answer to the request with this id.
pub open spec fn hears_answer(heard: HeardView, id: u64) -> bool {
    match heard {
        HeardView::Message { message: IncomingMessageView::StdoutJson(value), .. } => is_answer(
            value,
            id,
        ),
        _ => false,
    }
}

/// What to do about a message.
pub fn handle_incoming(message: IncomingMessage, exited: bool, turn_count: Option<u32>) -> (r:
    Reaction)
    requires
        can_hear(HeardView::Message { message: message@, exited }),
    ensures
        r@ == message_reaction(message@, exited, turn_count),
{
    match message {
        IncomingMessage::StdoutJson(value) => handle_value(&value, turn_count),
        IncomingMessage::StdoutMalformed(line) => react_with_one(
            Step::Emit(emit_plain("malformed", Some(line), turn_count)),
            Verdict::Continue,
        ),
        IncomingMessage::Stderr(line) => react_with_one(
            Step::Emit(emit_plain("notification", Some(line), turn_count)),
            Verdict::Continue,
        ),
        IncomingMessage::StdoutClosed => if exited {
            react_without_steps(Verdict::Failed(SymphonyError::PortExit))
        } else {
            react_without_steps(Verdict::Continue)
        },
        IncomingMessage::StderrClosed => if exited {
            react_without_steps(Verdict::Failed(SymphonyError::PortExit))
        } else {
            react_without_steps(Verdict::Continue)
        },
    }
}

/// What to do about what is heard during a turn.
pub fn hear_in_turn(heard: Heard, turn_count: u32) -> (r: Reaction)
    requires
        can_hear(heard@),
    ensures
        r@ == turn_reaction(heard@, turn_count),
{
    match heard {
        Heard::Message { message, exited } => handle_incoming(message, exited, Some(turn_count)),
        Heard::WaitFailed(error) => react_without_steps(Verdict::Failed(SymphonyError::Io(error))),
        Heard::Deadline => react_without_steps(Verdict::Failed(SymphonyError::TurnTimeout)),
        Heard::Disconnected => react_without_steps(Verdict::Failed(SymphonyError::PortExit)),
        Heard::Cancelled => react_with_one(
            Step::Kill,
            Verdict::Failed(SymphonyError::TurnCancelled),
        ),
    }
}

fn message_is_answer(value: &Json, id: u64) -> (r: bool)
    ensures
        r == is_answer(value@, id),
{
    match value.get("id") {
        Some(given) => match given.as_u64() {
            Some(given) => given == id,
            None => false,
        },
        None => false,
    }
}

fn read_answer(value: &Json) -> (r: Verdict)
    ensures
        r@ == answer(value@),
{
    match value.get("result") {
        Some(result) => Verdict::Answered(result.clone()),
        None => {
            let error = match value.get("error") {
                Some(error) => error.clone(),
                None => Json::String("missing result".to_owned()),
            };
            Verdict::Failed(SymphonyError::ResponseError(error.to_text()))
        },
    }
}

/// What to do about what is heard while the answer to a request is awaited.
pub fn hear_in_request(heard: Heard, id: u64) -> (r: Reaction)
    requires
        hears_answer(heard@, id) || can_hear(heard@),
    ensures
        r@ == request_reaction(heard@, id),
{
    match heard {
        Heard::Message { message, exited } => match message {
            IncomingMessage::StdoutJson(value) => if message_is_answer(&value, id) {
                react_without_steps(read_answer(&value))
            } else {
                let r = handle_value(&value, None);
                match r.verdict {
                    Verdict::Completed => Reaction { steps: r.steps, verdict: Verdict::Continue },
                    _ => r,
                }
            },
            _ => handle_incoming(message, exited, None),
        },
        Heard::WaitFailed(error) => react_without_steps(Verdict::Failed(SymphonyError::Io(error))),
        Heard::Deadline => react_without_steps(Verdict::Failed(SymphonyError::ResponseTimeout)),
        Heard::Disconnected => react_without_steps(Verdict::Failed(SymphonyError::PortExit)),
        Heard::Cancelled => react_without_steps(Verdict::Continue),
    }
}

fn is_hearable(heard: &Heard) -> (r: bool)
    ensures
        r == can_hear(heard@),
{
    match heard {
        Heard::Message { message, .. } => match message {
            IncomingMessage::StdoutJson(value) => is_manageable(value),
            _ => true,
        },
        _ => true,
    }
}

/// What to do about what is heard during a turn; none where the message cannot be summed up.
pub fn try_hear_in_turn(heard: Heard, turn_count: u32) -> (r: Option<Reaction>)
    ensures
        match r {
            Some(reaction) => can_hear(heard@) && reaction@ == turn_reaction(heard@, turn_count),
            None => !can_hear(heard@),
        },
{
    if is_hearable(&heard) {
        Some(hear_in_turn(heard, turn_count))
    } else {
        None
    }
}

/// What to do about what is heard while the answer to a request is awaited; none where a message
/// that is not the answer cannot be summed up.
pub fn try_hear_in_request(heard: Heard, id: u64) -> (r: Option<Reaction>)
    ensures
        match r {
            Some(reaction) => (hears_answer(heard@, id) || can_hear(heard@)) && reaction@
                == request_reaction(heard@, id),
            None => !hears_answer(heard@, id) && !can_hear(heard@),
        },
{
    let answered = match &heard {
        Heard::Message { message, .. } => match message {
            IncomingMessage::StdoutJson(value) => message_is_answer(value, id),
            _ => false,
        },
        _ => false,
    };
    if answered || is_hearable(&heard) {
        Some(hear_in_request(heard, id))
    } else {
        None
    }
}

// ---------------------------------------------------------------------------
// Sessions
// ---------------------------------------------------------------------------

/// A conversation with an app-server about one issue.
#[derive(Debug, PartialEq)]
pub struct Session {
    pub next_request_id: u64,
    pub issue_id: String,
    pub issue_identifier: String,
    pub workspace_path: String,
    pub pid: Option<String>,
    pub thread_id: Option<String>,
    pub turn_id: Option<String>,
    pub session_id: Option<String>,
}

/// The mathematical value of a [`Session`].
pub ghost struct SessionView {
    pub next_request_id: u64,
    pub issue_id: Seq<char>,
    pub issue_identifier: Seq<char>,
    pub workspace_path: Seq<char>,
    pub pid: Option<Seq<char>>,
    pub thread_id: Option<Seq<char>>,
    pub turn_id: Option<Seq<char>>,
    pub session_id: Option<Seq<char>>,
}

impl View for Session {
    type V = SessionView;

    open spec fn view(&self) -> SessionView {
        SessionView {
            next_request_id: self.next_request_id,
            issue_id: self.issue_id@,
            issue_identifier: self.issue_identifier@,
            workspace_path: self.workspace_path@,
            pid: self.pid.deep_view(),
            thread_id: self.thread_id.deep_view(),
            turn_id: self.turn_id.deep_view(),
            session_id: self.session_id.deep_view(),
        }
    }
}

/// The id of the thread that was opened.
pub open spec fn opened_thread(result: JsonView) -> Option<Seq<char>> {
    first_text(result, seq![seq!["thread"@, "id"@], seq!["threadId"@]])
}

/// The id of the turn that was begun.
pub open spec fn begun_turn(result: JsonView) -> Option<Seq<char>> {
    first_text(result, seq![seq!["turn"@, "id"@], seq!["turnId"@]])
}

impl SessionView {
    /// The session at the beginning of a turn: it has the id of the turn, and an id of its own where
    /// both thread and turn have one.
    pub open spec fn with_turn(self, result: JsonView) -> SessionView {
        SessionView {
            turn_id: begun_turn(result),
            session_id: match (self.thread_id, begun_turn(result)) {
                (Some(thread), Some(turn)) => Some(thread + "-"@ + turn),
                _ => None,
            },
            ..self
        }
    }

    /// What is reported, with when and by which session.
    pub open spec fn update(self, emission: EmissionView, at: Timestamp) -> SessionUpdateView {
        SessionUpdateView {
            issue_id: self.issue_id,
            issue_identifier: self.issue_identifier,
            event: emission.event,
            message: emission.message,
            at,
            session_id: self.session_id,
            thread_id: self.thread_id,
            turn_id: self.turn_id,
            pid: self.pid,
            absolute_tokens: emission.absolute_tokens,
            rate_limits: emission.rate_limits,
            turn_count: emission.turn_count,
        }
    }
}

impl Session {
    /// A conversation in which nothing was said.
    pub fn new(
        issue_id: &str,
        issue_identifier: &str,
        workspace_path: &str,
        pid: Option<String>,
    ) -> (r: Session)
        ensures
            r@ == (SessionView {
                next_request_id: 1,
                issue_id: issue_id@,
                issue_identifier: issue_identifier@,
                workspace_path: workspace_path@,
                pid: pid.deep_view(),
                thread_id: None,
                turn_id: None,
                session_id: None,
            }),
    {
        Session {
            next_request_id: 1,
            issue_id: issue_id.to_owned(),
            issue_identifier: issue_identifier.to_owned(),
            workspace_path: workspace_path.to_owned(),
            pid,
            thread_id: None,
            turn_id: None,
            session_id: None,
        }
    }

    /// The next request, with an id that no earlier request of the session has.
    pub fn next_request(&mut self, method: &str, params: Json) -> (r: (u64, Json))
        requires
            old(self).next_request_id < u64::MAX,
        ensures
            r.0 == old(self).next_request_id,
            r.1@ == request_message(r.0, method@, params@),
            final(self)@ == (SessionView {
                next_request_id: (old(self)@.next_request_id + 1) as u64,
                ..old(self)@
            }),
    {
        let id = self.next_request_id;
        self.next_request_id = id + 1;
        (id, request(id, method, params))
    }

    /// Take the id of the thread out of the answer to the request for one.
    pub fn open_thread(&mut self, result: &Json)
        ensures
            final(self)@ == (SessionView { thread_id: opened_thread(result@), ..old(self)@ }),
    {
        let long: [&str; 2] = ["thread", "id"];
        let short: [&str; 1] = ["threadId"];
        let paths: [&[&str]; 2] = [long.as_slice(), short.as_slice()];
        proof {
            assert(long.deep_view() =~= seq!["thread"@, "id"@]);
            assert(short.deep_view() =~= seq!["threadId"@]);
            assert(paths.deep_view() =~= seq![seq!["thread"@, "id"@], seq!["threadId"@]]);
        }
        self.thread_id = extract_string(result, paths.as_slice());
    }

    /// The turn to ask for; there is none without a thread.
    pub fn request_turn(&self, config: &EffectiveConfig, prompt: &str, title: &str) -> (r: Result<
        Json,
        SymphonyError,
    >)
        ensures
            match r {
                Ok(params) => self@.thread_id matches Some(thread) && params@ == turn_request(
                    config@,
                    self@.workspace_path,
                    thread,
                    prompt@,
                    title@,
                ),
                Err(error) => self@.thread_id is None && error@ == ErrorView::ResponseError(
                    "missing thread id"@,
                ),
            },
    {
        match &self.thread_id {
            Some(thread) => Ok(
                turn_params(config, self.workspace_path.as_str(), thread.as_str(), prompt, title),
            ),
            None => Err(SymphonyError::ResponseError("missing thread id".to_owned())),
        }
    }

    /// Take the id of the turn out of the answer to the request for one, and report it.
    pub fn begin_turn(&mut self, result: &Json, turn_count: u32) -> (r: Emission)
        requires
            has_summary(result@),
        ensures
            final(self)@ == old(self)@.with_turn(result@),
            r@ == plain_emission("session_started"@, summary(result@), Some(turn_count)),
    {
        let long: [&str; 2] = ["turn", "id"];
        let short: [&str; 1] = ["turnId"];
        let paths: [&[&str]; 2] = [long.as_slice(), short.as_slice()];
        proof {
            assert(long.deep_view() =~= seq!["turn"@, "id"@]);
            assert(short.deep_view() =~= seq!["turnId"@]);
            assert(paths.deep_view() =~= seq![seq!["turn"@, "id"@], seq!["turnId"@]]);
        }
        self.turn_id = extract_string(result, paths.as_slice());
        self.session_id = match (&self.thread_id, &self.turn_id) {
            (Some(thread), Some(turn)) => {
                let mut id = thread.clone();
                id.append("-");
                id.append(turn.as_str());
                Some(id)
            },
            _ => None,
        };
        emit_plain("session_started", summarize_value(result), Some(turn_count))
    }

    /// Begin a turn as [`Session::begin_turn`] does; where the answer cannot be summed up, the
    /// session stays as it is.
    pub fn try_begin_turn(&mut self, result: &Json, turn_count: u32) -> (r: Option<Emission>)
        ensures
            match r {
                Some(emission) => {
                    &&& has_summary(result@)
                    &&& final(self)@ == old(self)@.with_turn(result@)
                    &&& emission@ == plain_emission(
                        "session_started"@,
                        summary(result@),
                        Some(turn_count),
                    )
                },
                None => !has_summary(result@) && *final(self) == *old(self),
            },
    {
        if try_summarize_value(result).is_some() {
            Some(self.begin_turn(result, turn_count))
        } else {
            None
        }
    }

    /// What is reported, with when and by which session.
    pub fn emit_update(&self, emission: Emission, at: Timestamp) -> (r: SessionUpdate)
        ensures
            r@ == self@.update(emission@, at),
    {
        SessionUpdate {
            issue_id: self.issue_id.clone(),
            issue_identifier: self.issue_identifier.clone(),
            event: emission.event,
            message: emission.message,
            at,
            session_id: self.session_id.duplicate(),
            thread_id: self.thread_id.duplicate(),
            turn_id: self.turn_id.duplicate(),
            pid: self.pid.duplicate(),
            absolute_tokens: emission.absolute_tokens,
            rate_limits: emission.rate_limits,
            turn_count: emission.turn_count,
        }
    }
}

// ---------------------------------------------------------------------------
// Startup
// ---------------------------------------------------------------------------

/// How far the start of a session has come.
#[derive(Clone, Copy, Debug, PartialEq, Eq, Structural)]
pub enum StartupPhase {
    /// The client has said what it is, and waits for the answer.
    Initializing,
    /// The client confirms that it is ready.
    Confirming,
    /// The client has asked for a thread, and waits for the answer.
    OpeningThread,
    /// The session is open.
    Open,
    /// The session could not be opened.
    Failed,
}

/// What came of the last action of the start of a session.
#[derive(Debug, PartialEq)]
pub enum StartupEvent {
    /// The request was answered.
    Replied(Json),
    /// The notification was written.
    Notified,
    /// It failed.
    Failed(SymphonyError),
}

/// The mathematical value of a [`StartupEvent`].
pub ghost enum StartupEventView {
    Replied(JsonView),
    Notified,
    Failed(ErrorView),
}

impl View for StartupEvent {
    type V = StartupEventView;

    open spec fn view(&self) -> StartupEventView {
        match *self {
            StartupEvent::Replied(result) => StartupEventView::Replied(result@),
            StartupEvent::Notified => StartupEventView::Notified,
            StartupEvent::Failed(error) => StartupEventView::Failed(error@),
        }
    }
}

/// What to do next to start a session.
#[derive(Debug, PartialEq)]
pub enum StartupAction {
    /// Make a request, and wait for the answer.
    Request { method: String, params: Json },
    /// Write a notification.
    Notify { method: String, params: Json },
    /// Nothing: the session is open.
    Ready,
    /// Report, where there is something to report, and give up.
    Fail { emission: Option<Emission>, error: SymphonyError },
    /// Nothing: that was not what was awaited.
    Wait,
}

/// The mathematical value of a [`StartupAction`].
pub ghost enum StartupActionView {
    Request { method: Seq<char>, params: JsonView },
    Notify { method: Seq<char>, params: JsonView },
    Ready,
    Fail { emission: Option<EmissionView>, error: ErrorView },
    Wait,
}

impl View for StartupAction {
    type V = StartupActionView;

    open spec fn view(&self) -> StartupActionView {
        match *self {
            StartupAction::Request { method, params } => StartupActionView::Request {
                method: method@,
                params: params@,
            },
            StartupAction::Notify { method, params } => StartupActionView::Notify {
                method: method@,
                params: params@,
            },
            StartupAction::Ready => StartupActionView::Ready,
            StartupAction::Fail { emission, error } => StartupActionView::Fail {
                emission: emission.deep_view(),
                error: error@,
            },
            StartupAction::Wait => StartupActionView::Wait,
        }
    }
}

/// The start of a session, one event further: the session, how far the start has come, and what to
/// do next. The app-server is told what the client is, then that it is ready, and then asked for a
/// thread. A failure ends the start; one of the notification is also reported.
pub open spec fn startup_step(
    config: EffectiveConfigView,
    session: SessionView,
    phase: StartupPhase,
    event: StartupEventView,
) -> (SessionView, StartupPhase, StartupActionView) {
    match (phase, event) {
        (StartupPhase::Open, _) => (session, phase, StartupActionView::Wait),
        (StartupPhase::Failed, _) => (session, phase, StartupActionView::Wait),
        (_, StartupEventView::Failed(error)) => (
            session,
            StartupPhase::Failed,
            StartupActionView::Fail {
                emission: if phase == StartupPhase::Confirming {
                    Some(plain_emission("startup_failed"@, Some(error_text(error)), None))
                } else {
                    None
                },
                error,
            },
        ),
        (StartupPhase::Initializing, StartupEventView::Replied(_)) => (
            session,
            StartupPhase::Confirming,
            StartupActionView::Notify {
                method: "initialized"@,
                params: JsonView::Object(seq![]),
            },
        ),
        (StartupPhase::Confirming, StartupEventView::Notified) => (
            session,
            StartupPhase::OpeningThread,
            StartupActionView::Request {
                method: "thread/start"@,
                params: thread_request(config, session.workspace_path),
            },
        ),
        (StartupPhase::OpeningThread, StartupEventView::Replied(result)) => (
            SessionView { thread_id: opened_thread(result), ..session },
            StartupPhase::Open,
            StartupActionView::Ready,
        ),
        _ => (session, phase, StartupActionView::Wait),
    }
}

/// The first action of the start of a session.
pub fn begin_startup(version: &str) -> (r: StartupAction)
    ensures
        r@ == (StartupActionView::Request {
            method: "initialize"@,
            params: initialize_request(version@),
        }),
{
    StartupAction::Request { method: "initialize".to_owned(), params: initialize_params(version) }
}

/// Take the start of a session one event further.
pub fn advance_startup(
    config: &EffectiveConfig,
    session: &mut Session,
    phase: StartupPhase,
    event: StartupEvent,
) -> (r: (StartupPhase, StartupAction))
    ensures
        (final(session)@, r.0, r.1@) == startup_step(config@, old(session)@, phase, event@),
{
    match (phase, event) {
        (StartupPhase::Open, _) => (phase, StartupAction::Wait),
        (StartupPhase::Failed, _) => (phase, StartupAction::Wait),
        (_, StartupEvent::Failed(error)) => {
            let emission = match phase {
                StartupPhase::Confirming => Some(
                    emit_plain("startup_failed", Some(error.to_string()), None),
                ),
                _ => None,
            };
            (StartupPhase::Failed, StartupAction::Fail { emission, error })
        },
        (StartupPhase::Initializing, StartupEvent::Replied(_)) => {
            let members: Vec<(String, Json)> = Vec::new();
            proof {
                assert(members.deep_view() =~= seq![]);
            }
            let params = json_object(members);
            (
                StartupPhase::Confirming,
                StartupAction::Notify { method: "initialized".to_owned(), params },
            )
        },
        (StartupPhase::Confirming, StartupEvent::Notified) => (
            StartupPhase::OpeningThread,
            StartupAction::Request {
                method: "thread/start".to_owned(),
                params: thread_params(config, session.workspace_path.as_str()),
            },
        ),
        (StartupPhase::OpeningThread, StartupEvent::Replied(result)) => {
            session.open_thread(&result);
            (StartupPhase::Open, StartupAction::Ready)
        },
        _ => (phase, StartupAction::Wait),
    }
}

// ---------------------------------------------------------------------------
// Laws
// ---------------------------------------------------------------------------

/// The steps that write to the app-server.
pub open spec fn writes(steps: Seq<StepView>) -> Seq<StepView> {
    steps.filter(|step: StepView| step is Write)
}

/// Every request for approval is approved for the whole session, whatever it is about, and the turn
/// goes on.
pub proof fn lemma_approvals_are_given(value: JsonView, turn_count: Option<u32>)
    requires
        is_server_request(value),
        value.member_text("method"@) matches Some(method) && asks_approval(method),
    ensures
        reaction(value, turn_count).steps[0] == StepView::Write(
            approval_reply(value.member("id"@).unwrap()),
        ),
        reaction(value, turn_count).verdict is Continue,
{
}

/// Every request for input of a user is refused, and fails the turn at once.
pub proof fn lemma_input_requests_fail_the_turn(value: JsonView, turn_count: Option<u32>)
    requires
        is_server_request(value),
        value.member_text("method"@) matches Some(method) && asks_input(method),
    ensures
        reaction(value, turn_count).steps[0] == StepView::Write(
            error_reply(
                value.member("id"@).unwrap(),
                INPUT_REQUIRED_CODE,
                "turn_input_required"@,
            ),
        ),
        reaction(value, turn_count).verdict == VerdictView::Failed(ErrorView::TurnInputRequired),
{
    reveal_strlit("item/tool/requestUserInput");
    reveal_strlit("mcpServer/elicitation/request");
    reveal_strlit("item/commandExecution/requestApproval");
    reveal_strlit("execCommandApproval");
    reveal_strlit("item/fileChange/requestApproval");
    reveal_strlit("applyPatchApproval");
    reveal_strlit("item/tool/call");
}

proof fn lemma_first_of_two(key: Seq<char>, value: JsonView, other: Seq<char>, rest: JsonView)
    requires
        key != other,
    ensures
        JsonView::Object(seq![(key, value), (other, rest)]).member(key) == Some(value),
{
    let members = seq![(key, value), (other, rest)];
    assert(members.drop_last().last() == (key, value));
    assert(find_member(members.drop_last(), key) == Some(value));
}

/// Every request that names its method is answered once, under its own id: by the reaction, or by
/// the result of the tool that the reaction calls.
pub proof fn lemma_requests_are_answered_once(
    value: JsonView,
    turn_count: Option<u32>,
    outcome: Result<JsonView, ErrorView>,
)
    requires
        is_server_request(value),
        value.member_text("method"@) is Some,
    ensures
        ({
            let id = value.member("id"@).unwrap();
            let r = reaction(value, turn_count);
            match r.verdict {
                VerdictView::CallTool { id: call, .. } => {
                    &&& writes(r.steps).len() == 0
                    &&& call == id
                    &&& tool_reply(call, outcome).member("id"@) == Some(id)
                },
                _ => {
                    &&& writes(r.steps).len() == 1
                    &&& writes(r.steps)[0]->Write_0.member("id"@) == Some(id)
                },
            }
        }),
{
    let r = reaction(value, turn_count);
    reveal_with_fuel(Seq::filter, 3);
    let id = value.member("id"@).unwrap();
    reveal_strlit("id");
    reveal_strlit("result");
    reveal_strlit("error");
    assert("id"@.len() == 2 && "result"@.len() == 6 && "error"@.len() == 5);
    assert forall|result: JsonView| #[trigger]
        result_reply(id, result).member("id"@) == Some(id) by {
        lemma_first_of_two("id"@, id, "result"@, result);
    }
    assert forall|code: i64, message: Seq<char>| #[trigger]
        error_reply(id, code, message).member("id"@) == Some(id) by {
        lemma_first_of_two("id"@, id, "error"@, error_reply(id, code, message)->Object_0[1].1);
    }
    assert(r.steps.len() <= 2);
    if r.steps.len() == 1 {
        assert(r.steps.drop_last() =~= seq![]);
    }
    if r.steps.len() == 2 {
        assert(r.steps.drop_last().drop_last() =~= seq![]);
    }
}

/// A turn ends well only with the message that says so.
pub proof fn lemma_only_completion_completes(heard: HeardView, turn_count: u32)
    requires
        turn_reaction(heard, turn_count).verdict is Completed,
    ensures
        heard matches HeardView::Message { message: IncomingMessageView::StdoutJson(value), .. }
            && !is_server_request(value) && value.member_text("method"@) == Some(
            "turn/completed"@,
        ),
{
}

/// A request is answered only by a message with its id, so by no other request's answer.
pub proof fn lemma_only_its_answer_answers(heard: HeardView, id: u64, other: u64)
    requires
        request_reaction(heard, id).verdict is Answered,
        other != id,
    ensures
        hears_answer(heard, id),
        !hears_answer(heard, other),
        request_reaction(heard, other).verdict !is Answered,
{
}

/// A session that opens has gone through all phases in order: three events, none of which failed,
/// are needed, and then the session has the thread that the last of them named.
pub proof fn lemma_startup_opens_in_order(
    config: EffectiveConfigView,
    session: SessionView,
    welcome: JsonView,
    thread: JsonView,
)
    ensures
        ({
            let first = startup_step(
                config,
                session,
                StartupPhase::Initializing,
                StartupEventView::Replied(welcome),
            );
            let second = startup_step(config, first.0, first.1, StartupEventView::Notified);
            let third = startup_step(
                config,
                second.0,
                second.1,
                StartupEventView::Replied(thread),
            );
            &&& third.1 == StartupPhase::Open
            &&& third.0.thread_id == opened_thread(thread)
            &&& first.1 != StartupPhase::Open && second.1 != StartupPhase::Open
        }),
{
}

} // verus!
